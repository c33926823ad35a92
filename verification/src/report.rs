//! The reporter: turns a sequence of bin counts into one record per
//! bin, carrying the cumulative counts, the displayed value-range
//! bounds and the raw count.
//!
//! The cumulative percentage band of a bin is the interval from
//! `cum_before / total` to `cum_after / total`; the records carry the
//! exact cumulative counts, so the band of the last bin always ends at
//! the full total (100% whenever the total is positive). Percentages
//! themselves are a display matter left to the caller, as is the
//! undefined percentage of an all-zero histogram.

use vstd::prelude::*;
use vstd::arithmetic::div_mod::lemma_fundamental_div_mod;
use vstd::arithmetic::mul::lemma_mul_inequality;
use crate::binning::spec_bin_size;
use crate::sums::{
    lemma_sum_seq_nonneg, lemma_sum_seq_take_le, lemma_sum_seq_take_step, sum_seq,
};

verus! {

/// One row of the report, for one bin.
#[derive(Clone, Copy, Debug, PartialEq, Eq)]
pub struct BinRecord {
    /// Number of values in all earlier bins: the numerator of the
    /// band's lower percentage.
    pub cum_before: usize,
    /// Number of values in this and all earlier bins: the numerator of
    /// the band's upper percentage.
    pub cum_after: usize,
    /// Raw count of this bin.
    pub count: usize,
    /// Displayed lower bound of the bin's value range; the first bin
    /// displays 0 regardless of the range's minimum.
    pub range_lo: usize,
    /// Displayed upper bound of the bin's value range; `None` stands
    /// for positive infinity, which the last bin always displays.
    pub range_hi: Option<usize>,
}

/// The record the report holds for bin `i` of `counts` over the range
/// `[min, max)`.
pub open spec fn spec_record(counts: Seq<usize>, min: int, max: int, i: int) -> BinRecord {
    let width = spec_bin_size(counts.len() as int, min, max);
    BinRecord {
        cum_before: sum_seq(counts.take(i)) as usize,
        cum_after: sum_seq(counts.take(i + 1)) as usize,
        count: counts[i],
        range_lo: if i == 0 {
            0usize
        } else {
            (min + width * i) as usize
        },
        range_hi: if i == counts.len() - 1 {
            None
        } else {
            Some((min + width * (i + 1)) as usize)
        },
    }
}

/// The regular bin bounds never leave the range: `min + width * i`
/// stays at or below `max` for every `i` up to the bin count.
proof fn lemma_bound_in_range(nbins: int, min: int, max: int, i: int)
    requires
        nbins >= 1,
        min <= max,
        0 <= i <= nbins,
    ensures
        min <= min + spec_bin_size(nbins, min, max) * i <= max,
{
    let width = spec_bin_size(nbins, min, max);
    lemma_fundamental_div_mod(max - min, nbins);
    assert(width >= 0) by {
        assert(nbins * width + (max - min) % nbins == max - min);
    }
    lemma_mul_inequality(i, nbins, width);
    assert(width * i <= width * nbins);
    assert(width * nbins == nbins * width) by {
        vstd::arithmetic::mul::lemma_mul_is_commutative(width, nbins);
    }
    assert(width * i >= 0) by {
        vstd::arithmetic::mul::lemma_mul_nonnegative(width, i);
    }
}

/// Build the report: one record per bin, in bin order.
///
/// Each record holds exactly the data of `spec_record`; in particular
/// the first bin's displayed lower bound is 0, the last bin's
/// displayed upper bound is infinity, the cumulative counts chain
/// (each bin's upper numerator is the next bin's lower one), and the
/// last bin's band ends at the sum of all counts.
pub fn build_report(counts: &Vec<usize>, min: usize, max: usize) -> (r: Vec<BinRecord>)
    requires
        counts@.len() >= 1,
        min <= max,
        sum_seq(counts@) <= usize::MAX,
    ensures
        r@.len() == counts@.len(),
        forall|i: int| 0 <= i < r@.len() ==> r@[i] == spec_record(counts@, min as int, max as int, i),
        r@[0].range_lo == 0,
        r@[0].cum_before == 0,
        r@[r@.len() - 1].range_hi is None,
        r@[r@.len() - 1].cum_after == sum_seq(counts@),
{
    let nbins = counts.len();
    let width = crate::binning::bin_size(nbins, min, max);
    let mut r: Vec<BinRecord> = Vec::new();
    let mut cum: usize = 0;
    let mut i: usize = 0;
    while i < nbins
        invariant
            nbins == counts@.len(),
            nbins >= 1,
            min <= max,
            width == spec_bin_size(nbins as int, min as int, max as int),
            sum_seq(counts@) <= usize::MAX,
            i <= nbins,
            r@.len() == i,
            cum == sum_seq(counts@.take(i as int)),
            forall|j: int|
                0 <= j < i ==> r@[j] == spec_record(counts@, min as int, max as int, j),
        decreases nbins - i,
    {
        proof {
            lemma_sum_seq_take_step(counts@, i as int);
            lemma_sum_seq_take_le(counts@, i as int + 1);
            lemma_sum_seq_nonneg(counts@.take(i as int));
            lemma_bound_in_range(nbins as int, min as int, max as int, i as int);
            lemma_bound_in_range(nbins as int, min as int, max as int, i as int + 1);
        }
        let count = counts[i];
        let cum_after = cum + count;
        let range_lo = if i == 0 {
            0
        } else {
            min + width * i
        };
        let range_hi = if i == nbins - 1 {
            None
        } else {
            Some(min + width * (i + 1))
        };
        r.push(BinRecord { cum_before: cum, cum_after, count, range_lo, range_hi });
        cum = cum_after;
        i = i + 1;
    }
    proof {
        assert(counts@.take(nbins as int) =~= counts@);
    }
    r
}

} // verus!
