//! The histogram: an ordered sequence of counters, one per bin,
//! mutated only by incrementing exactly one counter per recorded
//! value.

use vstd::prelude::*;
use crate::binning::{bin_fits, hist_bin, spec_hist_bin};
use crate::sums::{lemma_elem_le_sum, lemma_sum_seq_update, sum_seq};

verus! {

/// A histogram over `nbins` contiguous bins spanning `[min, max)`.
///
/// The ghost `history` holds every value recorded so far, so that the
/// counts can be related to the inputs that produced them.
pub struct Histogram {
    nbins: usize,
    min: usize,
    max: usize,
    counts: Vec<usize>,
    history: Ghost<Seq<usize>>,
}

impl Histogram {
    pub closed spec fn nbins(&self) -> int {
        self.nbins as int
    }

    pub closed spec fn min(&self) -> int {
        self.min as int
    }

    pub closed spec fn max(&self) -> int {
        self.max as int
    }

    /// The counters, in bin order.
    pub closed spec fn counts(&self) -> Seq<usize> {
        self.counts@
    }

    /// Every value recorded so far, in order.
    pub closed spec fn history(&self) -> Seq<usize> {
        self.history@
    }

    /// Well-formedness: one counter per bin, a non-empty bin count, an
    /// ordered range, and counts that add up to the number of recorded
    /// values, which stays representable in one machine word.
    pub closed spec fn wf(&self) -> bool {
        &&& self.counts@.len() == self.nbins
        &&& self.nbins >= 1
        &&& self.min <= self.max
        &&& sum_seq(self.counts@) == self.history@.len()
        &&& self.history@.len() <= usize::MAX
    }

    /// A fresh histogram: all counters zero, nothing recorded yet.
    pub fn new(nbins: usize, min: usize, max: usize) -> (h: Histogram)
        requires
            nbins >= 1,
            min <= max,
        ensures
            h.wf(),
            h.nbins() == nbins,
            h.min() == min,
            h.max() == max,
            h.counts() == Seq::new(nbins as nat, |i: int| 0usize),
            h.history() == Seq::<usize>::empty(),
    {
        let mut counts: Vec<usize> = Vec::new();
        let mut i: usize = 0;
        while i < nbins
            invariant
                i <= nbins,
                counts@.len() == i,
                forall|j: int| 0 <= j < i ==> counts@[j] == 0usize,
                sum_seq(counts@) == 0,
            decreases nbins - i,
        {
            proof {
                assert(counts@.push(0usize).drop_last() =~= counts@);
            }
            counts.push(0);
            i = i + 1;
        }
        proof {
            assert(counts@ =~= Seq::new(nbins as nat, |j: int| 0usize));
        }
        Histogram { nbins, min, max, counts, history: Ghost(Seq::empty()) }
    }

    /// Add one value: exactly the counter of the value's bin goes up
    /// by one, and the value is appended to the recorded history.
    pub fn record(&mut self, value: usize)
        requires
            old(self).wf(),
            bin_fits(old(self).nbins(), old(self).min(), old(self).max(), value as int),
            old(self).history().len() < usize::MAX,
        ensures
            final(self).wf(),
            final(self).nbins() == old(self).nbins(),
            final(self).min() == old(self).min(),
            final(self).max() == old(self).max(),
            final(self).counts() == old(self).counts().update(
                spec_hist_bin(old(self).nbins(), old(self).min(), old(self).max(), value as int),
                (old(self).counts()[spec_hist_bin(
                    old(self).nbins(),
                    old(self).min(),
                    old(self).max(),
                    value as int,
                )] + 1) as usize,
            ),
            final(self).history() == old(self).history().push(value),
    {
        let idx = hist_bin(self.nbins, self.min, self.max, value);
        proof {
            lemma_elem_le_sum(self.counts@, idx as int);
            lemma_sum_seq_update(self.counts@, idx as int, (self.counts@[idx as int] + 1) as usize);
        }
        let c = self.counts[idx];
        self.counts[idx] = c + 1;
        self.history = Ghost(self.history@.push(value));
    }

    /// The counters, for reading out or reporting.
    pub fn counts_ref(&self) -> (r: &Vec<usize>)
        ensures
            r@ == self.counts(),
    {
        &self.counts
    }

    /// How many values have been recorded.
    pub fn total(&self) -> (r: usize)
        requires
            self.wf(),
        ensures
            r == sum_seq(self.counts()),
            r == self.history().len(),
    {
        let mut sum: usize = 0;
        let mut i: usize = 0;
        while i < self.counts.len()
            invariant
                self.wf(),
                i <= self.counts@.len(),
                sum == sum_seq(self.counts@.take(i as int)),
                sum_seq(self.counts@) <= usize::MAX,
            decreases self.counts@.len() - i,
        {
            proof {
                crate::sums::lemma_sum_seq_take_step(self.counts@, i as int);
                crate::sums::lemma_sum_seq_take_le(self.counts@, i as int + 1);
                crate::sums::lemma_sum_seq_nonneg(self.counts@.take(i as int));
            }
            sum = sum + self.counts[i];
            i = i + 1;
        }
        proof {
            assert(self.counts@.take(self.counts@.len() as int) =~= self.counts@);
        }
        sum
    }
}

/// The sum of all bin counts equals the number of recorded values:
/// every value a histogram ever accepted is counted exactly once.
pub proof fn lemma_counts_sum_matches_history(h: &Histogram)
    requires
        h.wf(),
    ensures
        sum_seq(h.counts()) == h.history().len(),
{
}

} // verus!
