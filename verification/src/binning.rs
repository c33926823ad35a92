//! The binner: maps a value into a bin index in `[0, nbins - 1]`,
//! clamping out-of-range values into the first and last bins.

use vstd::prelude::*;
use vstd::arithmetic::div_mod::{
    lemma_div_by_multiple, lemma_div_is_ordered, lemma_multiply_divide_lt,
};

verus! {

/// Width of one regular bin: the range is split into `nbins` bins of
/// this width by integer (floor) division.
pub open spec fn spec_bin_size(nbins: int, min: int, max: int) -> int {
    (max - min) / nbins
}

/// The bin index a value maps to: values below the range clamp to bin
/// 0, values at or above the range's upper bound clamp to the last
/// bin, and in-range values are placed by floor division on the bin
/// width. The last bin also absorbs the partial stretch that the
/// floor division leaves when the width does not divide the range
/// evenly, so the result always stays at or below `nbins - 1`.
pub open spec fn spec_hist_bin(nbins: int, min: int, max: int, value: int) -> int {
    if value < min {
        0
    } else if value >= max {
        nbins - 1
    } else {
        let q = (value - min) / spec_bin_size(nbins, min, max);
        if q > nbins - 1 {
            nbins - 1
        } else {
            q
        }
    }
}

/// True when binning `value` is defined: an in-range value needs a
/// positive bin width (a zero-width division is a fatal precondition
/// violation), while out-of-range values always clamp into an
/// existing bin.
pub open spec fn bin_fits(nbins: int, min: int, max: int, value: int) -> bool {
    min <= value && value < max ==> spec_bin_size(nbins, min, max) >= 1
}

pub fn bin_size(nbins: usize, min: usize, max: usize) -> (r: usize)
    requires
        nbins >= 1,
        min <= max,
    ensures
        r == spec_bin_size(nbins as int, min as int, max as int),
{
    (max - min) / nbins
}

pub fn hist_bin(nbins: usize, min: usize, max: usize, value: usize) -> (r: usize)
    requires
        nbins >= 1,
        min <= max,
        bin_fits(nbins as int, min as int, max as int, value as int),
    ensures
        r == spec_hist_bin(nbins as int, min as int, max as int, value as int),
        r <= nbins - 1,
        value < min ==> r == 0,
        value >= max ==> r == nbins - 1,
{
    if value < min {
        0
    } else if value >= max {
        nbins - 1
    } else {
        let width = bin_size(nbins, min, max);
        let q = (value - min) / width;
        if q > nbins - 1 {
            nbins - 1
        } else {
            q
        }
    }
}

/// Decides whether `value` can be recorded: only an in-range value
/// over a zero-width bin has no bin to go to; every other value maps
/// into one of the `nbins` counters.
pub fn bin_in_bounds(nbins: usize, min: usize, max: usize, value: usize) -> (r: bool)
    requires
        nbins >= 1,
        min <= max,
    ensures
        r == bin_fits(nbins as int, min as int, max as int, value as int),
{
    if value < min {
        true
    } else if value >= max {
        true
    } else {
        let width = bin_size(nbins, min, max);
        width >= 1
    }
}

/// An in-range value lands strictly below the last bin exactly when
/// it lies below the start of the final regular-width stretch; a
/// value at or past that stretch — including the partial remainder
/// stretch left by the floor division — is absorbed by the last bin.
pub proof fn lemma_interior_bin_below_last(nbins: int, min: int, max: int, value: int)
    requires
        nbins >= 1,
        min <= value,
        value < max,
        spec_bin_size(nbins, min, max) >= 1,
    ensures
        spec_hist_bin(nbins, min, max, value) <= nbins - 2 <==> value - min < spec_bin_size(
            nbins,
            min,
            max,
        ) * (nbins - 1),
        value - min >= spec_bin_size(nbins, min, max) * (nbins - 1) ==> spec_hist_bin(
            nbins,
            min,
            max,
            value,
        ) == nbins - 1,
{
    let width = spec_bin_size(nbins, min, max);
    if value - min < width * (nbins - 1) {
        lemma_multiply_divide_lt(value - min, width, nbins - 1);
    } else {
        lemma_div_is_ordered(width * (nbins - 1), value - min, width);
        lemma_div_by_multiple(nbins - 1, width);
    }
}

} // verus!
