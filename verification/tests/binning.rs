use histo::binning::{bin_in_bounds, bin_size, hist_bin};

#[test]
fn underflow_clamps_to_first_bin() {
    assert_eq!(hist_bin(5, 10, 20, 3), 0);
    assert_eq!(hist_bin(1, 10, 20, 9), 0);
    assert_eq!(hist_bin(2, 1, 11, 0), 0);
}

#[test]
fn overflow_clamps_to_last_bin() {
    assert_eq!(hist_bin(5, 10, 20, 20), 4);
    assert_eq!(hist_bin(5, 10, 20, 1000), 4);
    assert_eq!(hist_bin(1, 0, 10, 10), 0);
    assert_eq!(hist_bin(2, 0, 10, 15), 1);
}

#[test]
fn in_range_values_split_by_width() {
    // nbins=2, range [0, 10): width 5.
    assert_eq!(hist_bin(2, 0, 10, 2), 0);
    assert_eq!(hist_bin(2, 0, 10, 4), 0);
    assert_eq!(hist_bin(2, 0, 10, 5), 1);
    assert_eq!(hist_bin(2, 0, 10, 7), 1);
    assert_eq!(hist_bin(2, 0, 10, 9), 1);
}

#[test]
fn in_range_value_below_partial_stretch_avoids_last_bin() {
    // nbins=3, range [0, 10): width 3; regular stretch ends at 6.
    assert_eq!(hist_bin(3, 0, 10, 5), 1);
    assert!(hist_bin(3, 0, 10, 5) < 2);
    // 6, 7 and 8 land exactly in the last bin.
    assert_eq!(hist_bin(3, 0, 10, 6), 2);
    assert_eq!(hist_bin(3, 0, 10, 7), 2);
    // 9 lies in the remainder stretch past the regular bins; the
    // last bin absorbs it.
    assert_eq!(hist_bin(3, 0, 10, 9), 2);
}

#[test]
fn remainder_values_absorbed_by_last_bin() {
    // nbins=2, range [0, 5): width 2; the regular bins end at 4, and
    // the remainder stretch [4, 5) falls into the last bin.
    assert_eq!(hist_bin(2, 0, 5, 4), 1);
    assert!(bin_in_bounds(2, 0, 5, 4));
    assert!(bin_in_bounds(2, 0, 5, 3));
    assert!(bin_in_bounds(2, 0, 5, 5));
}

#[test]
fn zero_width_rejects_in_range_values_only() {
    // nbins=3, range [0, 2): width 0; in-range values have no bin,
    // clamped values still do.
    assert_eq!(bin_size(3, 0, 2), 0);
    assert!(!bin_in_bounds(3, 0, 2, 1));
    assert!(bin_in_bounds(3, 0, 2, 5));
    assert_eq!(hist_bin(3, 0, 2, 5), 2);
}

#[test]
fn width_is_floor_division() {
    assert_eq!(bin_size(2, 0, 10), 5);
    assert_eq!(bin_size(3, 0, 10), 3);
    assert_eq!(bin_size(4, 2, 5), 0);
    assert_eq!(bin_size(1, 7, 7), 0);
}
