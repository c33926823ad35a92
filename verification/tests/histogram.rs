use histo::histogram::Histogram;

#[test]
fn new_histogram_is_all_zeros() {
    let h = Histogram::new(4, 0, 100);
    assert_eq!(h.counts_ref().as_slice(), &[0, 0, 0, 0]);
    assert_eq!(h.total(), 0);
}

#[test]
fn each_value_raises_exactly_one_counter() {
    let mut h = Histogram::new(2, 0, 10);
    h.record(2);
    assert_eq!(h.counts_ref().as_slice(), &[1, 0]);
    h.record(7);
    assert_eq!(h.counts_ref().as_slice(), &[1, 1]);
    h.record(9);
    assert_eq!(h.counts_ref().as_slice(), &[1, 2]);
}

#[test]
fn total_counts_every_recorded_value() {
    let mut h = Histogram::new(3, 10, 40);
    let values = [0, 10, 25, 39, 40, 1000];
    for v in values {
        h.record(v);
    }
    assert_eq!(h.total(), values.len());
    let sum: usize = h.counts_ref().iter().sum();
    assert_eq!(sum, values.len());
}

#[test]
fn remainder_values_are_counted_in_last_bin() {
    // nbins=2, range [0, 5): width 2; 4 lies in the remainder
    // stretch and still contributes to the histogram.
    let mut h = Histogram::new(2, 0, 5);
    h.record(1);
    h.record(4);
    assert_eq!(h.counts_ref().as_slice(), &[1, 1]);
    assert_eq!(h.total(), 2);
}

#[test]
fn clamped_values_land_in_outermost_bins() {
    let mut h = Histogram::new(3, 10, 40);
    h.record(0);
    h.record(9);
    h.record(40);
    h.record(500);
    assert_eq!(h.counts_ref().as_slice(), &[2, 0, 2]);
}
