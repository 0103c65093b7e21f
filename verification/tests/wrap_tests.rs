use wasim::wrap_index;

#[test]
fn minus_one_wraps_to_last_index() {
    for w in [1usize, 2, 3, 5, 100] {
        assert_eq!(wrap_index(-1, w), w - 1);
    }
}

#[test]
fn dimension_wraps_to_zero() {
    for w in [1usize, 2, 3, 5, 100] {
        assert_eq!(wrap_index(w as i128, w), 0);
    }
}

#[test]
fn zero_stays_zero() {
    for w in [1usize, 2, 3, 5, 100] {
        assert_eq!(wrap_index(0, w), 0);
    }
}

#[test]
fn far_offsets_fold_into_range() {
    assert_eq!(wrap_index(-7, 5), 3);
    assert_eq!(wrap_index(12, 5), 2);
    assert_eq!(wrap_index(-5, 5), 0);
    assert_eq!(wrap_index(-1000000007, 3), 1);
    assert_eq!(wrap_index(4, 1), 0);
    assert_eq!(wrap_index(-4, 1), 0);
}
