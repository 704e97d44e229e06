use clrs_algorithms::util::slice::{range, Bound};

#[test]
fn range_normalises_bounds() {
    assert_eq!(range(Bound::Unbounded, Bound::Unbounded, 7), 0..7);
    assert_eq!(range(Bound::Included(2), Bound::Excluded(5), 7), 2..5);
    assert_eq!(range(Bound::Excluded(2), Bound::Included(5), 7), 3..6);
    assert_eq!(range(Bound::Included(7), Bound::Unbounded, 7), 7..7);
}
