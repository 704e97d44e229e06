use clrs_algorithms::testing::vector::{fmt_vec, AllNegative, AllPositive, ElementOf, NoElementOf};

#[test]
fn fmt_vec_renders_entries() {
    assert_eq!(fmt_vec(&vec![]), "<>");
    assert_eq!(fmt_vec(&vec![7]), "< 7>");
    assert_eq!(fmt_vec(&vec![1, -20, 300]), "< 1, -20, 300>");
    assert_eq!(fmt_vec(&vec![i32::MIN, i32::MAX, 0]), "< -2147483648, 2147483647, 0>");
}

#[test]
fn describe_element_of() {
    let e = ElementOf { data: vec![1, 3], element: 3 };
    assert_eq!(e.describe(), "3 element of << 1, 3>>");
    let n = NoElementOf { data: vec![1, 3], element: -2 };
    assert_eq!(n.describe(), "-2 not an element of << 1, 3>>");
}

#[test]
fn describe_signed_vectors() {
    assert_eq!(AllNegative { data: vec![-1, -10] }.describe(), "< -1, -10>");
    assert_eq!(AllPositive { data: vec![5, 40] }.describe(), "< 5, 40>");
    assert_eq!(AllPositive { data: vec![] }.describe(), "<>");
}
