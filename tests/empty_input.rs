use clrs_algorithms::searching::binary_search::binary_search;
use clrs_algorithms::sorting::selection_sort::selection_sort;

#[test]
fn test_no_data() {
    let nothing: Vec<i32> = Vec::new();
    if let Some(v) = binary_search(&nothing, 0) {
        assert!(false, "Expected None, got Some({})", v);
    }

    let mut nothing: Vec<i32> = Vec::new();
    selection_sort(&mut nothing);
    assert!(nothing == Vec::new());
}
