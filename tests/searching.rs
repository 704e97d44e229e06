use clrs_algorithms::searching::binary_search::binary_search;
use clrs_algorithms::searching::linear_search::linear_search;

#[test]
fn test_only_element() {
    let value = 12;
    let data = vec![value];
    match binary_search(&data, value) {
        Some(v) => assert_eq!(v, 0, "Got value {}, which does not match the search parameter {}!", v, 0),
        None => assert!(false, "Expected value {}, got nothing!", value),
    }
}

#[test]
fn no_data() {
    let nothing: Vec<i32> = Vec::new();
    if let Some(v) = linear_search(&nothing, 0) {
        assert!(false, "Expected None, got Some({})", v);
    }
}

#[test]
fn only_element() {
    let value = 12;
    let data = vec![value];
    match linear_search(&data, value) {
        Some(v) => assert_eq!(
            data[v], value,
            "Got value {}, which does not match the search parameter {}!",
            data[v], value
        ),
        None => assert!(false, "Expected value {}, got nothing!", value),
    }
}

#[test]
fn linear_search_finds_first_occurrence() {
    assert_eq!(linear_search(&[4, 7, 1, 7], 7), Some(1));
    assert_eq!(linear_search(&[4, 7, 1, 7], 5), None);
}

#[test]
fn binary_search_finds_last_occurrence() {
    assert_eq!(binary_search(&[1, 3, 3, 3, 8], 3), Some(3));
    assert_eq!(binary_search(&[1, 3, 3, 3, 8], 1), Some(0));
    assert_eq!(binary_search(&[1, 3, 3, 3, 8], 8), Some(4));
    assert_eq!(binary_search(&[1, 3, 3, 3, 8], 4), None);
    assert_eq!(binary_search(&[1, 3, 3, 3, 8], 0), None);
    assert_eq!(binary_search(&[1, 3, 3, 3, 8], 9), None);
}

#[test]
fn finds_members() {
    fn prop(mut data: Vec<i32>, pick: usize) -> bool {
        if data.is_empty() {
            return true;
        }
        let element = data[pick % data.len()];
        let found_linear = linear_search(&data, element).map(|i| data[i]) == Some(element);
        data.sort_unstable();
        found_linear && binary_search(&data, element).map(|i| data[i]) == Some(element)
    }
    quickcheck::quickcheck(prop as fn(Vec<i32>, usize) -> bool);
}

#[test]
fn doesnt_find_unmember() {
    fn prop(mut data: Vec<i32>, element: i32) -> bool {
        data.retain(|&x| x != element);
        data.sort_unstable();
        linear_search(&data, element).is_none() && binary_search(&data, element).is_none()
    }
    quickcheck::quickcheck(prop as fn(Vec<i32>, i32) -> bool);
}
