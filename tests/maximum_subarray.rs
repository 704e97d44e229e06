use clrs_algorithms::maximum_subarray::kadanes::kadanes_algorithm;
use clrs_algorithms::maximum_subarray::naive::naive_algorithm;
use clrs_algorithms::maximum_subarray::shamos::shamos_algorithm;
use clrs_algorithms::maximum_subarray::MaximumSubarray;

type SubrangeFn = fn(&[i64]) -> MaximumSubarray<i64>;

const ALGORITHMS: [(SubrangeFn, &str); 3] = [
    (naive_algorithm, "naive_algorithm"),
    (shamos_algorithm, "shamos_algorithm"),
    (kadanes_algorithm, "kadanes_algorithm"),
];

const BOOK_EXAMPLE: [i64; 16] = [13, -3, -25, 20, -3, -16, -23, 18, 20, -7, 12, -5, -22, 15, -4, 7];

fn adapt_empty_subrange(m: MaximumSubarray<i64>) -> MaximumSubarray<i64> {
    if m.value > 0 {
        m
    } else {
        MaximumSubarray { range: 0..0, value: 0 }
    }
}

fn values_agree(data: &[i64]) -> bool {
    let solution = adapt_empty_subrange((ALGORITHMS[0].0)(data));
    ALGORITHMS
        .iter()
        .skip(1)
        .all(|a| adapt_empty_subrange((a.0)(data)).value == solution.value)
}

fn brute_force_best(data: &[i64]) -> i64 {
    let mut best = 0;
    for i in 0..data.len() {
        for j in i..=data.len() {
            best = best.max(data[i..j].iter().sum());
        }
    }
    best
}

// Naive algorithm

#[test]
fn weird() {
    assert_eq!(naive_algorithm(&[0, 1]), MaximumSubarray { range: 0..2, value: 1 });
}

#[test]
fn empty() {
    assert_eq!(naive_algorithm(&[]), MaximumSubarray { range: 0..0, value: 0 });
}

#[test]
fn all_positive() {
    let data = [1, 5, 7, 3, 20];
    let solution = MaximumSubarray { range: 0..data.len(), value: data.iter().sum() };
    assert_eq!(naive_algorithm(&data), solution);
}

#[test]
fn all_negative() {
    let data = [-1, -2, -5, -10];
    let solution = MaximumSubarray { range: 0..0, value: 0 };
    assert_eq!(naive_algorithm(&data), solution);
}

#[test]
fn example_1() {
    assert_eq!(naive_algorithm(&[1, -4, 3, -4]), MaximumSubarray { range: 2..3, value: 3 });
}

#[test]
fn example_2() {
    assert_eq!(naive_algorithm(&BOOK_EXAMPLE), MaximumSubarray { range: 7..11, value: 43 });
}

// Kadane's algorithm

#[test]
fn test_empty() {
    assert_eq!(kadanes_algorithm(&[]), MaximumSubarray { range: 0..0, value: 0 });
    assert_eq!(shamos_algorithm(&[]), MaximumSubarray { range: 0..0, value: 0 });
}

#[test]
fn test_all_positive() {
    let data = [1, 5, 7, 3, 20];
    let solution = MaximumSubarray { range: 0..data.len(), value: data.iter().sum() };
    assert_eq!(kadanes_algorithm(&data), solution);
    assert_eq!(shamos_algorithm(&data), solution);
}

#[test]
fn test_all_negative() {
    let data = [-1, -2, -5, -10];
    let solution = MaximumSubarray { range: 0..0, value: 0 };
    assert_eq!(kadanes_algorithm(&data), solution);
    let solution = MaximumSubarray { range: 0..1, value: -1 };
    assert_eq!(shamos_algorithm(&data), solution);
}

#[test]
fn test_example_1() {
    assert_eq!(kadanes_algorithm(&[1, -4, 3, -4]), MaximumSubarray { range: 2..3, value: 3 });
    assert_eq!(shamos_algorithm(&[1, -4, 3, -4]), MaximumSubarray { range: 2..3, value: 3 });
}

#[test]
fn test_example_2() {
    assert_eq!(kadanes_algorithm(&BOOK_EXAMPLE), MaximumSubarray { range: 7..11, value: 43 });
    assert_eq!(shamos_algorithm(&BOOK_EXAMPLE), MaximumSubarray { range: 7..11, value: 43 });
}

// Divide and conquer: the scenarios above run it too, under the `test_` names.

#[test]
fn shamos_crossing_run_ends_after_first_right_element() {
    // The best run passes the midpoint and stops right after it.
    assert_eq!(shamos_algorithm(&[-5, 4, 3, -9]), MaximumSubarray { range: 1..3, value: 7 });
    assert_eq!(shamos_algorithm(&[2, 3]), MaximumSubarray { range: 0..2, value: 5 });
}

#[test]
fn shamos_without_positive_element_gives_one_element() {
    assert_eq!(shamos_algorithm(&[0, 0]), MaximumSubarray { range: 0..1, value: 0 });
    assert_eq!(shamos_algorithm(&[-3, 0, -1]), MaximumSubarray { range: 1..2, value: 0 });
    assert_eq!(shamos_algorithm(&[-4, -2, -9]), MaximumSubarray { range: 1..2, value: -2 });
}

#[test]
fn kadanes_tie_prefers_earliest_end_and_shortest_run() {
    assert_eq!(kadanes_algorithm(&[0, 1]), MaximumSubarray { range: 1..2, value: 1 });
    assert_eq!(kadanes_algorithm(&[2, -2, 2]), MaximumSubarray { range: 0..1, value: 2 });
}

#[test]
fn naive_tie_prefers_earliest_start_and_shortest_run() {
    assert_eq!(naive_algorithm(&[2, -2, 2]), MaximumSubarray { range: 0..1, value: 2 });
    assert_eq!(naive_algorithm(&[1, 0, -3, 1]), MaximumSubarray { range: 0..1, value: 1 });
}

// Agreement between the algorithms

#[test]
fn empty_agreement() {
    let solution = (ALGORITHMS[0].0)(&[]);
    for a in ALGORITHMS.iter().skip(1) {
        assert_eq!((a.0)(&[]), solution, "{} doesn't agree with {} on empty slices!", a.1, ALGORITHMS[0].1);
    }
}

#[test]
fn example_agreement() {
    assert!(values_agree(&[1, -4, 3, -4]));
    assert!(values_agree(&[-1, -2, -5, -10]));
    assert!(values_agree(&BOOK_EXAMPLE));
}

#[test]
fn all_positive_agreement() {
    fn prop(data: Vec<i16>) -> bool {
        let data: Vec<i64> = data.into_iter().map(|i| (i as i64).abs() + 1).collect();
        let solution = (ALGORITHMS[0].0)(&data);
        ALGORITHMS.iter().skip(1).all(|a| (a.0)(&data).value == solution.value)
            && solution.value == data.iter().sum::<i64>()
    }
    quickcheck::quickcheck(prop as fn(Vec<i16>) -> bool);
}

#[test]
fn all_negative_agreement() {
    fn prop(data: Vec<i16>) -> bool {
        let data: Vec<i64> = data.into_iter().map(|i| -(i as i64).abs() - 1).collect();
        values_agree(&data)
    }
    quickcheck::quickcheck(prop as fn(Vec<i16>) -> bool);
}

#[test]
fn general_agreement() {
    fn prop(data: Vec<i16>) -> bool {
        let data: Vec<i64> = data.into_iter().map(|i| i as i64).collect();
        values_agree(&data) && naive_algorithm(&data).value == brute_force_best(&data)
    }
    quickcheck::quickcheck(prop as fn(Vec<i16>) -> bool);
}

#[test]
fn results_name_their_own_sum() {
    fn prop(data: Vec<i16>) -> bool {
        let data: Vec<i64> = data.into_iter().map(|i| i as i64).collect();
        ALGORITHMS.iter().all(|a| {
            let r = (a.0)(&data);
            r.range.start <= r.range.end
                && r.range.end <= data.len()
                && data[r.range.clone()].iter().sum::<i64>() == r.value
        })
    }
    quickcheck::quickcheck(prop as fn(Vec<i16>) -> bool);
}
