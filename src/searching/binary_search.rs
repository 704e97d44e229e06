//! Binary search, in `O(lg n)` time: on sorted input, comparing against the
//! middle element tells which half can hold the value.
use std::ops::Range;

use vstd::prelude::*;

use crate::sorting::sorted;
use crate::util::slice::{end_index, range, start_index, valid_range, Bound};

verus! {

/// The position of an occurrence of `value` in `data`, or `None`.
///
/// On sorted input the result is `None` exactly when `value` does not occur,
/// and otherwise the position of its last occurrence. On any input, a
/// position that is returned holds `value`.
pub fn binary_search(data: &[i32], value: i32) -> (r: Option<usize>)
    ensures
        r matches Some(i) ==> i < data@.len() && data@[i as int] == value,
        sorted(data@) ==> (r is None <==> !data@.contains(value)),
        r matches Some(i) ==> (sorted(data@) ==> forall|k: int|
            i < k < data@.len() ==> #[trigger] data@[k] != value),
{
    if data.len() == 0 {
        return None;
    }
    binary_search_recursion(data, value, Bound::Included(0), Bound::Excluded(data.len()))
}

/// Binary search within the non-empty range of `data` that `start` and `end`
/// bound.
fn binary_search_recursion(data: &[i32], value: i32, start: Bound, end: Bound) -> (r: Option<
    usize,
>)
    requires
        valid_range(start, end, data@.len() as int),
        start_index(start) < end_index(end, data@.len() as int),
    ensures
        r matches Some(i) ==> start_index(start) <= i < end_index(end, data@.len() as int)
            && data@[i as int] == value,
        sorted(data@) ==> (r is None <==> forall|k: int|
            start_index(start) <= k < end_index(end, data@.len() as int) ==> #[trigger] data@[k]
                != value),
        r matches Some(i) ==> (sorted(data@) ==> forall|k: int|
            i < k < end_index(end, data@.len() as int) ==> #[trigger] data@[k] != value),
    decreases end_index(end, data@.len() as int) - start_index(start),
{
    let Range { start, end } = range(start, end, data.len());

    if start < end - 1 {
        let middle = start + (end - start) / 2;

        if value < data[middle] {
            let r = binary_search_recursion(data, value, Bound::Included(start), Bound::Excluded(middle));
            proof {
                if sorted(data@) {
                    assert forall|k: int| middle <= k < end implies #[trigger] data@[k] != value by {
                        assert(data@[middle as int] <= data@[k]);
                    }
                }
            }
            return r;
        } else {
            let r = binary_search_recursion(data, value, Bound::Included(middle), Bound::Excluded(end));
            proof {
                if sorted(data@) && r is None {
                    assert forall|k: int| start <= k < middle implies #[trigger] data@[k] != value by {
                        assert(data@[k] <= data@[middle as int]);
                        assert(data@[middle as int] != value);
                    }
                }
            }
            return r;
        }
    }

    if data[start] == value {
        Some(start)
    } else {
        None
    }
}

} // verus!
