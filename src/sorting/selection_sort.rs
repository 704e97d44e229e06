//! Selection sort, in `O(n^2)` time: position by position, the smallest
//! remaining element is moved to the front of the unsorted part.
use vstd::prelude::*;

use crate::sorting::{sorted, swap_in_slice};

verus! {

/// The position of the first smallest element of `data[start..]`, or `start`
/// where that part is empty.
fn min_index(data: &[i32], start: usize) -> (r: usize)
    requires
        start <= data@.len(),
    ensures
        start == data@.len() ==> r == start,
        start < data@.len() ==> {
            &&& start <= r < data@.len()
            &&& forall|k: int| start <= k < data@.len() ==> data@[r as int] <= #[trigger] data@[k]
            &&& forall|k: int| start <= k < r ==> data@[r as int] < #[trigger] data@[k]
        },
{
    let mut min_index = start;
    let mut i: usize = start;
    while i < data.len()
        invariant
            start <= i <= data@.len(),
            start <= min_index <= i,
            start < i ==> min_index < i,
            i == start ==> min_index == start,
            forall|k: int| start <= k < i ==> data@[min_index as int] <= #[trigger] data@[k],
            forall|k: int| start <= k < min_index ==> data@[min_index as int] < #[trigger] data@[k],
        decreases data@.len() - i,
    {
        if data[i] < data[min_index] {
            min_index = i;
        }
        i = i + 1;
    }
    min_index
}

/// Sorts `data` in ascending order.
pub fn selection_sort(data: &mut [i32])
    ensures
        sorted(final(data)@),
        final(data)@.to_multiset() == old(data)@.to_multiset(),
{
    let n = data.len();
    if n <= 1 {
        return;
    }
    let mut i: usize = 0;
    while i < n - 1
        invariant
            n == data@.len(),
            n > 1,
            i <= n - 1,
            data@.to_multiset() == old(data)@.to_multiset(),
            forall|a: int, b: int| 0 <= a <= b < i ==> data@[a] <= data@[b],
            forall|a: int, b: int| 0 <= a < i <= b < n ==> data@[a] <= data@[b],
        decreases n - 1 - i,
    {
        let index = min_index(data, i);
        swap_in_slice(data, i, index);
        i = i + 1;
    }
}

} // verus!
