//! Bubble sort, in `O(n^2)` time: on each pass the smallest element of the
//! unsorted part sinks to its front.
use vstd::prelude::*;

use crate::sorting::{sorted, swap_in_slice};

verus! {

/// Sorts `data` in ascending order.
pub fn bubble_sort(data: &mut [i32])
    ensures
        sorted(final(data)@),
        final(data)@.to_multiset() == old(data)@.to_multiset(),
{
    let n = data.len();
    if n <= 1 {
        return;
    }
    let mut i: usize = 0;
    while i < n - 1
        invariant
            n == data@.len(),
            n > 1,
            i <= n - 1,
            data@.to_multiset() == old(data)@.to_multiset(),
            forall|a: int, b: int| 0 <= a <= b < i ==> data@[a] <= data@[b],
            forall|a: int, b: int| 0 <= a < i <= b < n ==> data@[a] <= data@[b],
        decreases n - 1 - i,
    {
        let mut j: usize = n - 1;
        while j > i
            invariant
                n == data@.len(),
                i <= j < n,
                data@.to_multiset() == old(data)@.to_multiset(),
                forall|a: int, b: int| 0 <= a <= b < i ==> data@[a] <= data@[b],
                forall|a: int, b: int| 0 <= a < i <= b < n ==> data@[a] <= data@[b],
                forall|k: int| j <= k < n ==> data@[j as int] <= #[trigger] data@[k],
            decreases j,
        {
            if data[j] < data[j - 1] {
                swap_in_slice(data, j, j - 1);
            }
            j = j - 1;
        }
        i = i + 1;
    }
}

} // verus!
