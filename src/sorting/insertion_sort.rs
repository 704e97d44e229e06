//! Insertion sort, in `O(n^2)` time: each element in turn moves left, one
//! step at a time, until the part before it is sorted with it included.
use vstd::prelude::*;

use crate::sorting::{sorted, swap_in_vec};

verus! {

/// Sorts `data` in ascending order.
pub fn insertion_sort(data: &mut Vec<i32>)
    ensures
        sorted(final(data)@),
        final(data)@.to_multiset() == old(data)@.to_multiset(),
{
    let n = data.len();
    if n == 0 {
        return;
    }
    // A one-element prefix is sorted already.
    let mut j: usize = 1;
    while j < n
        invariant
            n == data@.len(),
            1 <= j <= n,
            data@.to_multiset() == old(data)@.to_multiset(),
            forall|a: int, b: int| 0 <= a <= b < j ==> data@[a] <= data@[b],
        decreases n - j,
    {
        let mut i: usize = j;
        // The element taken up sits at `i`; the sorted prefix is split around it.
        while i > 0 && data[i - 1] > data[i]
            invariant
                n == data@.len(),
                i <= j < n,
                data@.to_multiset() == old(data)@.to_multiset(),
                forall|a: int, b: int| 0 <= a <= b < i ==> data@[a] <= data@[b],
                forall|a: int, b: int| i < a <= b <= j ==> data@[a] <= data@[b],
                forall|a: int, b: int| 0 <= a < i < b <= j ==> data@[a] <= data@[b],
                forall|b: int| i < b <= j ==> data@[i as int] < #[trigger] data@[b],
            decreases i,
        {
            swap_in_vec(data, i - 1, i);
            i = i - 1;
        }
        j = j + 1;
    }
}

} // verus!
