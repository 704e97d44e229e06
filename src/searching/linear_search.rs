//! Linear search, in `O(n)` time: the sequence is traversed from left to right
//! until the value turns up.
use vstd::prelude::*;

verus! {

/// The position of the first occurrence of `value` in `data`, or `None` where
/// it does not occur.
pub fn linear_search(data: &[i32], value: i32) -> (r: Option<usize>)
    ensures
        r is None <==> !data@.contains(value),
        r matches Some(i) ==> i < data@.len() && data@[i as int] == value && forall|k: int|
            0 <= k < i ==> #[trigger] data@[k] != value,
{
    let mut i: usize = 0;
    while i < data.len()
        invariant
            i <= data@.len(),
            forall|k: int| 0 <= k < i ==> #[trigger] data@[k] != value,
        decreases data@.len() - i,
    {
        if value == data[i] {
            return Some(i);
        }
        i = i + 1;
    }
    None
}

} // verus!
