//! Normalisation of index ranges given by their two bounds.
use std::ops::Range;

use vstd::prelude::*;

verus! {

/// One end of a range of indices.
#[derive(Debug, Clone, Copy, PartialEq, Eq, Structural)]
pub enum Bound {
    /// The range includes this index.
    Included(usize),
    /// The range stops just short of this index, or starts just after it.
    Excluded(usize),
    /// The range reaches as far as it can on this side.
    Unbounded,
}

/// The first index that a range with start bound `b` includes.
pub open spec fn start_index(b: Bound) -> int {
    match b {
        Bound::Included(s) => s as int,
        Bound::Excluded(s) => s + 1,
        Bound::Unbounded => 0,
    }
}

/// The index just past the end of a range with end bound `b`, within `0..len`.
pub open spec fn end_index(b: Bound, len: int) -> int {
    match b {
        Bound::Included(e) => e + 1,
        Bound::Excluded(e) => e as int,
        Bound::Unbounded => len,
    }
}

/// The bounds describe a range within `0..len`.
pub open spec fn valid_range(start: Bound, end: Bound, len: int) -> bool {
    0 <= start_index(start) <= end_index(end, len) <= len
}

/// Turns the bounds `start` and `end` of a range within `0..len` into the
/// equivalent half-open range.
pub fn range(start: Bound, end: Bound, len: usize) -> (r: Range<usize>)
    requires
        valid_range(start, end, len as int),
    ensures
        r.start == start_index(start),
        r.end == end_index(end, len as int),
{
    let start = match start {
        Bound::Included(s) => s,
        Bound::Excluded(s) => s + 1,
        Bound::Unbounded => 0,
    };
    let end = match end {
        Bound::Included(e) => e + 1,
        Bound::Excluded(e) => e,
        Bound::Unbounded => len,
    };
    Range { start, end }
}

} // verus!
