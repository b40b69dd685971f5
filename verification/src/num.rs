//! Small integer helpers with stated results.
use vstd::prelude::*;

verus! {

/// The absolute value of `d`, as `isize::unsigned_abs` returns it.
pub fn unsigned_abs(d: isize) -> (r: usize)
    ensures
        r as int == if d < 0 {
            -(d as int)
        } else {
            d as int
        },
{
    if d < 0 {
        let e = -(d + 1);
        (e as usize) + 1
    } else {
        d as usize
    }
}

/// `current` moved by `delta`, saturating at zero and at `usize::MAX`.
pub open spec fn saturating_offset(current: int, delta: int) -> int {
    if current + delta < 0 {
        0
    } else if current + delta > usize::MAX {
        usize::MAX as int
    } else {
        current + delta
    }
}

/// Moves `current` by `delta` with saturation at both ends of `usize`.
pub fn offset_saturating(current: usize, delta: isize) -> (r: usize)
    ensures
        r == saturating_offset(current as int, delta as int),
{
    if delta < 0 {
        current.saturating_sub(unsigned_abs(delta))
    } else {
        current.saturating_add(delta as usize)
    }
}

} // verus!
