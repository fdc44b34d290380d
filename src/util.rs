use vstd::prelude::*;

verus! {

/// The value `v` limited to the closed range `[lo, hi]`.
pub open spec fn clamp_spec(v: int, lo: int, hi: int) -> int {
    if v < lo {
        lo
    } else if v > hi {
        hi
    } else {
        v
    }
}

/// Limits `input` to `[min, max]`: below `min` gives `min`, above `max` gives `max`.
pub fn clamp(input: i32, min: i32, max: i32) -> (r: i32)
    ensures
        r == clamp_spec(input as int, min as int, max as int),
{
    if input < min {
        min
    } else if input > max {
        max
    } else {
        input
    }
}

} // verus!
