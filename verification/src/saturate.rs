//! Coordinates that stop at the limits of `i32` in place of wrapping round.

use vstd::prelude::*;

verus! {

/// The value of `i32` nearest to `v`.
pub open spec fn sat(v: int) -> int {
    if v < i32::MIN {
        i32::MIN as int
    } else if v > i32::MAX {
        i32::MAX as int
    } else {
        v
    }
}

/// The value of `i32` nearest to `v`.
pub fn sat_i32(v: i64) -> (r: i32)
    ensures
        r == sat(v as int),
{
    if v < i32::MIN as i64 {
        i32::MIN
    } else if v > i32::MAX as i64 {
        i32::MAX
    } else {
        v as i32
    }
}

} // verus!
