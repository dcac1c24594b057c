use vstd::prelude::*;

pub mod gen;
pub mod gun;
pub mod map;
pub mod path;
pub mod rng;
pub mod tank;

verus! {

/// One full turn in millidegrees. All orientations in this crate are angles
/// normalized to the range `[0, FULL_TURN_MDEG)`.
pub const FULL_TURN_MDEG: i64 = 360_000;

/// An angle in millidegrees reduced to `[0, FULL_TURN_MDEG)`.
pub open spec fn norm_spec(a: int) -> int {
    a % (FULL_TURN_MDEG as int)
}

/// Reduce an arbitrary angle in millidegrees to `[0, FULL_TURN_MDEG)`.
pub fn normalize_angle(a: i64) -> (r: i64)
    ensures
        0 <= r < FULL_TURN_MDEG,
        r == norm_spec(a as int),
{
    let m: i64 = a % FULL_TURN_MDEG;
    if m < 0 {
        m + FULL_TURN_MDEG
    } else {
        m
    }
}

} // verus!
