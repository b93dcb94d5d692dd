//! Fixed-point playfield arithmetic and the millisecond clock.

use vstd::prelude::*;

verus! {

/// One playfield unit, in the thousandths that coordinates are counted in.
pub const UNIT: i32 = 1000;

/// Milliseconds in one second of the caller's clock.
pub const MILLIS_PER_SECOND: u64 = 1000;

/// The coordinate nearest to `v` that the playfield can represent.
pub open spec fn clamp_coord(v: int) -> int {
    if v < i32::MIN as int {
        i32::MIN as int
    } else if v > i32::MAX as int {
        i32::MAX as int
    } else {
        v
    }
}

/// Whole seconds that have passed at `now` since `then`; none if the clock
/// reads earlier than `then`.
pub open spec fn seconds_between(now: int, then: int) -> int {
    if now >= then {
        (now - then) / (MILLIS_PER_SECOND as int)
    } else {
        0
    }
}

/// Brings a wide intermediate result back into the coordinate range.
pub fn saturate(v: i64) -> (c: i32)
    ensures
        c as int == clamp_coord(v as int),
{
    if v < i32::MIN as i64 {
        i32::MIN
    } else if v > i32::MAX as i64 {
        i32::MAX
    } else {
        v as i32
    }
}

/// Moves a coordinate by `delta`, stopping at the edge of the coordinate
/// range.
pub fn shift(coord: i32, delta: i32) -> (moved: i32)
    ensures
        moved as int == clamp_coord(coord as int + delta as int),
{
    saturate(coord as i64 + delta as i64)
}

/// Whole seconds elapsed at `now` since `then`.
pub fn elapsed_secs(now: u64, then: u64) -> (secs: u64)
    ensures
        secs as int == seconds_between(now as int, then as int),
{
    if now >= then {
        (now - then) / MILLIS_PER_SECOND
    } else {
        0
    }
}

} // verus!
