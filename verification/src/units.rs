//! Fixed-point units and the process-wide simulation constants.

use vstd::prelude::*;

verus! {

/// How many fixed-point units make one pixel.
pub const UNITS_PER_PIXEL: i64 = 1000;

/// Added to every player's vertical velocity once per tick.
pub const GRAVITY: i64 = 4;

/// Subtracted from the vertical velocity by one jump.
pub const JUMP_IMPULSE: i64 = 50;

/// Magnitude of the horizontal velocity while moving.
pub const MOVE_SPEED: i64 = 50;

/// Pause between two ticks, in milliseconds.
pub const FRAME_MS: u64 = 1;

/// Whether `v` is representable as a stored quantity.
pub open spec fn in_range(v: int) -> bool {
    i64::MIN <= v <= i64::MAX
}

/// `v` pulled back into the representable range.
pub open spec fn clamp(v: int) -> i64 {
    if v > i64::MAX {
        i64::MAX
    } else if v < i64::MIN {
        i64::MIN
    } else {
        v as i64
    }
}

/// Saturating sum of two quantities.
pub fn sat_add(a: i64, b: i64) -> (r: i64)
    ensures
        r == clamp(a + b),
{
    match a.checked_add(b) {
        Some(v) => v,
        None => if b > 0 { i64::MAX } else { i64::MIN },
    }
}

/// Saturating difference of two quantities.
pub fn sat_sub(a: i64, b: i64) -> (r: i64)
    ensures
        r == clamp(a - b),
{
    match a.checked_sub(b) {
        Some(v) => v,
        None => if b > 0 { i64::MIN } else { i64::MAX },
    }
}

} // verus!
