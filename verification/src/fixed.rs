//! Fixed-point units.
//!
//! Lengths are whole numbers of thousandths of a pixel, times are whole
//! microseconds, and the components of a direction are millionths, so that a
//! unit vector has length [`UNIT`].

use vstd::prelude::*;

verus! {

/// Length units in one pixel.
pub const PIXEL: i64 = 1000;

/// The length of a unit vector.
pub const UNIT: i64 = 1_000_000;

/// By how much the length of a vector may differ from [`UNIT`] and still
/// count as a unit vector: one part in ten thousand.
pub const UNIT_TOLERANCE: i64 = 100;

/// Every coordinate and every extent of a rectangle stays within this bound.
pub const COORD_LIMIT: i64 = 0x100_0000_0000;

/// Every component of a vector that is normalized stays within this bound.
pub const VEC_LIMIT: i64 = 0x800_0000_0000;

/// Component units times microseconds times pixels per second, per length unit.
pub const TRAVEL_DIVISOR: u128 = 1_000_000_000;

/// The absolute value of `x`.
pub open spec fn abs(x: int) -> int {
    if x < 0 {
        -x
    } else {
        x
    }
}

/// `x`, moved to the nearer end of `lo..=hi` where it lies outside.
pub open spec fn clamp(x: int, lo: int, hi: int) -> int {
    if x < lo {
        lo
    } else if x > hi {
        hi
    } else {
        x
    }
}

/// The distance covered in `dt` microseconds at `speed` pixels per second
/// along an axis on which the direction has the component `c`, rounded
/// towards zero.
pub open spec fn travel(c: int, dt: int, speed: int) -> int {
    if c < 0 {
        -((-c * dt * speed) / (TRAVEL_DIVISOR as int))
    } else {
        (c * dt * speed) / (TRAVEL_DIVISOR as int)
    }
}

/// Nothing is covered in no time.
pub proof fn lemma_travel_zero_time(c: int, speed: int)
    ensures
        travel(c, 0, speed) == 0,
{
    assert(c * 0 * speed == 0) by (nonlinear_arith);
    assert(-c * 0 * speed == 0) by (nonlinear_arith);
}

/// The absolute value of `x`.
pub fn magnitude(x: i64) -> (r: u64)
    ensures
        r == abs(x as int),
{
    if x >= 0 {
        x as u64
    } else {
        (-(x + 1)) as u64 + 1
    }
}

/// `x`, moved to the nearer end of `lo..=hi` where it lies outside.
pub fn clamp_to(x: i64, lo: i64, hi: i64) -> (r: i64)
    ensures
        r == clamp(x as int, lo as int, hi as int),
{
    if x < lo {
        lo
    } else if x > hi {
        hi
    } else {
        x
    }
}

/// Half of `x`, rounded down.
pub fn half(x: i64) -> (r: i64)
    ensures
        r == x / 2,
{
    if x >= 0 {
        x / 2
    } else {
        -((-(x + 1)) / 2) - 1
    }
}

/// The distance covered in `dt_us` microseconds at `speed` pixels per second
/// along an axis on which the direction has the component `c`.
pub fn travel_of(c: i64, dt_us: u32, speed: u16) -> (r: i64)
    requires
        -VEC_LIMIT <= c <= VEC_LIMIT,
    ensures
        r == travel(c as int, dt_us as int, speed as int),
        abs(r as int) <= 0x4000_0000_0000_0000,
{
    let m: u128 = magnitude(c) as u128;
    let t: u128 = dt_us as u128;
    let s: u128 = speed as u128;
    assert(m * t <= 0x800_0000_0000 * 0x1_0000_0000) by (nonlinear_arith)
        requires
            0 <= m <= 0x800_0000_0000,
            0 <= t <= 0x1_0000_0000,
    ;
    let mt: u128 = m * t;
    assert(mt * s <= 0x800_0000_0000_0000_0000 * 0x1_0000) by (nonlinear_arith)
        requires
            0 <= mt <= 0x800_0000_0000_0000_0000,
            0 <= s <= 0x1_0000,
    ;
    let d: u128 = mt * s / TRAVEL_DIVISOR;
    assert(d <= 0x4000_0000_0000_0000);
    if c < 0 {
        -(d as i64)
    } else {
        d as i64
    }
}

} // verus!
