//! Integer vectors and the arithmetic that keeps them on the grid.

use vstd::prelude::*;

verus! {

/// A point or a displacement on the grid.
#[derive(Clone, Copy, Debug, PartialEq, Eq, Structural)]
pub struct Vec2 {
    pub x: i32,
    pub y: i32,
}

/// Half the width and half the height of an axis-aligned box.
#[derive(Clone, Copy, Debug, PartialEq, Eq, Structural)]
pub struct Extent {
    pub x: u32,
    pub y: u32,
}

/// Smallest coordinate a `Vec2` can hold.
pub const COORD_MIN: i32 = -2147483648;

/// Largest coordinate a `Vec2` can hold.
pub const COORD_MAX: i32 = 2147483647;

/// Microseconds in a second.
pub const MICROS_PER_SECOND: u32 = 1000000;

/// The distance of `v` from zero.
pub open spec fn abs(v: int) -> int {
    if v < 0 {
        -v
    } else {
        v
    }
}

/// The coordinate nearest to `v`: `v` itself wherever it fits.
pub open spec fn clamp_coord(v: int) -> int {
    if v < COORD_MIN {
        COORD_MIN as int
    } else if v > COORD_MAX {
        COORD_MAX as int
    } else {
        v
    }
}

/// The quotient `a / b` rounded toward zero, for a positive `b`.
pub open spec fn trunc_div(a: int, b: int) -> int {
    if a >= 0 {
        a / b
    } else {
        -((-a) / b)
    }
}

/// How far something moving at `rate` per second gets in `micros`
/// microseconds, rounded toward zero.
pub open spec fn travel(rate: int, micros: int) -> int {
    trunc_div(rate * micros, MICROS_PER_SECOND as int)
}

/// Where a coordinate `from` ends up after moving at `rate` per second for
/// `micros` microseconds; motion stops at the edge of the grid.
pub open spec fn moved_coord(from: int, rate: int, micros: int) -> int {
    clamp_coord(from + travel(rate, micros))
}

impl Vec2 {
    pub fn new(x: i32, y: i32) -> (v: Vec2)
        ensures
            v.x == x,
            v.y == y,
    {
        Vec2 { x, y }
    }

    pub fn zero() -> (v: Vec2)
        ensures
            v.x == 0,
            v.y == 0,
    {
        Vec2 { x: 0, y: 0 }
    }

    /// This point after moving with `velocity` for `micros` microseconds.
    pub open spec fn moved(self, velocity: Vec2, micros: u32) -> Vec2 {
        Vec2 {
            x: moved_coord(self.x as int, velocity.x as int, micros as int) as i32,
            y: moved_coord(self.y as int, velocity.y as int, micros as int) as i32,
        }
    }

    /// Moves the point with `velocity` for `micros` microseconds.
    pub fn advance(self, velocity: Vec2, micros: u32) -> (p: Vec2)
        ensures
            p == self.moved(velocity, micros),
    {
        Vec2 {
            x: advance_coord(self.x, velocity.x, micros),
            y: advance_coord(self.y, velocity.y, micros),
        }
    }
}

impl Extent {
    pub fn new(x: u32, y: u32) -> (e: Extent)
        ensures
            e.x == x,
            e.y == y,
    {
        Extent { x, y }
    }
}

/// Brings `v` into the range of a coordinate.
pub fn clamp_to_coord(v: i64) -> (c: i32)
    ensures
        c == clamp_coord(v as int),
{
    if v < COORD_MIN as i64 {
        COORD_MIN
    } else if v > COORD_MAX as i64 {
        COORD_MAX
    } else {
        v as i32
    }
}

/// One coordinate of `Vec2::advance`.
pub fn advance_coord(from: i32, rate: i32, micros: u32) -> (to: i32)
    ensures
        to == moved_coord(from as int, rate as int, micros as int),
{
    let magnitude: u64 = if rate < 0 {
        (-(rate as i64)) as u64
    } else {
        rate as u64
    };
    assert(magnitude * micros <= 0x8000_0000 * 0xffff_ffff) by (nonlinear_arith)
        requires
            magnitude <= 0x8000_0000,
            micros <= 0xffff_ffff,
    ;
    let product: u64 = magnitude * (micros as u64);
    let covered: i64 = (product / (MICROS_PER_SECOND as u64)) as i64;
    assert(rate * micros == if rate < 0 {
        -(product as int)
    } else {
        product as int
    }) by (nonlinear_arith)
        requires
            product == magnitude * micros,
            magnitude == abs(rate as int),
    ;
    if rate < 0 {
        clamp_to_coord(from as i64 - covered)
    } else {
        clamp_to_coord(from as i64 + covered)
    }
}

} // verus!
