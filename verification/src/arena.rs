//! The bounds of the playing field.

use vstd::prelude::*;
use crate::vector::Vec2;

verus! {

/// The playing field: a box around the origin, given by half its width and
/// half its height.
#[derive(Clone, Copy, Debug, PartialEq, Eq, Structural)]
pub struct Arena {
    pub half_width: u32,
    pub half_height: u32,
}

impl Arena {
    pub fn new(half_width: u32, half_height: u32) -> (arena: Arena)
        ensures
            arena.half_width == half_width,
            arena.half_height == half_height,
    {
        Arena { half_width, half_height }
    }

    /// A point has left the field when it lies beyond the half width or the
    /// half height on either side. A point on the edge is still inside.
    pub open spec fn excludes(self, p: Vec2) -> bool {
        p.x > self.half_width || p.x < -self.half_width || p.y > self.half_height || p.y
            < -self.half_height
    }

    /// Tells whether `p` has left the field.
    pub fn is_outside(&self, p: Vec2) -> (b: bool)
        ensures
            b == self.excludes(p),
    {
        let x: i64 = p.x as i64;
        let y: i64 = p.y as i64;
        let w: i64 = self.half_width as i64;
        let h: i64 = self.half_height as i64;
        x > w || x < -w || y > h || y < -h
    }
}

} // verus!
