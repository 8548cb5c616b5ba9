//! Overlap test for axis-aligned boxes, with the face that was struck.

use vstd::prelude::*;
use crate::vector::{abs, Extent, Vec2};

verus! {

/// A face of a box. `Top` is the face toward larger `y`.
#[derive(Clone, Copy, Debug, PartialEq, Eq, Structural)]
pub enum Face {
    Left,
    Right,
    Top,
    Bottom,
}

impl Face {
    /// The face on the other side of the box.
    pub open spec fn mirrored(self) -> Face {
        match self {
            Face::Left => Face::Right,
            Face::Right => Face::Left,
            Face::Top => Face::Bottom,
            Face::Bottom => Face::Top,
        }
    }

    /// Whether the face is `Left` or `Right`.
    pub open spec fn is_horizontal(self) -> bool {
        self == Face::Left || self == Face::Right
    }

    pub fn opposite(self) -> (f: Face)
        ensures
            f == self.mirrored(),
    {
        match self {
            Face::Left => Face::Right,
            Face::Right => Face::Left,
            Face::Top => Face::Bottom,
            Face::Bottom => Face::Top,
        }
    }
}

/// Whether something moving with `motion` runs into `face` along x: into
/// the left face when it moves right, into the right face when it moves left.
pub open spec fn opposes_x(face: Face, motion: Vec2) -> bool {
    (face == Face::Left && motion.x > 0) || (face == Face::Right && motion.x < 0)
}

/// Whether something moving with `motion` runs into `face` along y: into
/// the top face when it moves down, into the bottom face when it moves up.
pub open spec fn opposes_y(face: Face, motion: Vec2) -> bool {
    (face == Face::Top && motion.y < 0) || (face == Face::Bottom && motion.y > 0)
}

/// Tells along which axes something moving with `motion` runs into `face`:
/// first x, then y.
pub fn opposition(face: Face, motion: Vec2) -> (against: (bool, bool))
    ensures
        against.0 == opposes_x(face, motion),
        against.1 == opposes_y(face, motion),
{
    match face {
        Face::Left => (motion.x > 0, false),
        Face::Right => (motion.x < 0, false),
        Face::Top => (false, motion.y < 0),
        Face::Bottom => (false, motion.y > 0),
    }
}

/// How deep two intervals with the given centers and half lengths reach into
/// each other; zero or less when they do not overlap.
pub open spec fn penetration(center_a: int, half_a: int, center_b: int, half_b: int) -> int {
    half_a + half_b - abs(center_a - center_b)
}

/// Penetration of box A into box B along x.
pub open spec fn penetration_x(center_a: Vec2, half_a: Extent, center_b: Vec2, half_b: Extent) -> int {
    penetration(center_a.x as int, half_a.x as int, center_b.x as int, half_b.x as int)
}

/// Penetration of box A into box B along y.
pub open spec fn penetration_y(center_a: Vec2, half_a: Extent, center_b: Vec2, half_b: Extent) -> int {
    penetration(center_a.y as int, half_a.y as int, center_b.y as int, half_b.y as int)
}

/// Two boxes overlap when they reach into each other along both axes.
/// Boxes that only touch do not overlap.
pub open spec fn overlaps(center_a: Vec2, half_a: Extent, center_b: Vec2, half_b: Extent) -> bool {
    penetration_x(center_a, half_a, center_b, half_b) > 0 && penetration_y(
        center_a,
        half_a,
        center_b,
        half_b,
    ) > 0
}

/// Whether the face is decided by the vertical axis: it is when the boxes
/// reach less deep into each other along y than along x. On equal depth the
/// horizontal axis decides.
pub open spec fn vertical_decides(
    center_a: Vec2,
    half_a: Extent,
    center_b: Vec2,
    half_b: Extent,
) -> bool {
    penetration_y(center_a, half_a, center_b, half_b) < penetration_x(
        center_a,
        half_a,
        center_b,
        half_b,
    )
}

/// The face of box B that box A strikes, if the two overlap.
///
/// The axis of least penetration decides between a horizontal and a vertical
/// face. On that axis A strikes the face of B on the side where A's center
/// lies: `Left` or `Bottom` where A's coordinate is smaller, `Right` or `Top`
/// otherwise.
pub open spec fn struck_face(
    center_a: Vec2,
    half_a: Extent,
    center_b: Vec2,
    half_b: Extent,
) -> Option<Face> {
    if !overlaps(center_a, half_a, center_b, half_b) {
        None
    } else if vertical_decides(center_a, half_a, center_b, half_b) {
        if center_a.y < center_b.y {
            Some(Face::Bottom)
        } else {
            Some(Face::Top)
        }
    } else {
        if center_a.x < center_b.x {
            Some(Face::Left)
        } else {
            Some(Face::Right)
        }
    }
}

/// Whether A's center differs from B's along the axis that decides the face.
pub open spec fn off_center(
    center_a: Vec2,
    half_a: Extent,
    center_b: Vec2,
    half_b: Extent,
) -> bool {
    if vertical_decides(center_a, half_a, center_b, half_b) {
        center_a.y != center_b.y
    } else {
        center_a.x != center_b.x
    }
}

/// One axis of `probe`: the penetration of two intervals.
fn depth(center_a: i32, half_a: u32, center_b: i32, half_b: u32) -> (d: i64)
    ensures
        d == penetration(center_a as int, half_a as int, center_b as int, half_b as int),
{
    let gap: i64 = if center_a < center_b {
        center_b as i64 - center_a as i64
    } else {
        center_a as i64 - center_b as i64
    };
    half_a as i64 + half_b as i64 - gap
}

/// Tests box A against box B and reports the face of B that A strikes.
pub fn probe(center_a: Vec2, half_a: Extent, center_b: Vec2, half_b: Extent) -> (hit: Option<Face>)
    ensures
        hit == struck_face(center_a, half_a, center_b, half_b),
        hit is Some <==> overlaps(center_a, half_a, center_b, half_b),
{
    let depth_x: i64 = depth(center_a.x, half_a.x, center_b.x, half_b.x);
    let depth_y: i64 = depth(center_a.y, half_a.y, center_b.y, half_b.y);
    if depth_x <= 0 || depth_y <= 0 {
        None
    } else if depth_y < depth_x {
        if center_a.y < center_b.y {
            Some(Face::Bottom)
        } else {
            Some(Face::Top)
        }
    } else {
        if center_a.x < center_b.x {
            Some(Face::Left)
        } else {
            Some(Face::Right)
        }
    }
}

/// Overlap does not depend on which box is asked about first.
pub proof fn lemma_overlap_symmetric(center_a: Vec2, half_a: Extent, center_b: Vec2, half_b: Extent)
    ensures
        overlaps(center_a, half_a, center_b, half_b) == overlaps(center_b, half_b, center_a, half_a),
        struck_face(center_a, half_a, center_b, half_b) is None <==> struck_face(
            center_b,
            half_b,
            center_a,
            half_a,
        ) is None,
{
}

/// A struck face lies on the axis of least penetration, on the side of B
/// where A's center is.
pub proof fn lemma_face_follows_least_penetration(
    center_a: Vec2,
    half_a: Extent,
    center_b: Vec2,
    half_b: Extent,
)
    requires
        overlaps(center_a, half_a, center_b, half_b),
    ensures
        struck_face(center_a, half_a, center_b, half_b) is Some,
        struck_face(center_a, half_a, center_b, half_b).unwrap().is_horizontal()
            <==> penetration_x(center_a, half_a, center_b, half_b) <= penetration_y(
            center_a,
            half_a,
            center_b,
            half_b,
        ),
        struck_face(center_a, half_a, center_b, half_b) == Some(Face::Left) ==> center_a.x
            < center_b.x,
        struck_face(center_a, half_a, center_b, half_b) == Some(Face::Right) ==> center_a.x
            >= center_b.x,
        struck_face(center_a, half_a, center_b, half_b) == Some(Face::Bottom) ==> center_a.y
            < center_b.y,
        struck_face(center_a, half_a, center_b, half_b) == Some(Face::Top) ==> center_a.y
            >= center_b.y,
{
}

/// Swapping the two boxes mirrors the face, wherever the centers differ
/// along the deciding axis.
pub proof fn lemma_probe_mirrored(center_a: Vec2, half_a: Extent, center_b: Vec2, half_b: Extent)
    requires
        overlaps(center_a, half_a, center_b, half_b),
        off_center(center_a, half_a, center_b, half_b),
    ensures
        struck_face(center_b, half_b, center_a, half_a) == Some(
            struck_face(center_a, half_a, center_b, half_b).unwrap().mirrored(),
        ),
{
}

} // verus!
