//! What a single contact does to a projectile: whether a wall turns it
//! back, what becomes of it then, and whether it harms an actor.

use vstd::prelude::*;
use crate::collision::{opposes_x, opposes_y, Face};
use crate::entity::EntityId;
use crate::vector::{clamp_coord, clamp_to_coord, Vec2};

verus! {

/// A velocity component turned back.
pub open spec fn reversed(c: i32) -> i32 {
    clamp_coord(-c) as i32
}

/// A velocity turned back along the axes named.
pub open spec fn reflected(velocity: Vec2, turn_x: bool, turn_y: bool) -> Vec2 {
    Vec2 {
        x: if turn_x {
            reversed(velocity.x)
        } else {
            velocity.x
        },
        y: if turn_y {
            reversed(velocity.y)
        } else {
            velocity.y
        },
    }
}

/// What the walls do to a projectile in one step.
#[derive(Clone, Copy, Debug, PartialEq, Eq, Structural)]
pub enum Rebound {
    /// No wall turned the projectile back.
    Untouched,
    /// The projectile bounced and goes on with a new velocity and count.
    Bounced { velocity: Vec2, ricochets: u32 },
    /// The projectile had no bounce left and is destroyed.
    Spent,
}

/// What becomes of a projectile that the walls turn back along the axes
/// named. A projectile that is turned back along either axis bounces once,
/// however many axes and walls are involved, unless it has used up its
/// bounces: then it is destroyed instead.
pub open spec fn rebound(velocity: Vec2, ricochets: u32, limit: u32, turn_x: bool, turn_y: bool) -> Rebound {
    if !turn_x && !turn_y {
        Rebound::Untouched
    } else if ricochets >= limit {
        Rebound::Spent
    } else {
        Rebound::Bounced { velocity: reflected(velocity, turn_x, turn_y), ricochets: (ricochets + 1) as u32 }
    }
}

/// Turns one velocity component back.
fn reverse(c: i32) -> (r: i32)
    ensures
        r == reversed(c),
{
    clamp_to_coord(-(c as i64))
}

/// Decides what becomes of a projectile that the walls turn back along the
/// axes named.
pub fn rebound_of(velocity: Vec2, ricochets: u32, limit: u32, turn_x: bool, turn_y: bool) -> (r: Rebound)
    ensures
        r == rebound(velocity, ricochets, limit, turn_x, turn_y),
{
    if !turn_x && !turn_y {
        Rebound::Untouched
    } else if ricochets >= limit {
        Rebound::Spent
    } else {
        Rebound::Bounced {
            velocity: Vec2 {
                x: if turn_x {
                    reverse(velocity.x)
                } else {
                    velocity.x
                },
                y: if turn_y {
                    reverse(velocity.y)
                } else {
                    velocity.y
                },
            },
            ricochets: ricochets + 1,
        }
    }
}

/// Whether an actor is safe from a projectile that touches it: only the
/// one who fired it is, and only until the projectile has bounced once.
pub open spec fn spares(owner: EntityId, ricochets: u32, actor: EntityId) -> bool {
    owner == actor && ricochets < 1
}

/// Tells whether the actor `actor` is safe from a projectile of `owner`
/// that has bounced `ricochets` times.
pub fn is_spared(owner: EntityId, ricochets: u32, actor: EntityId) -> (b: bool)
    ensures
        b == spares(owner, ricochets, actor),
{
    owner == actor && ricochets < 1
}

/// A projectile that has not bounced yet and may bounce once comes back
/// from a wall: the component of its velocity that runs into the struck
/// face changes sign, the other stays, and its count becomes one. The one
/// component that has no opposite on the grid, the smallest, is left out.
pub proof fn lemma_first_wall_contact_bounces(face: Face, velocity: Vec2)
    requires
        opposes_x(face, velocity) || opposes_y(face, velocity),
        face == Face::Right ==> velocity.x > i32::MIN,
        face == Face::Top ==> velocity.y > i32::MIN,
    ensures
        rebound(velocity, 0, 1, opposes_x(face, velocity), opposes_y(face, velocity)) == (Rebound::Bounced {
            velocity: if face.is_horizontal() {
                Vec2 { x: (-velocity.x) as i32, y: velocity.y }
            } else {
                Vec2 { x: velocity.x, y: (-velocity.y) as i32 }
            },
            ricochets: 1,
        }),
{
}

/// A projectile that has used up its bounces is destroyed by the next wall
/// that turns it back, and not reflected again.
pub proof fn lemma_spent_projectile_is_destroyed(
    velocity: Vec2,
    ricochets: u32,
    limit: u32,
    turn_x: bool,
    turn_y: bool,
)
    requires
        turn_x || turn_y,
        ricochets >= limit,
    ensures
        rebound(velocity, ricochets, limit, turn_x, turn_y) == Rebound::Spent,
{
}

/// A bounce never takes the count past the limit, and raises it by one.
pub proof fn lemma_bounce_counts_once(velocity: Vec2, ricochets: u32, limit: u32, turn_x: bool, turn_y: bool)
    requires
        ricochets <= limit,
    ensures
        rebound(velocity, ricochets, limit, turn_x, turn_y) matches Rebound::Bounced { ricochets: after, .. }
            ==> after == ricochets + 1 && after <= limit,
{
}

/// The one who fired a projectile is safe from it exactly until its first
/// bounce; nobody else ever is.
pub proof fn lemma_grace_window(owner: EntityId, ricochets: u32, actor: EntityId)
    ensures
        ricochets == 0 ==> spares(owner, ricochets, owner),
        ricochets >= 1 ==> !spares(owner, ricochets, owner),
        actor != owner ==> !spares(owner, ricochets, actor),
{
}

} // verus!
