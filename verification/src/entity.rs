//! The records that the simulation is made of.

use vstd::prelude::*;
use crate::vector::{Extent, Vec2};

verus! {

/// The identity of an entity. An identity is given out once and never again,
/// so a stale one refers to nothing rather than to a newcomer.
#[derive(Clone, Copy, Debug, PartialEq, Eq, Structural)]
pub struct EntityId(pub u64);

/// What an entity is, with the attributes that only its kind has.
#[derive(Clone, Copy, Debug, PartialEq, Eq, Structural)]
pub enum Body {
    /// The controllable actor: its speed, and how many of its projectiles may
    /// be live at once.
    Player { speed: u32, budget: u8 },
    /// A hostile actor and how many of its projectiles may be live at once.
    Enemy { budget: u8 },
    /// A static obstacle.
    Wall,
    /// A projectile: its velocity, who fired it, how often it has bounced off
    /// a wall and how often it may.
    Projectile { velocity: Vec2, owner: EntityId, ricochets: u32, limit: u32 },
}

/// One simulated entity: a box on the grid with an identity and a body.
#[derive(Clone, Copy, Debug, PartialEq, Eq, Structural)]
pub struct Entity {
    pub id: EntityId,
    pub position: Vec2,
    pub half_extent: Extent,
    pub body: Body,
}

impl Body {
    /// A projectile has not bounced more often than it may, and its
    /// velocity can be turned back without loss.
    pub open spec fn wf(self) -> bool {
        self matches Body::Projectile { velocity, ricochets, limit, .. } ==> ricochets <= limit
            && velocity.x > i32::MIN && velocity.y > i32::MIN
    }

    /// Players and enemies are actors.
    pub open spec fn is_actor(self) -> bool {
        self is Player || self is Enemy
    }

    /// Walls and enemies stand in the player's way.
    pub open spec fn obstructs(self) -> bool {
        self is Wall || self is Enemy
    }
}

impl Entity {
    pub open spec fn wf(self) -> bool {
        self.body.wf()
    }

    pub open spec fn is_player(self) -> bool {
        self.body is Player
    }

    pub open spec fn is_enemy(self) -> bool {
        self.body is Enemy
    }

    pub open spec fn is_wall(self) -> bool {
        self.body is Wall
    }

    pub open spec fn is_projectile(self) -> bool {
        self.body is Projectile
    }

    pub open spec fn is_actor(self) -> bool {
        self.body.is_actor()
    }

    pub open spec fn obstructs(self) -> bool {
        self.body.obstructs()
    }

    /// Whether this is a projectile that `owner` fired.
    pub open spec fn fired_by(self, owner: EntityId) -> bool {
        self.body matches Body::Projectile { owner: o, .. } && o == owner
    }

    /// How many projectiles of its own the entity may have live at once;
    /// zero for what does not fire.
    pub open spec fn firing_budget(self) -> nat {
        match self.body {
            Body::Player { budget, .. } => budget as nat,
            Body::Enemy { budget } => budget as nat,
            _ => 0,
        }
    }

    /// This entity at another place.
    pub open spec fn at(self, position: Vec2) -> Entity {
        Entity { position, ..self }
    }

    pub fn player(&self) -> (b: bool)
        ensures
            b == self.is_player(),
    {
        match self.body {
            Body::Player { .. } => true,
            _ => false,
        }
    }

    pub fn enemy(&self) -> (b: bool)
        ensures
            b == self.is_enemy(),
    {
        match self.body {
            Body::Enemy { .. } => true,
            _ => false,
        }
    }

    pub fn wall(&self) -> (b: bool)
        ensures
            b == self.is_wall(),
    {
        match self.body {
            Body::Wall => true,
            _ => false,
        }
    }

    pub fn projectile(&self) -> (b: bool)
        ensures
            b == self.is_projectile(),
    {
        match self.body {
            Body::Projectile { .. } => true,
            _ => false,
        }
    }

    pub fn actor(&self) -> (b: bool)
        ensures
            b == self.is_actor(),
    {
        match self.body {
            Body::Player { .. } => true,
            Body::Enemy { .. } => true,
            _ => false,
        }
    }

    pub fn obstruction(&self) -> (b: bool)
        ensures
            b == self.obstructs(),
    {
        match self.body {
            Body::Wall => true,
            Body::Enemy { .. } => true,
            _ => false,
        }
    }

    /// Tells whether this is a projectile that `owner` fired.
    pub fn owned_by(&self, owner: EntityId) -> (b: bool)
        ensures
            b == self.fired_by(owner),
    {
        match self.body {
            Body::Projectile { owner: o, .. } => o == owner,
            _ => false,
        }
    }

    /// The entity's firing budget.
    pub fn budget(&self) -> (n: u8)
        ensures
            n == self.firing_budget(),
    {
        match self.body {
            Body::Player { budget, .. } => budget,
            Body::Enemy { budget } => budget,
            _ => 0,
        }
    }

    /// The same entity at another place.
    pub fn moved_to(&self, position: Vec2) -> (e: Entity)
        ensures
            e == self.at(position),
    {
        Entity { id: self.id, position, half_extent: self.half_extent, body: self.body }
    }
}

} // verus!
