//! Levels: where the entities of a game start out.

use vstd::prelude::*;
use crate::entity::Body;
use crate::store::{EntityStore, StoreView};
use crate::vector::{Extent, Vec2};

verus! {

/// The player's speed, in milli-units per second.
pub const PLAYER_SPEED: u32 = 100000;

/// How many projectiles of the player may be live at once.
pub const PLAYER_BUDGET: u8 = 5;

/// How many projectiles of one enemy may be live at once.
pub const ENEMY_BUDGET: u8 = 1;

/// Half the side of an actor's box, in milli-units.
pub const ACTOR_HALF_SIDE: u32 = 16000;

/// Half the side of a wall's box, in milli-units.
pub const WALL_HALF_SIDE: u32 = 32000;

/// What a level can place.
#[derive(Clone, Copy, Debug, PartialEq, Eq, Structural)]
pub enum Kind {
    Player,
    Enemy,
    Wall,
}

/// One entity of a level: what it is and where it starts.
#[derive(Clone, Copy, Debug, PartialEq, Eq, Structural)]
pub struct Placement {
    pub kind: Kind,
    pub position: Vec2,
}

/// A level: its placements, in the order in which they are created.
#[derive(Debug)]
pub struct Level {
    pub placements: Vec<Placement>,
}

impl View for Level {
    type V = Seq<Placement>;

    open spec fn view(&self) -> Seq<Placement> {
        self.placements@
    }
}

/// The body that an entity of the given kind starts with.
pub open spec fn body_for(kind: Kind) -> Body {
    match kind {
        Kind::Player => Body::Player { speed: PLAYER_SPEED, budget: PLAYER_BUDGET },
        Kind::Enemy => Body::Enemy { budget: ENEMY_BUDGET },
        Kind::Wall => Body::Wall,
    }
}

/// The box of an entity of the given kind.
pub open spec fn extent_for(kind: Kind) -> Extent {
    match kind {
        Kind::Wall => Extent { x: WALL_HALF_SIDE, y: WALL_HALF_SIDE },
        _ => Extent { x: ACTOR_HALF_SIDE, y: ACTOR_HALF_SIDE },
    }
}

/// The store after the first `n` placements were asked for, in order. A
/// placement that the store does not admit, such as a second player, is
/// passed over.
pub open spec fn after_setup(v: StoreView, placements: Seq<Placement>, n: int) -> StoreView
    decreases n,
{
    if n <= 0 {
        v
    } else {
        let placement = placements[n - 1];
        after_setup(v, placements, n - 1).with_spawn(
            placement.position,
            extent_for(placement.kind),
            body_for(placement.kind),
        )
    }
}

impl Placement {
    pub fn new(kind: Kind, x: i32, y: i32) -> (placement: Placement)
        ensures
            placement == spot(kind, x as int, y as int),
    {
        Placement { kind, position: Vec2 { x, y } }
    }
}

impl Level {
    pub fn new(placements: Vec<Placement>) -> (level: Level)
        ensures
            level@ == placements@,
    {
        Level { placements }
    }

    /// The level that every game starts with.
    pub fn first() -> (level: Level)
        ensures
            level@ == first_layout(),
    {
        let mut placements: Vec<Placement> = Vec::new();
        placements.push(Placement::new(Kind::Player, 0, 0));
        placements.push(Placement::new(Kind::Wall, 32000, 64000));
        placements.push(Placement::new(Kind::Wall, -32000, 64000));
        placements.push(Placement::new(Kind::Wall, 32000, -64000));
        placements.push(Placement::new(Kind::Enemy, -100000, 100000));
        placements.push(Placement::new(Kind::Enemy, 200000, 150000));
        assert(placements@ =~= first_layout());
        Level { placements }
    }
}

/// A placement of `kind` at `(x, y)`.
pub open spec fn spot(kind: Kind, x: int, y: int) -> Placement {
    Placement { kind, position: Vec2 { x: x as i32, y: y as i32 } }
}

/// The placements of the first level: the player in the middle, three
/// walls and two enemies.
pub open spec fn first_layout() -> Seq<Placement> {
    seq![
        spot(Kind::Player, 0, 0),
        spot(Kind::Wall, 32000, 64000),
        spot(Kind::Wall, -32000, 64000),
        spot(Kind::Wall, 32000, -64000),
        spot(Kind::Enemy, -100000, 100000),
        spot(Kind::Enemy, 200000, 150000),
    ]
}

/// Computes the body that an entity of the given kind starts with.
pub fn starting_body(kind: Kind) -> (body: Body)
    ensures
        body == body_for(kind),
        body.wf(),
{
    match kind {
        Kind::Player => Body::Player { speed: PLAYER_SPEED, budget: PLAYER_BUDGET },
        Kind::Enemy => Body::Enemy { budget: ENEMY_BUDGET },
        Kind::Wall => Body::Wall,
    }
}

/// Computes the box of an entity of the given kind.
pub fn starting_extent(kind: Kind) -> (extent: Extent)
    ensures
        extent == extent_for(kind),
{
    match kind {
        Kind::Wall => Extent { x: WALL_HALF_SIDE, y: WALL_HALF_SIDE },
        _ => Extent { x: ACTOR_HALF_SIDE, y: ACTOR_HALF_SIDE },
    }
}

/// Asks the store for every entity of the level, in order.
pub fn set_up(store: &mut EntityStore, level: &Level)
    requires
        old(store)@.wf(),
    ensures
        final(store)@ == after_setup(old(store)@, level@, level@.len() as int),
        final(store)@.wf(),
{
    let ghost before = store@;
    let n = level.placements.len();
    let mut i: usize = 0;
    while i < n
        invariant
            i <= n,
            n == level@.len(),
            store@.wf(),
            store@ == after_setup(before, level@, i as int),
        decreases n - i,
    {
        let placement = level.placements[i];
        store.request_spawn(
            placement.position,
            starting_extent(placement.kind),
            starting_body(placement.kind),
        );
        i += 1;
    }
}

/// Setting up a level asks for players, enemies and walls only, and touches
/// neither the live entities nor the requests to destroy.
pub proof fn lemma_setup_creates_no_projectiles(v: StoreView, placements: Seq<Placement>, n: int)
    requires
        forall|i: int| 0 <= i < v.spawned.len() ==> !(#[trigger] v.spawned[i]).is_projectile(),
    ensures
        after_setup(v, placements, n).live == v.live,
        after_setup(v, placements, n).doomed == v.doomed,
        forall|i: int|
            0 <= i < after_setup(v, placements, n).spawned.len() ==> !(#[trigger] after_setup(
                v,
                placements,
                n,
            ).spawned[i]).is_projectile(),
    decreases n,
{
    if n > 0 {
        lemma_setup_creates_no_projectiles(v, placements, n - 1);
    }
}

} // verus!
