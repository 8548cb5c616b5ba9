//! The player's movement: where the pressed keys lead, and what stands in
//! the way.

use vstd::prelude::*;
use crate::collision::{opposes_x, opposes_y, opposition, probe, struck_face};
use crate::entity::{Body, Entity};
use crate::heading::{heading, lemma_heading_no_faster, velocity_along};
use crate::store::{player_index, EntityStore, StoreView};
use crate::vector::{advance_coord, moved_coord, Vec2};

verus! {

/// The four direction keys, each pressed or not.
#[derive(Clone, Copy, Debug, PartialEq, Eq, Structural)]
pub struct Keys {
    pub left: bool,
    pub right: bool,
    pub up: bool,
    pub down: bool,
}

/// One axis of the intended direction: keys that oppose each other cancel.
pub open spec fn axis(backward: bool, forward: bool) -> int {
    (if forward {
        1int
    } else {
        0int
    }) - (if backward {
        1int
    } else {
        0int
    })
}

/// The direction that the pressed keys ask for: each component is -1, 0 or 1.
pub open spec fn intended(keys: Keys) -> Vec2 {
    Vec2 { x: axis(keys.left, keys.right) as i32, y: axis(keys.down, keys.up) as i32 }
}

/// Computes the direction that the pressed keys ask for.
pub fn input_direction(keys: &Keys) -> (direction: Vec2)
    ensures
        direction == intended(*keys),
{
    let mut x: i32 = 0;
    let mut y: i32 = 0;
    if keys.left {
        x = x - 1;
    }
    if keys.right {
        x = x + 1;
    }
    if keys.up {
        y = y + 1;
    }
    if keys.down {
        y = y - 1;
    }
    Vec2 { x, y }
}

/// The velocity with which a player of the given speed follows `direction`:
/// along it at that speed, or zero where the direction is.
pub open spec fn pace(direction: Vec2, speed: u32) -> Vec2 {
    match heading(direction.x as int, direction.y as int, speed as int) {
        Some(velocity) => velocity,
        None => Vec2 { x: 0, y: 0 },
    }
}

/// Whether `o` stands in the way of `player` along x: it does when it is a
/// wall or an enemy whose face the player strikes while heading into it.
pub open spec fn bars_x(player: Entity, o: Entity, direction: Vec2) -> bool {
    &&& o.obstructs()
    &&& struck_face(player.position, player.half_extent, o.position, o.half_extent) matches Some(face)
    &&& opposes_x(face, direction)
}

/// Whether `o` stands in the way of `player` along y.
pub open spec fn bars_y(player: Entity, o: Entity, direction: Vec2) -> bool {
    &&& o.obstructs()
    &&& struck_face(player.position, player.half_extent, o.position, o.half_extent) matches Some(face)
    &&& opposes_y(face, direction)
}

/// Whether one of the first `n` entities of `all` stands in the player's
/// way along x.
pub open spec fn barred_x(player: Entity, all: Seq<Entity>, direction: Vec2, n: int) -> bool {
    exists|j: int| 0 <= j < n && j < all.len() && bars_x(player, #[trigger] all[j], direction)
}

/// Whether one of the first `n` entities of `all` stands in the player's
/// way along y.
pub open spec fn barred_y(player: Entity, all: Seq<Entity>, direction: Vec2, n: int) -> bool {
    exists|j: int| 0 <= j < n && j < all.len() && bars_y(player, #[trigger] all[j], direction)
}

/// Where the player stands after a step of `micros` microseconds with
/// these keys pressed, among the entities `all`: it moves along each axis
/// on which nothing stands in its way, and keeps its place on the others.
pub open spec fn walked(player: Entity, all: Seq<Entity>, keys: Keys, micros: u32) -> Entity {
    match player.body {
        Body::Player { speed, .. } => {
            let direction = intended(keys);
            let velocity = pace(direction, speed);
            player.at(
                Vec2 {
                    x: if barred_x(player, all, direction, all.len() as int) {
                        player.position.x
                    } else {
                        moved_coord(player.position.x as int, velocity.x as int, micros as int) as i32
                    },
                    y: if barred_y(player, all, direction, all.len() as int) {
                        player.position.y
                    } else {
                        moved_coord(player.position.y as int, velocity.y as int, micros as int) as i32
                    },
                },
            )
        },
        _ => player,
    }
}

/// The store after the player's movement; unchanged where no player lives.
pub open spec fn after_walk(v: StoreView, keys: Keys, micros: u32) -> StoreView {
    match player_index(v.live) {
        Some(p) => v.with_entity(p, walked(v.live[p], v.live, keys, micros)),
        None => v,
    }
}

/// Moves the player as the pressed keys ask, for `micros` microseconds,
/// except along the axes on which a wall or an enemy stands in its way.
pub fn move_player(store: &mut EntityStore, keys: &Keys, micros: u32)
    requires
        old(store)@.wf(),
    ensures
        final(store)@ == after_walk(old(store)@, *keys, micros),
        final(store)@.wf(),
{
    let ghost before = store@;
    let found = store.find_player();
    if let Some(p) = found {
        let player = store.get(p);
        if let Body::Player { speed, .. } = player.body {
            let direction = input_direction(keys);
            let velocity = match velocity_along(direction, speed) {
                Some(v) => v,
                None => Vec2 { x: 0, y: 0 },
            };
            let n = store.len();
            let mut stop_x = false;
            let mut stop_y = false;
            let mut j: usize = 0;
            while j < n
                invariant
                    j <= n,
                    n == store@.live.len(),
                    store@ == before,
                    stop_x == barred_x(player, before.live, direction, j as int),
                    stop_y == barred_y(player, before.live, direction, j as int),
                decreases n - j,
            {
                let other = store.get(j);
                if other.obstruction() {
                    if let Some(face) = probe(
                        player.position,
                        player.half_extent,
                        other.position,
                        other.half_extent,
                    ) {
                        let against = opposition(face, direction);
                        stop_x = stop_x || against.0;
                        stop_y = stop_y || against.1;
                    }
                }
                proof {
                    assert(barred_x(player, before.live, direction, j + 1) == (barred_x(
                        player,
                        before.live,
                        direction,
                        j as int,
                    ) || bars_x(player, before.live[j as int], direction)));
                    assert(barred_y(player, before.live, direction, j + 1) == (barred_y(
                        player,
                        before.live,
                        direction,
                        j as int,
                    ) || bars_y(player, before.live[j as int], direction)));
                }
                j += 1;
            }
            let x = if stop_x {
                player.position.x
            } else {
                advance_coord(player.position.x, velocity.x, micros)
            };
            let y = if stop_y {
                player.position.y
            } else {
                advance_coord(player.position.y, velocity.y, micros)
            };
            proof {
                assert(before.all()[p as int] == player);
            }
            store.replace(p, player.moved_to(Vec2 { x, y }));
        }
    }
}

/// The player cannot move into an obstacle whose face it strikes: along an
/// axis on which an obstacle stands in its way, it keeps its coordinate.
pub proof fn lemma_barred_axis_holds(player: Entity, all: Seq<Entity>, keys: Keys, micros: u32, j: int)
    requires
        player.is_player(),
        0 <= j < all.len(),
    ensures
        bars_x(player, all[j], intended(keys)) ==> walked(player, all, keys, micros).position.x
            == player.position.x,
        bars_y(player, all[j], intended(keys)) ==> walked(player, all, keys, micros).position.y
            == player.position.y,
{
    if bars_x(player, all[j], intended(keys)) {
        assert(barred_x(player, all, intended(keys), all.len() as int));
    }
    if bars_y(player, all[j], intended(keys)) {
        assert(barred_y(player, all, intended(keys), all.len() as int));
    }
}

/// Along an axis on which nothing stands in its way the player moves on,
/// whatever bars the other axis: it slides along an obstacle.
pub proof fn lemma_free_axis_moves(player: Entity, all: Seq<Entity>, keys: Keys, micros: u32)
    requires
        player.body is Player,
    ensures
        !barred_x(player, all, intended(keys), all.len() as int) ==> walked(
            player,
            all,
            keys,
            micros,
        ).position.x == moved_coord(
            player.position.x as int,
            pace(intended(keys), player.body->speed).x as int,
            micros as int,
        ),
        !barred_y(player, all, intended(keys), all.len() as int) ==> walked(
            player,
            all,
            keys,
            micros,
        ).position.y == moved_coord(
            player.position.y as int,
            pace(intended(keys), player.body->speed).y as int,
            micros as int,
        ),
{
}

/// The player is never faster than its speed, whichever keys are pressed.
pub proof fn lemma_pace_within_speed(keys: Keys, speed: u32)
    requires
        speed <= i32::MAX,
    ensures
        pace(intended(keys), speed).x * pace(intended(keys), speed).x + pace(intended(keys), speed).y * pace(
            intended(keys),
            speed,
        ).y <= speed * speed,
{
    let direction = intended(keys);
    if direction.x != 0 || direction.y != 0 {
        lemma_heading_no_faster(direction.x as int, direction.y as int, speed as int);
    } else {
        assert(0 <= speed * speed) by (nonlinear_arith);
    }
}

/// Walking changes the place of the player and nothing else about it.
pub proof fn lemma_walk_changes_place_only(player: Entity, all: Seq<Entity>, keys: Keys, micros: u32)
    ensures
        walked(player, all, keys, micros) == player.at(walked(player, all, keys, micros).position),
{
}

} // verus!
