//! Projectiles: how they are fired, how they fly, where they leave the
//! field, and what a contact does to them.

use vstd::prelude::*;
use crate::arena::Arena;
use crate::entity::{Body, Entity, EntityId};
use crate::heading::{aimed, lemma_heading_within_speed, velocity_toward};
use crate::store::{EntityStore, StoreView};
use crate::vector::{Extent, Vec2};

verus! {

/// The speed of every projectile, in milli-units per second.
pub const PROJECTILE_SPEED: u32 = 150000;

/// Half the side of a projectile's box, in milli-units.
pub const PROJECTILE_HALF_SIDE: u32 = 4000;

/// How often a projectile bounces off a wall before a wall destroys it.
pub const RICOCHET_LIMIT: u32 = 1;

/// The box of a projectile.
pub open spec fn projectile_extent() -> Extent {
    Extent { x: PROJECTILE_HALF_SIDE, y: PROJECTILE_HALF_SIDE }
}

/// The body of a projectile that `owner` has just fired with `velocity`.
pub open spec fn fresh_projectile(owner: EntityId, velocity: Vec2) -> Body {
    Body::Projectile { velocity, owner, ricochets: 0, limit: RICOCHET_LIMIT }
}

/// The store after `owner`, standing at `from`, fires at `target`: a
/// projectile is asked for at `from`, flying toward `target`. Nothing is
/// asked for where `target` is `from` itself, since there is no direction to
/// fire in.
pub open spec fn after_shot(v: StoreView, owner: EntityId, from: Vec2, target: Vec2) -> StoreView {
    match aimed(from, target, PROJECTILE_SPEED) {
        Some(velocity) => v.with_spawn(from, projectile_extent(), fresh_projectile(owner, velocity)),
        None => v,
    }
}

/// Fires a projectile for `owner` from `from` toward `target` and returns
/// its identity, or nothing where no projectile was created.
pub fn fire(store: &mut EntityStore, owner: EntityId, from: Vec2, target: Vec2) -> (shot: Option<EntityId>)
    requires
        old(store)@.wf(),
    ensures
        final(store)@ == after_shot(old(store)@, owner, from, target),
        final(store)@.wf(),
        shot is Some <==> from != target && old(store)@.next_id < u64::MAX,
        shot is Some ==> shot == Some(EntityId(old(store)@.next_id as u64)),
        from == target ==> final(store)@ == old(store)@,
{
    match velocity_toward(from, target, PROJECTILE_SPEED) {
        Some(velocity) => {
            proof {
                lemma_heading_within_speed(target.x - from.x, target.y - from.y, PROJECTILE_SPEED as int);
            }
            let body = Body::Projectile { velocity, owner, ricochets: 0, limit: RICOCHET_LIMIT };
            store.request_spawn(from, Extent { x: PROJECTILE_HALF_SIDE, y: PROJECTILE_HALF_SIDE }, body)
        },
        None => None,
    }
}

/// An entity after `micros` microseconds of flight: a projectile has moved
/// along its velocity, anything else is where it was.
pub open spec fn flown(e: Entity, micros: u32) -> Entity {
    match e.body {
        Body::Projectile { velocity, .. } => e.at(e.position.moved(velocity, micros)),
        _ => e,
    }
}

/// The store after every projectile has flown for `micros` microseconds.
pub open spec fn after_flight(v: StoreView, micros: u32) -> StoreView {
    StoreView { live: Seq::new(v.live.len(), |i: int| flown(v.live[i], micros)), ..v }
}

/// Moves every live projectile along its velocity for `micros` microseconds.
pub fn advance_projectiles(store: &mut EntityStore, micros: u32)
    requires
        old(store)@.wf(),
    ensures
        final(store)@ == after_flight(old(store)@, micros),
        final(store)@.wf(),
{
    let ghost before = store@;
    let n = store.len();
    let mut i: usize = 0;
    while i < n
        invariant
            i <= n,
            n == before.live.len(),
            store@.wf(),
            store@.spawned == before.spawned,
            store@.doomed == before.doomed,
            store@.next_id == before.next_id,
            store@.live.len() == n,
            forall|k: int| 0 <= k < i ==> store@.live[k] == flown(#[trigger] before.live[k], micros),
            forall|k: int| i <= k < n ==> store@.live[k] == #[trigger] before.live[k],
        decreases n - i,
    {
        let e = store.get(i);
        if let Body::Projectile { velocity, .. } = e.body {
            proof {
                assert(store@.all()[i as int] == e);
            }
            store.replace(i, e.moved_to(e.position.advance(velocity, micros)));
        }
        i += 1;
    }
    assert(store@.live =~= after_flight(before, micros).live);
}

/// Whether the entity is a projectile that has left the field.
pub open spec fn strayed(e: Entity, arena: Arena) -> bool {
    e.is_projectile() && arena.excludes(e.position)
}

/// The identities of the projectiles among the first `n` entities of `s`
/// that have left the field.
pub open spec fn strays(s: Seq<Entity>, arena: Arena, n: int) -> Set<EntityId> {
    Set::new(
        |id: EntityId|
            exists|i: int| 0 <= i < n && i < s.len() && strayed(#[trigger] s[i], arena) && s[i].id == id,
    )
}

/// The store after every projectile that has left the field was marked for
/// destruction.
pub open spec fn after_cleanup(v: StoreView, arena: Arena) -> StoreView {
    StoreView { doomed: v.doomed.union(strays(v.live, arena, v.live.len() as int)), ..v }
}

/// Asks for the destruction of every live projectile that has left the
/// field.
pub fn remove_strays(store: &mut EntityStore, arena: &Arena)
    requires
        old(store)@.wf(),
    ensures
        final(store)@ == after_cleanup(old(store)@, *arena),
        final(store)@.wf(),
{
    let ghost before = store@;
    let n = store.len();
    let mut i: usize = 0;
    assert(before.doomed.union(strays(before.live, *arena, 0)) =~= before.doomed);
    while i < n
        invariant
            i <= n,
            n == before.live.len(),
            store@.wf(),
            store@ == (StoreView {
                doomed: before.doomed.union(strays(before.live, *arena, i as int)),
                ..before
            }),
        decreases n - i,
    {
        let e = store.get(i);
        if e.projectile() && arena.is_outside(e.position) {
            store.request_despawn(e.id);
            assert(before.doomed.union(strays(before.live, *arena, i as int)).insert(e.id)
                =~= before.doomed.union(strays(before.live, *arena, i + 1))) by {
                assert(strayed(before.live[i as int], *arena));
            }
        } else {
            assert(before.doomed.union(strays(before.live, *arena, i as int)) =~= before.doomed.union(
                strays(before.live, *arena, i + 1),
            ));
        }
        i += 1;
    }
}

/// Firing at the own position creates nothing: the store is as before, and
/// no identity is used up.
pub proof fn lemma_no_shot_without_aim(v: StoreView, owner: EntityId, place: Vec2)
    ensures
        after_shot(v, owner, place, place) == v,
{
}

/// A shot only asks for a projectile: the live entities are as before.
pub proof fn lemma_shot_keeps_live(v: StoreView, owner: EntityId, from: Vec2, target: Vec2)
    ensures
        after_shot(v, owner, from, target).live == v.live,
        after_shot(v, owner, from, target).doomed == v.doomed,
{
}

} // verus!
