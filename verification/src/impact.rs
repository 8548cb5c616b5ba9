//! What projectiles do to what they run into, and what it does to them.
//!
//! Every projectile is tried once per step against every live entity, as
//! the entities stand when the trial begins. A projectile destroys any
//! other projectile it overlaps; it destroys an actor it overlaps, and
//! itself with it, unless the actor is spared; and walls turn it back or,
//! when it has no bounce left, destroy it. Destruction is only asked for:
//! everything stays in place until the store commits.

use vstd::prelude::*;
use crate::collision::{opposes_x, opposes_y, opposition, overlaps, probe, struck_face};
use crate::entity::{Body, Entity, EntityId};
use crate::ricochet::{is_spared, rebound, rebound_of, spares, Rebound};
use crate::store::{distinct_ids, EntityStore, StoreView};

verus! {

/// Whether the boxes of two entities overlap.
pub open spec fn touches(a: Entity, b: Entity) -> bool {
    overlaps(a.position, a.half_extent, b.position, b.half_extent)
}

/// Whether `w` is a wall that turns the projectile `p` back along x.
pub open spec fn wall_turns_x(p: Entity, w: Entity) -> bool {
    &&& w.is_wall()
    &&& p.body matches Body::Projectile { velocity, .. }
    &&& struck_face(p.position, p.half_extent, w.position, w.half_extent) matches Some(face)
    &&& opposes_x(face, velocity)
}

/// Whether `w` is a wall that turns the projectile `p` back along y.
pub open spec fn wall_turns_y(p: Entity, w: Entity) -> bool {
    &&& w.is_wall()
    &&& p.body matches Body::Projectile { velocity, .. }
    &&& struck_face(p.position, p.half_extent, w.position, w.half_extent) matches Some(face)
    &&& opposes_y(face, velocity)
}

/// Whether a wall among the first `n` entities of `all` turns `p` back along x.
pub open spec fn turned_x(p: Entity, all: Seq<Entity>, n: int) -> bool {
    exists|j: int| 0 <= j < n && j < all.len() && wall_turns_x(p, #[trigger] all[j])
}

/// Whether a wall among the first `n` entities of `all` turns `p` back along y.
pub open spec fn turned_y(p: Entity, all: Seq<Entity>, n: int) -> bool {
    exists|j: int| 0 <= j < n && j < all.len() && wall_turns_y(p, #[trigger] all[j])
}

/// Whether the projectile `p` harms `a`: it does when `a` is an actor that
/// it overlaps and does not spare.
pub open spec fn harms(p: Entity, a: Entity) -> bool {
    &&& a.is_actor()
    &&& touches(p, a)
    &&& p.body matches Body::Projectile { owner, ricochets, .. }
    &&& !spares(owner, ricochets, a.id)
}

/// Whether the projectile `p` harms an actor among the first `n` entities
/// of `all`.
pub open spec fn harms_any(p: Entity, all: Seq<Entity>, n: int) -> bool {
    exists|j: int| 0 <= j < n && j < all.len() && harms(p, #[trigger] all[j])
}

/// Whether the projectile at place `i` destroys the entity at place `j`:
/// an actor that it harms, or another projectile that it overlaps.
pub open spec fn fells(all: Seq<Entity>, i: int, j: int) -> bool {
    harms(all[i], all[j]) || (i != j && all[j].is_projectile() && touches(all[i], all[j]))
}

/// What the walls in `all` do to `p` in this step.
pub open spec fn wall_rebound(p: Entity, all: Seq<Entity>) -> Rebound {
    match p.body {
        Body::Projectile { velocity, ricochets, limit, .. } => rebound(
            velocity,
            ricochets,
            limit,
            turned_x(p, all, all.len() as int),
            turned_y(p, all, all.len() as int),
        ),
        _ => Rebound::Untouched,
    }
}

/// Whether the projectile at place `i` is destroyed by what it runs into:
/// an actor that it harms, or a wall when it has no bounce left.
pub open spec fn perishes(all: Seq<Entity>, i: int) -> bool {
    harms_any(all[i], all, all.len() as int) || wall_rebound(all[i], all) == Rebound::Spent
}

/// The entity at place `i` after the trial: a projectile that bounced has
/// its new velocity and count, everything else is as it was.
pub open spec fn settled(all: Seq<Entity>, i: int) -> Entity {
    match (all[i].body, wall_rebound(all[i], all)) {
        (Body::Projectile { owner, limit, .. }, Rebound::Bounced { velocity, ricochets }) => Entity {
            body: Body::Projectile { velocity, owner, ricochets, limit },
            ..all[i]
        },
        _ => all[i],
    }
}

/// The identities of those among the first `n` entities of `all` that the
/// projectile at place `i` destroys.
pub open spec fn victims(all: Seq<Entity>, i: int, n: int) -> Set<EntityId> {
    Set::new(
        |id: EntityId|
            exists|j: int|
                0 <= j < n && j < all.len() && #[trigger] fells(all, i, j) && all[j].id == id,
    )
}

/// Every identity whose destruction the projectile at place `i` asks for:
/// its victims, and itself where it perishes.
pub open spec fn toll(all: Seq<Entity>, i: int) -> Set<EntityId> {
    if perishes(all, i) {
        victims(all, i, all.len() as int).insert(all[i].id)
    } else {
        victims(all, i, all.len() as int)
    }
}

/// Every identity whose destruction a projectile among the first `m`
/// entities of `all` asks for.
pub open spec fn casualties(all: Seq<Entity>, m: int) -> Set<EntityId> {
    Set::new(
        |id: EntityId|
            exists|i: int|
                0 <= i < m && i < all.len() && (#[trigger] all[i]).is_projectile() && toll(
                    all,
                    i,
                ).contains(id),
    )
}

/// The store after the projectiles were tried against everything live.
pub open spec fn after_collisions(v: StoreView) -> StoreView {
    StoreView {
        live: Seq::new(v.live.len(), |i: int| settled(v.live, i)),
        doomed: v.doomed.union(casualties(v.live, v.live.len() as int)),
        ..v
    }
}

/// Tries the projectile at place `i` against every entity of `all`, which
/// holds the live entities as they stood when the trial began.
fn resolve_projectile(store: &mut EntityStore, all: &Vec<Entity>, i: usize)
    requires
        old(store)@.wf(),
        old(store)@.live.len() == all@.len(),
        i < all@.len(),
        all@[i as int].is_projectile(),
        all@[i as int].wf(),
        old(store)@.live[i as int] == all@[i as int],
    ensures
        final(store)@.wf(),
        final(store)@.live == old(store)@.live.update(i as int, settled(all@, i as int)),
        final(store)@.doomed == old(store)@.doomed.union(toll(all@, i as int)),
        final(store)@.spawned == old(store)@.spawned,
        final(store)@.next_id == old(store)@.next_id,
{
    let ghost before = store@;
    let p = all[i];
    let n = all.len();
    if let Body::Projectile { velocity, owner, ricochets, limit } = p.body {
        let mut turn_x = false;
        let mut turn_y = false;
        let mut harmed = false;
        let mut j: usize = 0;
        assert(before.doomed.union(victims(all@, i as int, 0)) =~= before.doomed);
        while j < n
            invariant
                j <= n,
                n == all@.len(),
                i < n,
                p == all@[i as int],
                p.body == (Body::Projectile { velocity, owner, ricochets, limit }),
                turn_x == turned_x(p, all@, j as int),
                turn_y == turned_y(p, all@, j as int),
                harmed == harms_any(p, all@, j as int),
                store@.wf(),
                store@.live == before.live,
                store@.spawned == before.spawned,
                store@.next_id == before.next_id,
                store@.doomed == before.doomed.union(victims(all@, i as int, j as int)),
            decreases n - j,
        {
            let other = all[j];
            let ghost reached = victims(all@, i as int, j as int);
            let hit = probe(p.position, p.half_extent, other.position, other.half_extent);
            match hit {
                Some(face) => {
                    match other.body {
                        Body::Projectile { .. } => {
                            if j != i {
                                store.request_despawn(other.id);
                            }
                        },
                        Body::Wall => {
                            let turned = opposition(face, velocity);
                            turn_x = turn_x || turned.0;
                            turn_y = turn_y || turned.1;
                        },
                        _ => {
                            if !is_spared(owner, ricochets, other.id) {
                                harmed = true;
                                store.request_despawn(other.id);
                            }
                        },
                    }
                },
                None => {},
            }
            proof {
                let next = victims(all@, i as int, j + 1);
                if fells(all@, i as int, j as int) {
                    assert(reached.insert(other.id) =~= next);
                    assert(before.doomed.union(reached).insert(other.id) =~= before.doomed.union(next));
                } else {
                    assert(reached =~= next);
                }
                assert(turned_x(p, all@, j + 1) == (turned_x(p, all@, j as int) || wall_turns_x(
                    p,
                    all@[j as int],
                )));
                assert(turned_y(p, all@, j + 1) == (turned_y(p, all@, j as int) || wall_turns_y(
                    p,
                    all@[j as int],
                )));
                assert(harms_any(p, all@, j + 1) == (harms_any(p, all@, j as int) || harms(
                    p,
                    all@[j as int],
                )));
            }
            j += 1;
        }
        let ghost reached = victims(all@, i as int, n as int);
        let outcome = rebound_of(velocity, ricochets, limit, turn_x, turn_y);
        assert(outcome == wall_rebound(p, all@));
        let spent = match outcome {
            Rebound::Spent => true,
            _ => false,
        };
        if harmed || spent {
            store.request_despawn(p.id);
            assert(before.doomed.union(reached).insert(p.id) =~= before.doomed.union(toll(all@, i as int)));
        }
        if let Rebound::Bounced { velocity: turned, ricochets: count } = outcome {
            let later = Entity {
                id: p.id,
                position: p.position,
                half_extent: p.half_extent,
                body: Body::Projectile { velocity: turned, owner, ricochets: count, limit },
            };
            assert(later == settled(all@, i as int));
            store.replace(i, later);
        } else {
            assert(settled(all@, i as int) == p);
            assert(store@.live =~= before.live.update(i as int, p));
        }
    }
}

/// Tries every live projectile against every live entity: asks for the
/// destruction of what is hit and of the projectiles that perish, and turns
/// back the projectiles that bounce off a wall.
pub fn resolve_collisions(store: &mut EntityStore)
    requires
        old(store)@.wf(),
    ensures
        final(store)@ == after_collisions(old(store)@),
        final(store)@.wf(),
{
    let ghost before = store@;
    let all = store.snapshot();
    let n = all.len();
    let mut i: usize = 0;
    assert(before.doomed.union(casualties(all@, 0)) =~= before.doomed);
    while i < n
        invariant
            i <= n,
            n == all@.len(),
            all@ == before.live,
            before.wf(),
            store@.wf(),
            store@.spawned == before.spawned,
            store@.next_id == before.next_id,
            store@.doomed == before.doomed.union(casualties(all@, i as int)),
            store@.live.len() == n,
            forall|k: int| 0 <= k < i ==> #[trigger] store@.live[k] == settled(all@, k),
            forall|k: int| i <= k < n ==> #[trigger] store@.live[k] == all@[k],
        decreases n - i,
    {
        let ghost reached = casualties(all@, i as int);
        if all[i].projectile() {
            proof {
                assert(before.all()[i as int] == all@[i as int]);
            }
            resolve_projectile(store, &all, i);
            assert(reached.union(toll(all@, i as int)) =~= casualties(all@, i + 1));
            assert(before.doomed.union(reached).union(toll(all@, i as int)) =~= before.doomed.union(
                casualties(all@, i + 1),
            ));
        } else {
            assert(reached =~= casualties(all@, i + 1));
            assert(settled(all@, i as int) == all@[i as int]);
        }
        i += 1;
    }
    assert(store@.live =~= after_collisions(before).live);
}

/// A projectile that has not bounced yet does not destroy the one who
/// fired it, however they overlap.
pub proof fn lemma_fresh_projectile_spares_owner(all: Seq<Entity>, i: int, j: int)
    requires
        0 <= i < all.len(),
        0 <= j < all.len(),
        distinct_ids(all),
        all[j].is_actor(),
        all[i].body matches Body::Projectile { owner, ricochets, .. } && owner == all[j].id && ricochets == 0,
    ensures
        !fells(all, i, j),
        !toll(all, i).contains(all[j].id),
{
    assert forall|k: int| 0 <= k < all.len() && fells(all, i, k) implies all[k].id != all[j].id by {
        if k != j {
            assert(all[k].id != all[j].id);
        }
    }
    assert(all[i].id != all[j].id);
}

/// A projectile that has bounced destroys the one who fired it when they
/// overlap, and is destroyed with it.
pub proof fn lemma_bounced_projectile_harms_owner(all: Seq<Entity>, i: int, j: int)
    requires
        0 <= i < all.len(),
        0 <= j < all.len(),
        all[j].is_actor(),
        touches(all[i], all[j]),
        all[i].body matches Body::Projectile { owner, ricochets, .. } && owner == all[j].id && ricochets >= 1,
    ensures
        harms(all[i], all[j]),
        casualties(all, all.len() as int).contains(all[j].id),
        casualties(all, all.len() as int).contains(all[i].id),
{
    lemma_harm_destroys_both(all, i, j);
}

/// A projectile that harms an actor destroys it and is destroyed with it.
pub proof fn lemma_harm_destroys_both(all: Seq<Entity>, i: int, j: int)
    requires
        0 <= i < all.len(),
        0 <= j < all.len(),
        harms(all[i], all[j]),
    ensures
        casualties(all, all.len() as int).contains(all[j].id),
        casualties(all, all.len() as int).contains(all[i].id),
{
    assert(fells(all, i, j));
    assert(victims(all, i, all.len() as int).contains(all[j].id));
    assert(harms_any(all[i], all, all.len() as int));
    assert(toll(all, i).contains(all[j].id));
    assert(toll(all, i).contains(all[i].id));
    assert(all[i].is_projectile());
}

/// Two projectiles that overlap destroy each other.
pub proof fn lemma_projectiles_destroy_each_other(all: Seq<Entity>, i: int, j: int)
    requires
        0 <= i < all.len(),
        0 <= j < all.len(),
        i != j,
        all[i].is_projectile(),
        all[j].is_projectile(),
        touches(all[i], all[j]),
    ensures
        casualties(all, all.len() as int).contains(all[i].id),
        casualties(all, all.len() as int).contains(all[j].id),
{
    crate::collision::lemma_overlap_symmetric(
        all[i].position,
        all[i].half_extent,
        all[j].position,
        all[j].half_extent,
    );
    assert(fells(all, i, j));
    assert(fells(all, j, i));
    assert(toll(all, i).contains(all[j].id));
    assert(toll(all, j).contains(all[i].id));
}

/// A projectile with a bounce left that a wall turns back goes on: the
/// walls do not destroy it, its count rises by exactly one however many
/// walls and axes are involved, and its velocity changes sign along the axes
/// on which it was turned back, and along no other.
pub proof fn lemma_wall_turns_projectile_back(all: Seq<Entity>, i: int, j: int)
    requires
        0 <= i < all.len(),
        0 <= j < all.len(),
        all[i].wf(),
        all[i].body matches Body::Projectile { ricochets, limit, .. } && ricochets < limit,
        wall_turns_x(all[i], all[j]) || wall_turns_y(all[i], all[j]),
    ensures
        wall_rebound(all[i], all) is Bounced,
        settled(all, i).id == all[i].id,
        settled(all, i).position == all[i].position,
        settled(all, i).half_extent == all[i].half_extent,
        settled(all, i).wf(),
        settled(all, i).body matches Body::Projectile { velocity: after, owner, ricochets, limit } && {
            &&& owner == all[i].body->owner
            &&& limit == all[i].body->limit
            &&& ricochets == all[i].body->ricochets + 1
            &&& after.x == if turned_x(all[i], all, all.len() as int) {
                -all[i].body->velocity.x
            } else {
                all[i].body->velocity.x as int
            }
            &&& after.y == if turned_y(all[i], all, all.len() as int) {
                -all[i].body->velocity.y
            } else {
                all[i].body->velocity.y as int
            }
        },
{
    if wall_turns_x(all[i], all[j]) {
        assert(turned_x(all[i], all, all.len() as int));
    } else {
        assert(turned_y(all[i], all, all.len() as int));
    }
}

/// A projectile without a bounce left that a wall turns back is destroyed,
/// and not reflected again.
pub proof fn lemma_wall_destroys_spent_projectile(all: Seq<Entity>, i: int, j: int)
    requires
        0 <= i < all.len(),
        0 <= j < all.len(),
        all[i].body matches Body::Projectile { ricochets, limit, .. } && ricochets >= limit,
        wall_turns_x(all[i], all[j]) || wall_turns_y(all[i], all[j]),
    ensures
        wall_rebound(all[i], all) == Rebound::Spent,
        settled(all, i) == all[i],
        casualties(all, all.len() as int).contains(all[i].id),
{
    if wall_turns_x(all[i], all[j]) {
        assert(turned_x(all[i], all, all.len() as int));
    } else {
        assert(turned_y(all[i], all, all.len() as int));
    }
    assert(perishes(all, i));
    assert(toll(all, i).contains(all[i].id));
    assert(all[i].is_projectile());
}

/// The trial leaves every entity in place: nothing moves, and nothing
/// joins or leaves the live entities.
pub proof fn lemma_collisions_keep_places(v: StoreView, i: int)
    requires
        0 <= i < v.live.len(),
    ensures
        after_collisions(v).live.len() == v.live.len(),
        after_collisions(v).live[i].id == v.live[i].id,
        after_collisions(v).live[i].position == v.live[i].position,
        after_collisions(v).live[i].half_extent == v.live[i].half_extent,
        !v.live[i].is_projectile() ==> after_collisions(v).live[i] == v.live[i],
{
}

} // verus!
