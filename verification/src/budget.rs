//! The firing budget holds: no actor ever has more projectiles live than its
//! budget allows.
//!
//! An actor fires at most once in a step, and only while it has fewer
//! projectiles live than its budget. Flight and collisions never add a
//! projectile, and a commit only removes some. So the play of one step keeps
//! every actor within its budget, which is what this module proves.

use vstd::prelude::*;
use crate::arena::Arena;
use crate::entity::{Entity, EntityId};
use crate::firing::{after_enemy_fire, after_player_fire, may_fire};
use crate::impact::after_collisions;
use crate::level::{after_setup, lemma_setup_creates_no_projectiles, Placement};
use crate::movement::after_walk;
use crate::projectile::{after_cleanup, after_flight, after_shot};
use crate::store::{
    distinct_ids, lemma_teardown_leaves_nothing, owned_count, player_index, StoreView,
};
use crate::vector::Vec2;
use crate::world::{played, populated, rebuilt, Input};

verus! {

/// Every actor in `s` has at most as many projectiles in `s` as its budget
/// allows.
pub open spec fn within_budget(s: Seq<Entity>) -> bool {
    forall|i: int|
        0 <= i < s.len() && (#[trigger] s[i]).is_actor() ==> owned_count(s, s[i].id) <= s[i].firing_budget()
}

/// The count over two sequences joined is the sum of the counts.
proof fn lemma_count_joined(a: Seq<Entity>, b: Seq<Entity>, owner: EntityId)
    ensures
        owned_count(a + b, owner) == owned_count(a, owner) + owned_count(b, owner),
{
    let fired = |e: Entity| e.fired_by(owner);
    Seq::filter_distributes_over_add(a, b, fired);
}

/// One more entity adds one to the count if the owner has fired it, and
/// nothing otherwise.
proof fn lemma_count_pushed(s: Seq<Entity>, e: Entity, owner: EntityId)
    ensures
        owned_count(s.push(e), owner) == owned_count(s, owner) + if e.fired_by(owner) {
            1nat
        } else {
            0nat
        },
{
    let fired = |e: Entity| e.fired_by(owner);
    s.lemma_filter_push(e, fired);
}

/// Nothing is counted in an empty sequence.
proof fn lemma_count_of_none(owner: EntityId)
    ensures
        owned_count(Seq::<Entity>::empty(), owner) == 0,
{
    let fired = |e: Entity| e.fired_by(owner);
    Seq::<Entity>::empty().lemma_filter_len(fired);
}

/// Leaving entities out does not raise the count.
proof fn lemma_count_of_fewer(s: Seq<Entity>, keep: spec_fn(Entity) -> bool, owner: EntityId)
    ensures
        owned_count(s.filter(keep), owner) <= owned_count(s, owner),
    decreases s.len(),
{
    if s.len() == 0 {
        s.lemma_filter_len(keep);
        assert(s.filter(keep) =~= s);
    } else {
        let shorter = s.drop_last();
        lemma_count_of_fewer(shorter, keep, owner);
        shorter.lemma_filter_push(s.last(), keep);
        assert(shorter.push(s.last()) =~= s);
        lemma_count_pushed(shorter, s.last(), owner);
        if keep(s.last()) {
            lemma_count_pushed(shorter.filter(keep), s.last(), owner);
        }
    }
}

/// Sequences whose entities agree on who fired them have the same count.
proof fn lemma_count_of_like(a: Seq<Entity>, b: Seq<Entity>, owner: EntityId)
    requires
        a.len() == b.len(),
        forall|i: int| 0 <= i < a.len() ==> (#[trigger] a[i]).fired_by(owner) == b[i].fired_by(owner),
    ensures
        owned_count(a, owner) == owned_count(b, owner),
    decreases a.len(),
{
    if a.len() == 0 {
        assert(a =~= b);
    } else {
        let shorter_a = a.drop_last();
        let shorter_b = b.drop_last();
        assert forall|i: int| 0 <= i < shorter_a.len() implies (#[trigger] shorter_a[i]).fired_by(owner)
            == shorter_b[i].fired_by(owner) by {
            assert(a[i].fired_by(owner) == b[i].fired_by(owner));
        }
        lemma_count_of_like(shorter_a, shorter_b, owner);
        assert(shorter_a.push(a.last()) =~= a);
        assert(shorter_b.push(b.last()) =~= b);
        lemma_count_pushed(shorter_a, a.last(), owner);
        lemma_count_pushed(shorter_b, b.last(), owner);
        assert(a[a.len() - 1].fired_by(owner) == b[a.len() - 1].fired_by(owner));
    }
}

/// Two sequences hold the same crew when they are equally long and, place
/// by place, the identities agree, an actor is the same actor, and a
/// projectile is a projectile of the same owner.
spec fn same_crew(a: Seq<Entity>, b: Seq<Entity>) -> bool {
    &&& a.len() == b.len()
    &&& forall|i: int|
        0 <= i < a.len() ==> {
            &&& (#[trigger] a[i]).id == b[i].id
            &&& a[i].is_actor() == b[i].is_actor()
            &&& a[i].is_actor() ==> a[i].body == b[i].body
            &&& a[i].is_projectile() == b[i].is_projectile()
            &&& a[i].is_projectile() ==> a[i].body->owner == b[i].body->owner
        }
}

/// The same crew has the same counts.
proof fn lemma_same_crew_same_count(a: Seq<Entity>, b: Seq<Entity>, owner: EntityId)
    requires
        same_crew(a, b),
    ensures
        owned_count(a, owner) == owned_count(b, owner),
{
    assert forall|i: int| 0 <= i < a.len() implies (#[trigger] a[i]).fired_by(owner) == b[i].fired_by(
        owner,
    ) by {
        assert(a[i].id == b[i].id);
    }
    lemma_count_of_like(a, b, owner);
}

/// Movement, flight and collisions change neither who the actors are nor
/// whose the projectiles are.
proof fn lemma_collided_crew(v: StoreView, arena: Arena, input: Input, micros: u32)
    ensures
        same_crew(
            after_collisions(
                after_cleanup(after_flight(after_walk(v, input.keys, micros), micros), arena),
            ).live,
            v.live,
        ),
{
    let walked = after_walk(v, input.keys, micros);
    assert(same_crew(walked.live, v.live));
    let flown = after_flight(walked, micros);
    assert(same_crew(flown.live, v.live)) by {
        assert forall|i: int| 0 <= i < flown.live.len() implies (#[trigger] flown.live[i]).id == v.live[i].id
            && flown.live[i].body == walked.live[i].body by {}
    }
    let cleaned = after_cleanup(flown, arena);
    let collided = after_collisions(cleaned);
    assert(same_crew(collided.live, v.live)) by {
        assert forall|i: int| 0 <= i < collided.live.len() implies {
            &&& (#[trigger] collided.live[i]).id == v.live[i].id
            &&& collided.live[i].is_projectile() == flown.live[i].is_projectile()
            &&& !flown.live[i].is_projectile() ==> collided.live[i] == flown.live[i]
            &&& flown.live[i].is_projectile() ==> collided.live[i].body->owner == flown.live[i].body->owner
        } by {}
    }
}

/// Whether the entity at place `j` may have fired by the time the first
/// `n` entities had their turn: the player has its turn before them all.
spec fn has_fired(live: Seq<Entity>, n: int, j: int) -> bool {
    &&& 0 <= j < live.len()
    &&& live[j].is_actor()
    &&& may_fire(live, live[j])
    &&& live[j].is_player() || j < n
}

/// Whoever fired, fired once: everything in `spawned` is a projectile, no
/// owner has more than one in it, and each owner is an actor that had its
/// turn and was within its budget.
spec fn one_shot_each(live: Seq<Entity>, spawned: Seq<Entity>, n: int) -> bool {
    &&& forall|k: int| 0 <= k < spawned.len() ==> (#[trigger] spawned[k]).is_projectile()
    &&& forall|owner: EntityId| #[trigger] owned_count(spawned, owner) <= 1
    &&& forall|owner: EntityId| #[trigger]
        owned_count(spawned, owner) >= 1 ==> exists|j: int| #[trigger]
            has_fired(live, n, j) && live[j].id == owner
}

/// A shot adds at most one projectile, and it is the shooter's.
proof fn lemma_shot_adds_one(v: StoreView, shooter: EntityId, from: Vec2, target: Vec2, owner: EntityId)
    ensures
        after_shot(v, shooter, from, target).live == v.live,
        after_shot(v, shooter, from, target).spawned == v.spawned || (exists|e: Entity|
            e.fired_by(shooter) && e.is_projectile() && #[trigger] v.spawned.push(e) == after_shot(
                v,
                shooter,
                from,
                target,
            ).spawned),
        owned_count(after_shot(v, shooter, from, target).spawned, owner) <= owned_count(
            v.spawned,
            owner,
        ) + if owner == shooter {
            1nat
        } else {
            0nat
        },
        owned_count(after_shot(v, shooter, from, target).spawned, owner) >= owned_count(v.spawned, owner),
{
    let after = after_shot(v, shooter, from, target);
    if after.spawned != v.spawned {
        let e = after.spawned.last();
        assert(after.spawned == v.spawned.push(e));
        lemma_count_pushed(v.spawned, e, owner);
    }
}

/// After the player's turn whoever fired, fired once.
proof fn lemma_player_shot(v: StoreView, trigger: bool, cursor: Vec2)
    requires
        v.spawned == Seq::<Entity>::empty(),
    ensures
        one_shot_each(v.live, after_player_fire(v, trigger, cursor).spawned, 0),
        after_player_fire(v, trigger, cursor).live == v.live,
{
    let fired = after_player_fire(v, trigger, cursor);
    assert forall|owner: EntityId| #[trigger] owned_count(fired.spawned, owner) <= 1 && (owned_count(
        fired.spawned,
        owner,
    ) >= 1 ==> exists|j: int| #[trigger] has_fired(v.live, 0, j) && v.live[j].id == owner) by {
        lemma_count_of_none(owner);
        match player_index(v.live) {
            Some(p) => {
                if trigger && may_fire(v.live, v.live[p]) {
                    lemma_shot_adds_one(v, v.live[p].id, v.live[p].position, cursor, owner);
                    if owned_count(fired.spawned, owner) >= 1 {
                        assert(has_fired(v.live, 0, p));
                    }
                }
            },
            None => {},
        }
    }
    match player_index(v.live) {
        Some(p) => {
            if trigger && may_fire(v.live, v.live[p]) {
                lemma_shot_adds_one(v, v.live[p].id, v.live[p].position, cursor, v.live[p].id);
            }
        },
        None => {},
    }
}

/// After the enemies' turns whoever fired, fired once.
proof fn lemma_enemy_shots(v: StoreView, n: int)
    requires
        0 <= n <= v.live.len(),
        distinct_ids(v.live),
        one_shot_each(v.live, v.spawned, 0),
    ensures
        one_shot_each(v.live, after_enemy_fire(v, n).spawned, n),
        after_enemy_fire(v, n).live == v.live,
    decreases n,
{
    if n > 0 {
        lemma_enemy_shots(v, n - 1);
        let earlier = after_enemy_fire(v, n - 1);
        let later = after_enemy_fire(v, n);
        let enemy = v.live[n - 1];
        let fires = player_index(v.live) is Some && enemy.is_enemy() && may_fire(v.live, enemy);
        if fires {
            let target = v.live[player_index(v.live).unwrap()].position;
            lemma_shot_adds_one(earlier, enemy.id, enemy.position, target, enemy.id);
            assert forall|owner: EntityId| #[trigger] owned_count(later.spawned, owner) <= 1 && (owned_count(
                later.spawned,
                owner,
            ) >= 1 ==> exists|j: int| #[trigger] has_fired(v.live, n, j) && v.live[j].id == owner) by {
                lemma_shot_adds_one(earlier, enemy.id, enemy.position, target, owner);
                if owned_count(earlier.spawned, owner) >= 1 {
                    let j = choose|j: int| #[trigger] has_fired(v.live, n - 1, j) && v.live[j].id == owner;
                    assert(has_fired(v.live, n, j));
                    if owner == enemy.id {
                        // the enemy would have fired before its turn
                        assert(v.live[j].id == v.live[n - 1].id);
                        assert(j == n - 1);
                    }
                } else if owned_count(later.spawned, owner) >= 1 {
                    assert(has_fired(v.live, n, n - 1));
                }
            }
        } else {
            assert(later == earlier);
            assert forall|owner: EntityId| #[trigger]
                owned_count(later.spawned, owner) >= 1 implies exists|j: int| #[trigger]
                has_fired(v.live, n, j) && v.live[j].id == owner by {
                let j = choose|j: int| #[trigger] has_fired(v.live, n - 1, j) && v.live[j].id == owner;
                assert(has_fired(v.live, n, j));
            }
        }
    } else {
        assert forall|owner: EntityId| #[trigger]
            owned_count(v.spawned, owner) >= 1 implies exists|j: int| #[trigger]
            has_fired(v.live, n, j) && v.live[j].id == owner by {
            let j = choose|j: int| #[trigger] has_fired(v.live, 0, j) && v.live[j].id == owner;
            assert(has_fired(v.live, n, j));
        }
    }
}

/// Nothing is counted where there is no projectile.
proof fn lemma_count_without_projectiles(s: Seq<Entity>, owner: EntityId)
    requires
        forall|i: int| 0 <= i < s.len() ==> !(#[trigger] s[i]).is_projectile(),
    ensures
        owned_count(s, owner) == 0,
    decreases s.len(),
{
    if s.len() == 0 {
        assert(s =~= Seq::<Entity>::empty());
        lemma_count_of_none(owner);
    } else {
        let shorter = s.drop_last();
        assert forall|i: int| 0 <= i < shorter.len() implies !(#[trigger] shorter[i]).is_projectile() by {
            assert(!s[i].is_projectile());
        }
        lemma_count_without_projectiles(shorter, owner);
        assert(shorter.push(s.last()) =~= s);
        lemma_count_pushed(shorter, s.last(), owner);
        assert(!s[s.len() - 1].is_projectile());
    }
}

/// A step of play keeps every actor within its budget: the actors that
/// are live after the commit have no more projectiles live than their
/// budgets allow.
pub proof fn lemma_play_keeps_budgets(v: StoreView, arena: Arena, input: Input, cursor: Vec2, micros: u32)
    requires
        v.wf(),
        v.is_settled(),
        within_budget(v.live),
    ensures
        within_budget(played(v, arena, input, cursor, micros).committed().live),
{
    let collided = after_collisions(
        after_cleanup(after_flight(after_walk(v, input.keys, micros), micros), arena),
    );
    lemma_collided_crew(v, arena, input, micros);
    let live = collided.live;
    assert(v.all() =~= v.live);
    assert(distinct_ids(live)) by {
        assert forall|a: int, b: int| 0 <= a < live.len() && 0 <= b < live.len() && a != b implies (
        #[trigger] live[a]).id != (#[trigger] live[b]).id by {
            assert(v.live[a].id != v.live[b].id);
        }
    }
    let fired = after_player_fire(collided, input.fire, cursor);
    lemma_player_shot(collided, input.fire, cursor);
    let run = played(v, arena, input, cursor, micros);
    lemma_enemy_shots(fired, fired.live.len() as int);
    assert(run.live == live);
    let stays = |e: Entity| !run.doomed.contains(e.id);
    let survivors = live.filter(stays);
    let after = run.committed().live;
    assert(after == survivors + run.spawned);
    assert forall|k: int| 0 <= k < after.len() && (#[trigger] after[k]).is_actor() implies owned_count(
        after,
        after[k].id,
    ) <= after[k].firing_budget() by {
        let actor = after[k];
        if k >= survivors.len() {
            assert(run.spawned[k - survivors.len()].is_projectile());
        } else {
            assert(survivors[k] == actor);
            assert(survivors.contains(actor));
            live.lemma_filter_contains_rev(stays, actor);
            let i = choose|i: int| 0 <= i < live.len() && live[i] == actor;
            assert(live[i].id == v.live[i].id);
            assert(v.live[i].is_actor());
            lemma_count_joined(survivors, run.spawned, actor.id);
            lemma_count_of_fewer(live, stays, actor.id);
            lemma_same_crew_same_count(live, v.live, actor.id);
            if owned_count(run.spawned, actor.id) >= 1 {
                let j = choose|j: int| #[trigger]
                    has_fired(live, live.len() as int, j) && live[j].id == actor.id;
                assert(j == i);
            }
        }
    }
}

/// A level that was just set up has every actor within its budget, since
/// it has no projectile yet.
pub proof fn lemma_fresh_level_within_budget(v: StoreView, placements: Seq<Placement>)
    requires
        v.live == Seq::<Entity>::empty(),
        v.is_settled(),
    ensures
        within_budget(populated(v, placements).live),
        forall|i: int|
            0 <= i < populated(v, placements).live.len() ==> !(#[trigger] populated(
                v,
                placements,
            ).live[i]).is_projectile(),
{
    let asked = after_setup(v, placements, placements.len() as int);
    lemma_setup_creates_no_projectiles(v, placements, placements.len() as int);
    let stays = |e: Entity| !asked.doomed.contains(e.id);
    asked.live.lemma_filter_len(stays);
    let after = populated(v, placements).live;
    assert(after =~= asked.spawned);
    assert forall|i: int| 0 <= i < after.len() && (#[trigger] after[i]).is_actor() implies owned_count(
        after,
        after[i].id,
    ) <= after[i].firing_budget() by {
        lemma_count_without_projectiles(after, after[i].id);
    }
}

/// A world that resumes play starts its level with every actor within its
/// budget.
pub proof fn lemma_rebuilt_within_budget(v: StoreView, placements: Seq<Placement>)
    ensures
        within_budget(rebuilt(v, placements).live),
{
    lemma_teardown_leaves_nothing(v);
    lemma_fresh_level_within_budget(v.torn_down().committed(), placements);
}

} // verus!
