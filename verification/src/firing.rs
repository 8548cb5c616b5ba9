//! Who fires, and when: the player on request, and every enemy as often as
//! its budget allows.

use vstd::prelude::*;
use crate::entity::Entity;
use crate::projectile::{after_shot, fire};
use crate::store::{owned_count, player_index, EntityStore, StoreView};
use crate::vector::Vec2;

verus! {

/// Whether `shooter` may fire: it may while fewer of its projectiles are
/// among `all` than its budget allows.
pub open spec fn may_fire(all: Seq<Entity>, shooter: Entity) -> bool {
    owned_count(all, shooter.id) < shooter.firing_budget()
}

/// The store after the player's turn to fire: where firing was asked for,
/// a player lives and its budget allows, it fires at the cursor.
pub open spec fn after_player_fire(v: StoreView, trigger: bool, cursor: Vec2) -> StoreView {
    match player_index(v.live) {
        Some(p) => if trigger && may_fire(v.live, v.live[p]) {
            after_shot(v, v.live[p].id, v.live[p].position, cursor)
        } else {
            v
        },
        None => v,
    }
}

/// Lets the player fire at the cursor, if firing was asked for and its
/// budget allows.
pub fn player_fire(store: &mut EntityStore, trigger: bool, cursor: Vec2)
    requires
        old(store)@.wf(),
    ensures
        final(store)@ == after_player_fire(old(store)@, trigger, cursor),
        final(store)@.wf(),
{
    if !trigger {
        return ;
    }
    if let Some(p) = store.find_player() {
        let player = store.get(p);
        if store.count_owned(player.id) < player.budget() as usize {
            fire(store, player.id, player.position, cursor);
        }
    }
}

/// The store after the first `n` live entities had their turn under the
/// enemies' firing policy: each enemy among them, in order, fires at the
/// player if a player lives and the enemy's budget allows. The budget counts
/// the live projectiles only, not those asked for in this step.
pub open spec fn after_enemy_fire(v: StoreView, n: int) -> StoreView
    decreases n,
{
    if n <= 0 {
        v
    } else {
        let earlier = after_enemy_fire(v, n - 1);
        let enemy = v.live[n - 1];
        match player_index(v.live) {
            Some(p) => if enemy.is_enemy() && may_fire(v.live, enemy) {
                after_shot(earlier, enemy.id, enemy.position, v.live[p].position)
            } else {
                earlier
            },
            None => earlier,
        }
    }
}

/// Lets every enemy fire at the player as far as its budget allows.
pub fn enemies_fire(store: &mut EntityStore)
    requires
        old(store)@.wf(),
    ensures
        final(store)@ == after_enemy_fire(old(store)@, old(store)@.live.len() as int),
        final(store)@.wf(),
        final(store)@.live == old(store)@.live,
        final(store)@.doomed == old(store)@.doomed,
{
    let ghost before = store@;
    let n = store.len();
    let found = store.find_player();
    let mut i: usize = 0;
    while i < n
        invariant
            i <= n,
            n == before.live.len(),
            store@.wf(),
            store@.live == before.live,
            store@.doomed == before.doomed,
            found is Some <==> player_index(before.live) is Some,
            found is Some ==> player_index(before.live) == Some(found.unwrap() as int) && found.unwrap() < n,
            store@ == after_enemy_fire(before, i as int),
        decreases n - i,
    {
        let enemy = store.get(i);
        if let Some(p) = found {
            if enemy.enemy() && store.count_owned(enemy.id) < enemy.budget() as usize {
                let target = store.get(p).position;
                fire(store, enemy.id, enemy.position, target);
            }
        }
        i += 1;
    }
}

/// Firing only asks for projectiles: the live entities and the requests to
/// destroy are as before.
pub proof fn lemma_enemy_fire_keeps_live(v: StoreView, n: int)
    ensures
        after_enemy_fire(v, n).live == v.live,
        after_enemy_fire(v, n).doomed == v.doomed,
    decreases n,
{
    if n > 0 {
        lemma_enemy_fire_keeps_live(v, n - 1);
    }
}

/// Without a player nobody fires.
pub proof fn lemma_no_fire_without_player(v: StoreView, trigger: bool, cursor: Vec2, n: int)
    requires
        player_index(v.live) is None,
    ensures
        after_player_fire(v, trigger, cursor) == v,
        after_enemy_fire(v, n) == v,
    decreases n,
{
    if n > 0 {
        lemma_no_fire_without_player(v, trigger, cursor, n - 1);
    }
}

} // verus!
