//! The world: everything a game consists of, and the step that advances it.
//!
//! One step runs to its end before the next begins. During play it goes
//! through the player's movement, the flight of the projectiles, the removal
//! of those that left the field, the collisions, the firing and the look at
//! the population, in this order. Creation and destruction asked for on the
//! way take effect together when the step commits, and a change of state
//! that was asked for takes effect after that.

use vstd::prelude::*;
use crate::arena::Arena;
use crate::budget::{
    lemma_fresh_level_within_budget, lemma_play_keeps_budgets, lemma_rebuilt_within_budget, within_budget,
};
use crate::entity::Entity;
use crate::firing::{
    after_enemy_fire, after_player_fire, enemies_fire, lemma_enemy_fire_keeps_live, player_fire,
};
use crate::impact::{
    after_collisions, casualties, fells, lemma_collisions_keep_places, resolve_collisions, toll,
};
use crate::level::{after_setup, set_up, Level, Placement};
use crate::movement::{after_walk, move_player, Keys};
use crate::projectile::{advance_projectiles, after_cleanup, after_flight, remove_strays, strays};
use crate::state::{GameState, GameTimer, Machine, TERMINAL_MICROS};
use crate::store::{
    enemy_count, lemma_same_cast_same_population, player_index, same_cast, EntityStore, StoreView,
};
use crate::vector::Vec2;

verus! {

/// What the player asks for in one step.
#[derive(Clone, Copy, Debug, PartialEq, Eq, Structural)]
pub struct Input {
    /// The direction keys that are held down.
    pub keys: Keys,
    /// Whether firing was asked for in this step.
    pub fire: bool,
    /// Where the pointer is, if that is known.
    pub pointer: Option<Vec2>,
}

/// What a world holds, as plain mathematics.
pub struct WorldView {
    pub store: StoreView,
    pub machine: Machine,
    /// The last known place of the pointer, at which the player aims.
    pub cursor: Vec2,
    pub arena: Arena,
    /// The levels, in the order in which they are played.
    pub levels: Seq<Seq<Placement>>,
    /// The place of the current level among the levels.
    pub level: nat,
}

/// The cursor after the pointer was looked at: the pointer's place where it
/// is known, the last known place otherwise.
pub open spec fn refreshed(cursor: Vec2, pointer: Option<Vec2>) -> Vec2 {
    match pointer {
        Some(place) => place,
        None => cursor,
    }
}

/// The placements of the level at place `level`; none where there is no
/// such level.
pub open spec fn placements_of(levels: Seq<Seq<Placement>>, level: nat) -> Seq<Placement> {
    if level < levels.len() {
        levels[level as int]
    } else {
        Seq::empty()
    }
}

/// The level that follows `level` among `count` levels. The last level
/// follows itself: once the levels are used up, the last is played again.
pub open spec fn next_level(level: nat, count: nat) -> nat {
    if level + 1 < count {
        level + 1
    } else {
        level
    }
}

/// The store with the entities of a level created in it.
pub open spec fn populated(v: StoreView, placements: Seq<Placement>) -> StoreView {
    after_setup(v, placements, placements.len() as int).committed()
}

/// The store with everything in it destroyed and the entities of a level
/// created in their place.
pub open spec fn rebuilt(v: StoreView, placements: Seq<Placement>) -> StoreView {
    populated(v.torn_down().committed(), placements)
}

/// The store after one step of play, before it commits: the player has
/// moved, the projectiles have flown, those that left the field or ran into
/// something are marked, and the player and the enemies have fired.
pub open spec fn played(v: StoreView, arena: Arena, input: Input, cursor: Vec2, micros: u32) -> StoreView {
    let walked = after_walk(v, input.keys, micros);
    let flown = after_flight(walked, micros);
    let cleaned = after_cleanup(flown, arena);
    let collided = after_collisions(cleaned);
    let fired = after_player_fire(collided, input.fire, cursor);
    after_enemy_fire(fired, fired.live.len() as int)
}

impl WorldView {
    /// What holds of every world between steps: the store and the machine
    /// are well formed, nothing is waiting for a commit or to take effect,
    /// and no actor has more projectiles live than its budget allows.
    pub open spec fn wf(self) -> bool {
        &&& self.store.wf()
        &&& self.store.is_settled()
        &&& within_budget(self.store.live)
        &&& self.machine.wf()
        &&& self.machine.pending is None
    }

    /// The world at the start of a game on the given levels.
    pub open spec fn initial(levels: Seq<Seq<Placement>>, arena: Arena) -> WorldView {
        WorldView {
            store: populated(StoreView::empty(), placements_of(levels, 0)),
            machine: Machine::initial(),
            cursor: Vec2 { x: 0, y: 0 },
            arena,
            levels,
            level: 0,
        }
    }

    /// The world after a step of play. The population is looked at as it
    /// stands before the commit, so what was destroyed in this step is
    /// noticed in the next.
    pub open spec fn after_play(self, input: Input, micros: u32) -> WorldView {
        let cursor = refreshed(self.cursor, input.pointer);
        let run = played(self.store, self.arena, input, cursor, micros);
        let machine = self.machine.judged(enemy_count(run.live), player_index(run.live) is Some);
        WorldView { store: run.committed(), machine: machine.settled(), cursor, ..self }
    }

    /// The world after a step in which a win or a loss is shown: only the
    /// timer runs. When it has run out, everything is destroyed, the next
    /// level is set up, and play resumes.
    pub open spec fn after_pause(self, micros: u32) -> WorldView {
        let machine = self.machine.ticked(micros);
        if machine.pending is Some {
            let level = next_level(self.level, self.levels.len());
            WorldView {
                store: rebuilt(self.store, placements_of(self.levels, level)),
                machine: machine.settled(),
                level,
                ..self
            }
        } else {
            WorldView { machine, ..self }
        }
    }

    /// The world after one step of `micros` microseconds.
    pub open spec fn stepped(self, input: Input, micros: u32) -> WorldView {
        if self.machine.state == GameState::Playing {
            self.after_play(input, micros)
        } else {
            self.after_pause(micros)
        }
    }
}

/// A game: its entities, its state, and what the step needs to know.
pub struct World {
    store: EntityStore,
    machine: Machine,
    cursor: Vec2,
    arena: Arena,
    levels: Vec<Level>,
    level: usize,
}

impl View for World {
    type V = WorldView;

    closed spec fn view(&self) -> WorldView {
        WorldView {
            store: self.store@,
            machine: self.machine,
            cursor: self.cursor,
            arena: self.arena,
            levels: Seq::new(self.levels@.len(), |i: int| self.levels@[i]@),
            level: self.level as nat,
        }
    }
}

/// The placements of each level.
pub open spec fn layouts(levels: Seq<Level>) -> Seq<Seq<Placement>> {
    Seq::new(levels.len(), |i: int| levels[i]@)
}

impl World {
    /// Starts a game on the given levels: the first level is set up and
    /// play begins.
    pub fn new(levels: Vec<Level>, arena: Arena) -> (world: World)
        ensures
            world@ == WorldView::initial(layouts(levels@), arena),
            world@.wf(),
    {
        let mut store = EntityStore::new();
        if levels.len() > 0 {
            set_up(&mut store, &levels[0]);
        }
        store.commit();
        proof {
            lemma_fresh_level_within_budget(StoreView::empty(), placements_of(layouts(levels@), 0));
        }
        World { store, machine: Machine::new(), cursor: Vec2 { x: 0, y: 0 }, arena, levels, level: 0 }
    }

    /// Advances the game by one step of `micros` microseconds.
    pub fn step(&mut self, input: &Input, micros: u32)
        requires
            old(self)@.wf(),
        ensures
            final(self)@ == old(self)@.stepped(*input, micros),
            final(self)@.wf(),
    {
        let ghost before = self@;
        match self.machine.state {
            GameState::Playing => {
                if let Some(place) = input.pointer {
                    self.cursor = place;
                }
                proof {
                    lemma_play_keeps_budgets(before.store, before.arena, *input, self.cursor, micros);
                }
                move_player(&mut self.store, &input.keys, micros);
                advance_projectiles(&mut self.store, micros);
                remove_strays(&mut self.store, &self.arena);
                resolve_collisions(&mut self.store);
                player_fire(&mut self.store, input.fire, self.cursor);
                enemies_fire(&mut self.store);
                let enemies = self.store.count_enemies();
                let player_alive = self.store.find_player().is_some();
                self.machine.observe(enemies, player_alive);
                self.store.commit();
                self.machine.settle();
            },
            _ => {
                self.machine.tick(micros);
                if self.machine.pending.is_some() {
                    if self.levels.len() > 0 && self.level < self.levels.len() - 1 {
                        self.level = self.level + 1;
                    }
                    proof {
                        lemma_rebuilt_within_budget(
                            before.store,
                            placements_of(before.levels, self.level as nat),
                        );
                    }
                    self.store.request_teardown();
                    self.store.commit();
                    if self.level < self.levels.len() {
                        set_up(&mut self.store, &self.levels[self.level]);
                    }
                    self.store.commit();
                    self.machine.settle();
                }
            },
        }
    }

    /// The state of the game.
    pub fn state(&self) -> (state: GameState)
        ensures
            state == self@.machine.state,
    {
        self.machine.state
    }

    /// The countdown of a win or a loss; none during play.
    pub fn timer(&self) -> (timer: Option<GameTimer>)
        ensures
            timer == self@.machine.timer,
    {
        self.machine.timer
    }

    /// Whether the sign of a completed mission is to be shown: it is while
    /// the game is in the state of a win.
    pub fn banner_shown(&self) -> (shown: bool)
        ensures
            shown == (self@.machine.state == GameState::Win),
    {
        match self.machine.state {
            GameState::Win => true,
            _ => false,
        }
    }

    /// The last known place of the pointer.
    pub fn cursor(&self) -> (cursor: Vec2)
        ensures
            cursor == self@.cursor,
    {
        self.cursor
    }

    /// The playing field.
    pub fn arena(&self) -> (arena: Arena)
        ensures
            arena == self@.arena,
    {
        self.arena
    }

    /// The place of the current level among the levels.
    pub fn level(&self) -> (level: usize)
        ensures
            level == self@.level,
    {
        self.level
    }

    /// The number of live entities.
    pub fn entity_count(&self) -> (n: usize)
        ensures
            n == self@.store.live.len(),
    {
        self.store.len()
    }

    /// The live entity at place `i`, if there is one.
    pub fn entity(&self, i: usize) -> (e: Option<Entity>)
        ensures
            e == if i < self@.store.live.len() {
                Some(self@.store.live[i as int])
            } else {
                None
            },
    {
        if i < self.store.len() {
            Some(self.store.get(i))
        } else {
            None
        }
    }

    /// The live entities, oldest first.
    pub fn entities(&self) -> (all: Vec<Entity>)
        ensures
            all@ == self@.store.live,
    {
        self.store.snapshot()
    }

    /// The player, if one lives.
    pub fn player(&self) -> (player: Option<Entity>)
        ensures
            player == match player_index(self@.store.live) {
                Some(p) => Some(self@.store.live[p]),
                None => None,
            },
    {
        match self.store.find_player() {
            Some(p) => Some(self.store.get(p)),
            None => None,
        }
    }

    /// The number of live enemies.
    pub fn enemies(&self) -> (n: usize)
        ensures
            n == enemy_count(self@.store.live),
    {
        self.store.count_enemies()
    }
}

/// Play neither adds nor removes a live entity before the commit, and
/// changes neither the identity nor the kind of any: whatever is created or
/// destroyed in a step is still, or not yet, to be seen until the step ends.
pub proof fn lemma_play_keeps_cast(v: StoreView, arena: Arena, input: Input, cursor: Vec2, micros: u32)
    ensures
        same_cast(played(v, arena, input, cursor, micros).live, v.live),
{
    let walked = after_walk(v, input.keys, micros);
    assert(same_cast(walked.live, v.live));
    let flown = after_flight(walked, micros);
    assert(same_cast(flown.live, v.live)) by {
        assert forall|i: int| 0 <= i < flown.live.len() implies (#[trigger] flown.live[i]).id == v.live[i].id
            && flown.live[i].body == walked.live[i].body by {}
    }
    let cleaned = after_cleanup(flown, arena);
    let collided = after_collisions(cleaned);
    assert(same_cast(collided.live, v.live)) by {
        assert forall|i: int| 0 <= i < collided.live.len() implies (#[trigger] collided.live[i]).id
            == v.live[i].id && collided.live[i].is_projectile() == flown.live[i].is_projectile()
            && (!flown.live[i].is_projectile() ==> collided.live[i] == flown.live[i]) by {
            lemma_collisions_keep_places(cleaned, i);
        }
    }
    let fired = after_player_fire(collided, input.fire, cursor);
    assert(fired.live == collided.live);
    lemma_enemy_fire_keeps_live(fired, fired.live.len() as int);
}

/// Play leaves the walls alone: none moves, and none is asked to be
/// destroyed.
pub proof fn lemma_play_spares_walls(
    v: StoreView,
    arena: Arena,
    input: Input,
    cursor: Vec2,
    micros: u32,
    i: int,
)
    requires
        v.wf(),
        0 <= i < v.live.len(),
        v.live[i].is_wall(),
        !v.doomed.contains(v.live[i].id),
    ensures
        played(v, arena, input, cursor, micros).live[i] == v.live[i],
        !played(v, arena, input, cursor, micros).doomed.contains(v.live[i].id),
{
    let wall = v.live[i];
    let walked = after_walk(v, input.keys, micros);
    assert(walked.live[i] == wall);
    let flown = after_flight(walked, micros);
    assert(flown.live[i] == wall);
    let cleaned = after_cleanup(flown, arena);
    let collided = after_collisions(cleaned);
    lemma_collisions_keep_places(cleaned, i);
    let fired = after_player_fire(collided, input.fire, cursor);
    lemma_enemy_fire_keeps_live(fired, fired.live.len() as int);
    // every other entity has another identity
    let all = cleaned.live;
    assert forall|k: int| 0 <= k < all.len() && k != i implies (#[trigger] all[k]).id != wall.id by {
        assert(v.all()[k].id != v.all()[i].id);
    }
    assert(!strays(flown.live, arena, flown.live.len() as int).contains(wall.id));
    assert(!casualties(all, all.len() as int).contains(wall.id)) by {
        assert forall|k: int| 0 <= k < all.len() && (#[trigger] all[k]).is_projectile() implies !toll(
            all,
            k,
        ).contains(wall.id) by {
            assert forall|j: int| 0 <= j < all.len() && fells(all, k, j) implies all[j].id != wall.id by {
                if j != i {
                    assert(all[j].id != wall.id);
                }
            }
        }
    }
}

/// During play the state after a step follows from the population at the
/// start of the step alone: a win when no enemy lives, else a loss when no
/// player lives, else play goes on.
pub proof fn lemma_verdict_follows_population(w: WorldView, input: Input, micros: u32)
    requires
        w.machine == Machine::initial(),
    ensures
        w.stepped(input, micros).machine == Machine::initial().judged(
            enemy_count(w.store.live),
            player_index(w.store.live) is Some,
        ).settled(),
        enemy_count(w.store.live) == 0 ==> w.stepped(input, micros).machine.state == GameState::Win,
        enemy_count(w.store.live) > 0 && player_index(w.store.live) is None ==> w.stepped(
            input,
            micros,
        ).machine.state == GameState::Lose,
        enemy_count(w.store.live) > 0 && player_index(w.store.live) is Some ==> w.stepped(
            input,
            micros,
        ).machine == Machine::initial(),
        w.stepped(input, micros).machine.state != GameState::Playing ==> w.stepped(
            input,
            micros,
        ).machine.timer == Some(GameTimer { remaining: TERMINAL_MICROS }),
{
    let cursor = refreshed(w.cursor, input.pointer);
    let run = played(w.store, w.arena, input, cursor, micros);
    lemma_play_keeps_cast(w.store, w.arena, input, cursor, micros);
    lemma_same_cast_same_population(run.live, w.store.live);
}

/// While a win or a loss is shown the entities stay as they are until the
/// timer has run out; then play resumes on the next level, with none of the
/// old entities left.
pub proof fn lemma_pause_ends_with_timer(w: WorldView, input: Input, micros: u32)
    requires
        w.machine.wf(),
        w.machine.pending is None,
        w.machine.state != GameState::Playing,
    ensures
        micros < w.machine.timer.unwrap().remaining ==> w.stepped(input, micros) == (WorldView {
            machine: Machine { timer: Some(w.machine.timer.unwrap().ticked(micros)), ..w.machine },
            ..w
        }),
        micros >= w.machine.timer.unwrap().remaining ==> w.stepped(input, micros) == (WorldView {
            machine: Machine::initial(),
            level: next_level(w.level, w.levels.len()),
            store: rebuilt(w.store, placements_of(w.levels, next_level(w.level, w.levels.len()))),
            ..w
        }),
{
}

} // verus!
