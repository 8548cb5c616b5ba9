//! The entity store: the live entities, and the requests to create and to
//! destroy that wait for the next commit.
//!
//! Nothing appears in or disappears from the live entities while a step is
//! being computed. A request only joins a queue, and `commit` applies the
//! queues in one pass.

use vstd::prelude::*;
use crate::entity::{Body, Entity, EntityId};
use crate::vector::{Extent, Vec2};

verus! {

/// What a store holds, as plain mathematics.
pub struct StoreView {
    /// The live entities, oldest first.
    pub live: Seq<Entity>,
    /// Entities that were asked for and join the live ones at the next commit.
    pub spawned: Seq<Entity>,
    /// Identities whose entities leave at the next commit.
    pub doomed: Set<EntityId>,
    /// The next identity to give out.
    pub next_id: nat,
}

/// Whether some entity of `s` is a player.
pub open spec fn has_player(s: Seq<Entity>) -> bool {
    exists|i: int| 0 <= i < s.len() && (#[trigger] s[i]).is_player()
}

/// Whether `i` is the place of the first player in `s`.
pub open spec fn is_first_player(s: Seq<Entity>, i: int) -> bool {
    &&& 0 <= i < s.len()
    &&& s[i].is_player()
    &&& forall|j: int| 0 <= j < i ==> !(#[trigger] s[j]).is_player()
}

/// The place of the player in `s`, if there is one.
pub open spec fn player_index(s: Seq<Entity>) -> Option<int> {
    if exists|i: int| is_first_player(s, i) {
        Some(choose|i: int| is_first_player(s, i))
    } else {
        None
    }
}

/// Whether `i` is the first place in `s` that holds the identity `id`.
pub open spec fn is_first_with_id(s: Seq<Entity>, id: EntityId, i: int) -> bool {
    &&& 0 <= i < s.len()
    &&& s[i].id == id
    &&& forall|j: int| 0 <= j < i ==> (#[trigger] s[j]).id != id
}

/// The place of the entity with identity `id` in `s`, if there is one.
pub open spec fn index_of(s: Seq<Entity>, id: EntityId) -> Option<int> {
    if exists|i: int| is_first_with_id(s, id, i) {
        Some(choose|i: int| is_first_with_id(s, id, i))
    } else {
        None
    }
}

/// How many projectiles in `s` the entity `owner` has fired.
pub open spec fn owned_count(s: Seq<Entity>, owner: EntityId) -> nat {
    s.filter(|e: Entity| e.fired_by(owner)).len()
}

/// How many enemies are in `s`.
pub open spec fn enemy_count(s: Seq<Entity>) -> nat {
    s.filter(|e: Entity| e.is_enemy()).len()
}

/// No two entities of `s` share an identity.
pub open spec fn distinct_ids(s: Seq<Entity>) -> bool {
    forall|i: int, j: int|
        0 <= i < s.len() && 0 <= j < s.len() && i != j ==> (#[trigger] s[i]).id != (#[trigger] s[j]).id
}

/// At most one entity of `s` is a player.
pub open spec fn at_most_one_player(s: Seq<Entity>) -> bool {
    forall|i: int, j: int|
        0 <= i < s.len() && 0 <= j < s.len() && (#[trigger] s[i]).is_player() && (#[trigger] s[j]).is_player()
            ==> i == j
}

/// Every entity of `s` is well formed and has an identity below `bound`.
pub open spec fn all_issued(s: Seq<Entity>, bound: nat) -> bool {
    forall|i: int| 0 <= i < s.len() ==> (#[trigger] s[i]).wf() && s[i].id.0 < bound
}

impl StoreView {
    /// A store that holds nothing and has given out no identity.
    pub open spec fn empty() -> StoreView {
        StoreView { live: Seq::empty(), spawned: Seq::empty(), doomed: Set::empty(), next_id: 0 }
    }

    /// Whether no request is waiting for a commit.
    pub open spec fn is_settled(self) -> bool {
        self.spawned == Seq::<Entity>::empty() && self.doomed == Set::<EntityId>::empty()
    }

    /// The live entities followed by those that wait to join them.
    pub open spec fn all(self) -> Seq<Entity> {
        self.live + self.spawned
    }

    /// What holds of every store: identities are unique and were given out
    /// by this store, there is at most one player, and no projectile has
    /// bounced more often than it may.
    pub open spec fn wf(self) -> bool {
        &&& self.next_id <= u64::MAX
        &&& all_issued(self.all(), self.next_id)
        &&& distinct_ids(self.all())
        &&& at_most_one_player(self.all())
    }

    /// Whether an entity with this body can be asked for: an identity must be
    /// left to give out, and a second player is never admitted.
    pub open spec fn admits(self, body: Body) -> bool {
        self.next_id < u64::MAX && (body is Player ==> !has_player(self.all()))
    }

    /// The entity that a request for `body` at `position` creates.
    pub open spec fn newcomer(self, position: Vec2, half_extent: Extent, body: Body) -> Entity {
        Entity { id: EntityId(self.next_id as u64), position, half_extent, body }
    }

    /// The store after a request to create an entity; unchanged where the
    /// request is not admitted.
    pub open spec fn with_spawn(self, position: Vec2, half_extent: Extent, body: Body) -> StoreView {
        if self.admits(body) {
            StoreView {
                spawned: self.spawned.push(self.newcomer(position, half_extent, body)),
                next_id: self.next_id + 1,
                ..self
            }
        } else {
            self
        }
    }

    /// The store after a request to destroy the entity `id`.
    pub open spec fn with_despawn(self, id: EntityId) -> StoreView {
        StoreView { doomed: self.doomed.insert(id), ..self }
    }

    /// The store with the entity at place `i` replaced.
    pub open spec fn with_entity(self, i: int, entity: Entity) -> StoreView {
        StoreView { live: self.live.update(i, entity), ..self }
    }

    /// The live entities that no request to destroy names.
    pub open spec fn survivors(self) -> Seq<Entity> {
        self.live.filter(|e: Entity| !self.doomed.contains(e.id))
    }

    /// The store after a commit: the doomed have left, the spawned have
    /// joined behind the survivors, and both queues are empty.
    pub open spec fn committed(self) -> StoreView {
        StoreView {
            live: self.survivors() + self.spawned,
            spawned: Seq::empty(),
            doomed: Set::empty(),
            next_id: self.next_id,
        }
    }

    /// The store after a request to destroy every live entity and to drop
    /// every entity that waits to join them.
    pub open spec fn torn_down(self) -> StoreView {
        StoreView {
            live: self.live,
            spawned: Seq::empty(),
            doomed: self.doomed.union(
                Set::new(
                    |id: EntityId|
                        exists|i: int| 0 <= i < self.live.len() && (#[trigger] self.live[i]).id == id,
                ),
            ),
            next_id: self.next_id,
        }
    }
}

/// The live entities of a simulation together with the pending requests.
pub struct EntityStore {
    live: Vec<Entity>,
    spawned: Vec<Entity>,
    doomed: Vec<EntityId>,
    next_id: u64,
}

impl View for EntityStore {
    type V = StoreView;

    closed spec fn view(&self) -> StoreView {
        StoreView {
            live: self.live@,
            spawned: self.spawned@,
            doomed: Set::new(|id: EntityId| self.doomed@.contains(id)),
            next_id: self.next_id as nat,
        }
    }
}

impl EntityStore {
    /// An empty store.
    pub fn new() -> (store: EntityStore)
        ensures
            store@ == StoreView::empty(),
            store@.wf(),
    {
        let store = EntityStore { live: Vec::new(), spawned: Vec::new(), doomed: Vec::new(), next_id: 0 };
        assert(store@.doomed =~= Set::<EntityId>::empty());
        assert(store@.live =~= Seq::<Entity>::empty());
        assert(store@.spawned =~= Seq::<Entity>::empty());
        store
    }

    /// The number of live entities.
    pub fn len(&self) -> (n: usize)
        ensures
            n == self@.live.len(),
    {
        self.live.len()
    }

    /// The live entity at place `i`.
    pub fn get(&self, i: usize) -> (e: Entity)
        requires
            i < self@.live.len(),
        ensures
            e == self@.live[i as int],
    {
        self.live[i]
    }

    /// A copy of the live entities.
    pub fn snapshot(&self) -> (all: Vec<Entity>)
        ensures
            all@ == self@.live,
    {
        let mut all: Vec<Entity> = Vec::new();
        let mut i: usize = 0;
        while i < self.live.len()
            invariant
                i <= self.live.len(),
                all@ == self.live@.take(i as int),
            decreases self.live.len() - i,
        {
            all.push(self.live[i]);
            assert(self.live@.take(i as int).push(self.live@[i as int]) =~= self.live@.take(i + 1));
            i += 1;
        }
        assert(self.live@.take(i as int) =~= self.live@);
        all
    }

    /// Whether a request to destroy `id` is pending.
    pub fn is_doomed(&self, id: EntityId) -> (b: bool)
        ensures
            b == self@.doomed.contains(id),
    {
        let mut i: usize = 0;
        while i < self.doomed.len()
            invariant
                i <= self.doomed.len(),
                forall|j: int| 0 <= j < i ==> self.doomed@[j] != id,
            decreases self.doomed.len() - i,
        {
            if self.doomed[i] == id {
                return true;
            }
            i += 1;
        }
        false
    }

    /// Finds the player among the live entities.
    pub fn find_player(&self) -> (found: Option<usize>)
        ensures
            found is Some <==> has_player(self@.live),
            match found {
                Some(i) => player_index(self@.live) == Some(i as int),
                None => player_index(self@.live) is None,
            },
    {
        let mut i: usize = 0;
        while i < self.live.len()
            invariant
                i <= self.live.len(),
                forall|j: int| 0 <= j < i ==> !(#[trigger] self.live@[j]).is_player(),
            decreases self.live.len() - i,
        {
            if self.live[i].player() {
                proof {
                    lemma_first_player_unique(self.live@, i as int);
                }
                return Some(i);
            }
            i += 1;
        }
        None
    }

    /// Finds the live entity with identity `id`: the check to make before a
    /// remembered identity is used.
    pub fn find(&self, id: EntityId) -> (found: Option<usize>)
        ensures
            match found {
                Some(i) => index_of(self@.live, id) == Some(i as int),
                None => index_of(self@.live, id) is None,
            },
            found is Some <==> exists|i: int|
                0 <= i < self@.live.len() && (#[trigger] self@.live[i]).id == id,
    {
        let mut i: usize = 0;
        while i < self.live.len()
            invariant
                i <= self.live.len(),
                forall|j: int| 0 <= j < i ==> (#[trigger] self.live@[j]).id != id,
            decreases self.live.len() - i,
        {
            if self.live[i].id == id {
                proof {
                    lemma_first_with_id_unique(self.live@, id, i as int);
                }
                return Some(i);
            }
            i += 1;
        }
        None
    }

    /// Counts the live projectiles that `owner` has fired.
    pub fn count_owned(&self, owner: EntityId) -> (n: usize)
        ensures
            n == owned_count(self@.live, owner),
    {
        let ghost fired = |e: Entity| e.fired_by(owner);
        let mut n: usize = 0;
        let mut i: usize = 0;
        assert(self.live@.take(0).filter(fired).len() == 0) by {
            self.live@.take(0).lemma_filter_len(fired);
        }
        while i < self.live.len()
            invariant
                i <= self.live.len(),
                n <= i,
                fired == |e: Entity| e.fired_by(owner),
                n == self.live@.take(i as int).filter(fired).len(),
            decreases self.live.len() - i,
        {
            proof {
                self.live@.take(i as int).lemma_filter_push(self.live@[i as int], fired);
                assert(self.live@.take(i as int).push(self.live@[i as int]) =~= self.live@.take(i + 1));
            }
            if self.live[i].owned_by(owner) {
                n += 1;
            }
            i += 1;
        }
        assert(self.live@.take(i as int) =~= self.live@);
        n
    }

    /// Counts the live enemies.
    pub fn count_enemies(&self) -> (n: usize)
        ensures
            n == enemy_count(self@.live),
    {
        let ghost hostile = |e: Entity| e.is_enemy();
        let mut n: usize = 0;
        let mut i: usize = 0;
        assert(self.live@.take(0).filter(hostile).len() == 0) by {
            self.live@.take(0).lemma_filter_len(hostile);
        }
        while i < self.live.len()
            invariant
                i <= self.live.len(),
                n <= i,
                hostile == |e: Entity| e.is_enemy(),
                n == self.live@.take(i as int).filter(hostile).len(),
            decreases self.live.len() - i,
        {
            proof {
                self.live@.take(i as int).lemma_filter_push(self.live@[i as int], hostile);
                assert(self.live@.take(i as int).push(self.live@[i as int]) =~= self.live@.take(i + 1));
            }
            if self.live[i].enemy() {
                n += 1;
            }
            i += 1;
        }
        assert(self.live@.take(i as int) =~= self.live@);
        n
    }

    /// Replaces the live entity at place `i` by a later state of itself.
    pub fn replace(&mut self, i: usize, entity: Entity)
        requires
            old(self)@.wf(),
            i < old(self)@.live.len(),
            entity.wf(),
            entity.id == old(self)@.live[i as int].id,
            entity.is_player() == old(self)@.live[i as int].is_player(),
        ensures
            final(self)@ == old(self)@.with_entity(i as int, entity),
            final(self)@.wf(),
    {
        let ghost before = self@;
        self.live.set(i, entity);
        proof {
            let after = self@;
            assert(after.doomed =~= before.doomed);
            assert(after == before.with_entity(i as int, entity));
            assert forall|k: int| 0 <= k < after.all().len() implies (#[trigger] after.all()[k]).id
                == before.all()[k].id && after.all()[k].is_player() == before.all()[k].is_player()
                && after.all()[k].wf() by {
                assert(before.all()[k].wf());
            }
        }
    }

    /// Asks for the entity `id` to be destroyed at the next commit.
    pub fn request_despawn(&mut self, id: EntityId)
        ensures
            final(self)@ == old(self)@.with_despawn(id),
            old(self)@.wf() ==> final(self)@.wf(),
    {
        let ghost before = self@;
        self.doomed.push(id);
        proof {
            assert forall|other: EntityId| self@.doomed.contains(other) == before.doomed.insert(
                id,
            ).contains(other) by {
                if before.doomed.contains(other) {
                    let k = choose|k: int| 0 <= k < old(self).doomed@.len() && old(self).doomed@[k] == other;
                    assert(self.doomed@[k] == other);
                }
                if other == id {
                    assert(self.doomed@[old(self).doomed@.len() as int] == id);
                }
            }
            assert(self@.doomed =~= before.doomed.insert(id));
        }
    }

    /// Asks for a new entity, which joins the live ones at the next commit,
    /// and returns the identity it will have. The request is refused where
    /// the store does not admit the body.
    pub fn request_spawn(&mut self, position: Vec2, half_extent: Extent, body: Body) -> (id: Option<EntityId>)
        requires
            old(self)@.wf(),
            body.wf(),
        ensures
            final(self)@ == old(self)@.with_spawn(position, half_extent, body),
            final(self)@.wf(),
            id is Some <==> old(self)@.admits(body),
            id is Some ==> id == Some(old(self)@.newcomer(position, half_extent, body).id),
    {
        let ghost before = self@;
        if self.next_id == u64::MAX {
            return None;
        }
        if let Body::Player { .. } = body {
            if self.any_player() {
                return None;
            }
        }
        let id = EntityId(self.next_id);
        let entity = Entity { id, position, half_extent, body };
        self.spawned.push(entity);
        self.next_id = self.next_id + 1;
        proof {
            let after = self@;
            assert(after.doomed =~= before.doomed);
            assert(after == before.with_spawn(position, half_extent, body));
            assert(after.all() =~= before.all().push(entity));
            assert forall|k: int| 0 <= k < before.all().len() implies (#[trigger] after.all()[k])
                == before.all()[k] by {}
            assert forall|k: int| 0 <= k < after.all().len() implies (#[trigger] after.all()[k]).wf()
                && after.all()[k].id.0 < after.next_id by {
                if k < before.all().len() {
                    assert(before.all()[k].wf());
                }
            }
            assert(distinct_ids(after.all())) by {
                assert forall|a: int, b: int|
                    0 <= a < after.all().len() && 0 <= b < after.all().len() && a != b implies (
                #[trigger] after.all()[a]).id != (#[trigger] after.all()[b]).id by {
                    if a < before.all().len() {
                        assert(before.all()[a].wf());
                    }
                    if b < before.all().len() {
                        assert(before.all()[b].wf());
                    }
                }
            }
            assert(at_most_one_player(after.all())) by {
                assert forall|a: int, b: int|
                    0 <= a < after.all().len() && 0 <= b < after.all().len()
                        && (#[trigger] after.all()[a]).is_player()
                        && (#[trigger] after.all()[b]).is_player() implies a == b by {
                    if a < before.all().len() {
                        assert(before.all()[a].is_player());
                    }
                    if b < before.all().len() {
                        assert(before.all()[b].is_player());
                    }
                }
            }
        }
        Some(id)
    }

    /// Applies the pending requests: the doomed leave, the spawned join
    /// behind the survivors, and both queues are emptied.
    pub fn commit(&mut self)
        requires
            old(self)@.wf(),
        ensures
            final(self)@ == old(self)@.committed(),
            final(self)@.wf(),
            final(self)@.is_settled(),
    {
        let ghost before = self@;
        let ghost stays = |e: Entity| !before.doomed.contains(e.id);
        // where in the store each kept entity came from
        let ghost mut origin: Seq<int> = Seq::empty();
        let mut kept: Vec<Entity> = Vec::new();
        let mut i: usize = 0;
        assert(self.live@.take(0).filter(stays) =~= Seq::<Entity>::empty()) by {
            self.live@.take(0).lemma_filter_len(stays);
        }
        while i < self.live.len()
            invariant
                i <= self.live.len(),
                *self == *old(self),
                before == self@,
                stays == |e: Entity| !before.doomed.contains(e.id),
                kept@ == self.live@.take(i as int).filter(stays),
                selected(kept@, before.all(), origin, i as int),
            decreases self.live.len() - i,
        {
            let entity = self.live[i];
            proof {
                self.live@.take(i as int).lemma_filter_push(entity, stays);
                assert(self.live@.take(i as int).push(entity) =~= self.live@.take(i + 1));
                assert(before.all()[i as int] == entity);
            }
            if !self.is_doomed(entity.id) {
                kept.push(entity);
                proof {
                    origin = origin.push(i as int);
                }
            }
            i += 1;
        }
        assert(self.live@.take(i as int) =~= self.live@);
        let ghost survivors = kept@;
        let mut k: usize = 0;
        while k < self.spawned.len()
            invariant
                k <= self.spawned.len(),
                *self == *old(self),
                before == self@,
                survivors == before.survivors(),
                kept@ == survivors + self.spawned@.take(k as int),
                selected(kept@, before.all(), origin, self.live@.len() + k),
            decreases self.spawned.len() - k,
        {
            let entity = self.spawned[k];
            kept.push(entity);
            proof {
                assert(self.spawned@.take(k as int).push(entity) =~= self.spawned@.take(k + 1));
                assert(kept@ =~= survivors + self.spawned@.take(k + 1));
                assert(before.all()[self.live@.len() + k] == entity);
                origin = origin.push(self.live@.len() + k);
            }
            k += 1;
        }
        assert(self.spawned@.take(k as int) =~= self.spawned@);
        self.live = kept;
        self.spawned = Vec::new();
        self.doomed = Vec::new();
        proof {
            let after = self@;
            assert(after.doomed =~= Set::<EntityId>::empty());
            assert(after.spawned =~= Seq::<Entity>::empty());
            assert(after.all() =~= after.live);
            lemma_selection_wf(after.live, before.all(), origin, before.all().len() as int, before.next_id);
        }
    }

    /// Whether a player is live or waits to be.
    fn any_player(&self) -> (b: bool)
        ensures
            b == has_player(self@.all()),
    {
        let mut i: usize = 0;
        while i < self.live.len()
            invariant
                i <= self.live.len(),
                forall|j: int| 0 <= j < i ==> !(#[trigger] self.live@[j]).is_player(),
            decreases self.live.len() - i,
        {
            if self.live[i].player() {
                assert(self@.all()[i as int].is_player());
                return true;
            }
            i += 1;
        }
        let mut k: usize = 0;
        while k < self.spawned.len()
            invariant
                k <= self.spawned.len(),
                forall|j: int| 0 <= j < self.live.len() ==> !(#[trigger] self.live@[j]).is_player(),
                forall|j: int| 0 <= j < k ==> !(#[trigger] self.spawned@[j]).is_player(),
            decreases self.spawned.len() - k,
        {
            if self.spawned[k].player() {
                assert(self@.all()[self.live.len() + k].is_player());
                return true;
            }
            k += 1;
        }
        assert forall|j: int| 0 <= j < self@.all().len() implies !(#[trigger] self@.all()[j]).is_player() by {
            if j < self.live.len() {
                assert(!self.live@[j].is_player());
            } else {
                assert(!self.spawned@[j - self.live.len()].is_player());
            }
        }
        false
    }

    /// Asks for every live entity to be destroyed at the next commit and
    /// drops the entities that wait to join them.
    pub fn request_teardown(&mut self)
        requires
            old(self)@.wf(),
        ensures
            final(self)@ == old(self)@.torn_down(),
            final(self)@.wf(),
    {
        let ghost before = self@;
        self.spawned = Vec::new();
        let mut i: usize = 0;
        while i < self.live.len()
            invariant
                i <= self.live.len(),
                self.live == old(self).live,
                self.next_id == old(self).next_id,
                self.spawned@.len() == 0,
                forall|id: EntityId|
                    self.doomed@.contains(id) <==> (old(self).doomed@.contains(id) || exists|j: int|
                        0 <= j < i && (#[trigger] self.live@[j]).id == id),
            decreases self.live.len() - i,
        {
            let ghost queue = self.doomed@;
            let id = self.live[i].id;
            self.doomed.push(id);
            proof {
                assert forall|other: EntityId|
                    self.doomed@.contains(other) <==> (old(self).doomed@.contains(other) || exists|j: int|
                        0 <= j < i + 1 && (#[trigger] self.live@[j]).id == other) by {
                    if queue.contains(other) {
                        let k = choose|k: int| 0 <= k < queue.len() && queue[k] == other;
                        assert(self.doomed@[k] == other);
                    }
                    if other == id {
                        assert(self.doomed@[queue.len() as int] == id);
                        assert(self.live@[i as int].id == other);
                    }
                    if self.doomed@.contains(other) {
                        let k = choose|k: int| 0 <= k < self.doomed@.len() && self.doomed@[k] == other;
                        if k < queue.len() {
                            assert(queue[k] == other);
                            assert(queue.contains(other));
                        }
                    }
                }
            }
            i += 1;
        }
        proof {
            let after = self@;
            assert(after.doomed =~= before.torn_down().doomed);
            assert(after.spawned =~= before.torn_down().spawned);
            assert(after.all() =~= before.live);
            let origin = Seq::new(before.live.len(), |k: int| k);
            lemma_selection_wf(after.all(), before.all(), origin, before.live.len() as int, before.next_id);
        }
    }
}

/// `part` picks entities out of `whole` without changing their order:
/// entity `k` of `part` is entity `origin[k]` of `whole`, and the origins
/// rise and stay below `bound`.
spec fn selected(part: Seq<Entity>, whole: Seq<Entity>, origin: Seq<int>, bound: int) -> bool {
    &&& origin.len() == part.len()
    &&& bound <= whole.len()
    &&& forall|k: int|
        0 <= k < part.len() ==> 0 <= #[trigger] origin[k] < bound && part[k] == whole[origin[k]]
    &&& forall|a: int, b: int| 0 <= a < b < part.len() ==> #[trigger] origin[a] < #[trigger] origin[b]
}

/// A selection from well-formed entities is well formed.
proof fn lemma_selection_wf(part: Seq<Entity>, whole: Seq<Entity>, origin: Seq<int>, bound: int, next: nat)
    requires
        selected(part, whole, origin, bound),
        all_issued(whole, next),
        distinct_ids(whole),
        at_most_one_player(whole),
    ensures
        all_issued(part, next),
        distinct_ids(part),
        at_most_one_player(part),
{
    assert forall|k: int| 0 <= k < part.len() implies (#[trigger] part[k]).wf() && part[k].id.0 < next by {
        assert(whole[origin[k]].wf());
    }
    assert forall|a: int, b: int| 0 <= a < part.len() && 0 <= b < part.len() && a != b implies (
    #[trigger] part[a]).id != (#[trigger] part[b]).id by {
        if a < b {
            assert(origin[a] < origin[b]);
        } else {
            assert(origin[b] < origin[a]);
        }
        assert(whole[origin[a]].id != whole[origin[b]].id);
    }
    assert forall|a: int, b: int|
        0 <= a < part.len() && 0 <= b < part.len() && (#[trigger] part[a]).is_player() && (
        #[trigger] part[b]).is_player() implies a == b by {
        assert(whole[origin[a]].is_player() && whole[origin[b]].is_player());
        if a < b {
            assert(origin[a] < origin[b]);
        } else if b < a {
            assert(origin[b] < origin[a]);
        }
    }
}

/// A commit applies every request at once: an entity is live afterwards
/// exactly if it was live and not doomed, or was waiting to join; and
/// nothing is left waiting.
pub proof fn lemma_commit_applies_requests(v: StoreView, e: Entity)
    ensures
        v.committed().live.contains(e) <==> (v.live.contains(e) && !v.doomed.contains(e.id))
            || v.spawned.contains(e),
        v.committed().is_settled(),
        v.committed().next_id == v.next_id,
{
    let stays = |e: Entity| !v.doomed.contains(e.id);
    let survivors = v.live.filter(stays);
    let after = v.committed().live;
    if after.contains(e) {
        let k = choose|k: int| 0 <= k < after.len() && after[k] == e;
        if k < survivors.len() {
            assert(survivors[k] == e);
            v.live.lemma_filter_pred(stays, k);
            assert(survivors.contains(e));
            v.live.lemma_filter_contains_rev(stays, e);
        } else {
            assert(v.spawned[k - survivors.len()] == e);
        }
    }
    if v.live.contains(e) && !v.doomed.contains(e.id) {
        let k = choose|k: int| 0 <= k < v.live.len() && v.live[k] == e;
        v.live.lemma_filter_contains(stays, k);
        let j = choose|j: int| 0 <= j < survivors.len() && survivors[j] == e;
        assert(after[j] == e);
    }
    if v.spawned.contains(e) {
        let k = choose|k: int| 0 <= k < v.spawned.len() && v.spawned[k] == e;
        assert(after[survivors.len() + k] == e);
    }
}

/// A commit with nothing waiting changes nothing.
pub proof fn lemma_commit_of_settled_store(v: StoreView)
    requires
        v.is_settled(),
    ensures
        v.committed() == v,
{
    let stays = |e: Entity| !v.doomed.contains(e.id);
    lemma_filter_keeps_all(v.live, stays);
    assert(v.committed().live =~= v.live);
}

/// A teardown followed by a commit leaves nothing: no live entity, and
/// nothing waiting.
pub proof fn lemma_teardown_leaves_nothing(v: StoreView)
    ensures
        v.torn_down().committed().live == Seq::<Entity>::empty(),
        v.torn_down().committed().is_settled(),
        v.torn_down().committed().next_id == v.next_id,
{
    let torn = v.torn_down();
    let stays = |e: Entity| !torn.doomed.contains(e.id);
    assert forall|i: int| 0 <= i < v.live.len() implies !stays(#[trigger] v.live[i]) by {
        assert(v.live[i].id == v.live[i].id);
    }
    lemma_filter_drops_all(v.live, stays);
    assert(torn.committed().live =~= Seq::<Entity>::empty());
}

/// A filter that no entity passes leaves nothing.
proof fn lemma_filter_drops_all(s: Seq<Entity>, pred: spec_fn(Entity) -> bool)
    requires
        forall|i: int| 0 <= i < s.len() ==> !pred(#[trigger] s[i]),
    ensures
        s.filter(pred) == Seq::<Entity>::empty(),
    decreases s.len(),
{
    if s.len() == 0 {
        s.lemma_filter_len(pred);
        assert(s.filter(pred) =~= Seq::<Entity>::empty());
    } else {
        assert forall|i: int| 0 <= i < s.drop_last().len() implies !pred(#[trigger] s.drop_last()[i]) by {
            assert(s.drop_last()[i] == s[i]);
        }
        lemma_filter_drops_all(s.drop_last(), pred);
        s.drop_last().lemma_filter_push(s.last(), pred);
        assert(s.drop_last().push(s.last()) =~= s);
        assert(!pred(s[s.len() - 1]));
    }
}

/// A filter that every entity passes keeps the sequence as it is.
proof fn lemma_filter_keeps_all(s: Seq<Entity>, pred: spec_fn(Entity) -> bool)
    requires
        forall|i: int| 0 <= i < s.len() ==> pred(#[trigger] s[i]),
    ensures
        s.filter(pred) == s,
    decreases s.len(),
{
    if s.len() == 0 {
        s.lemma_filter_len(pred);
        assert(s.filter(pred) =~= s);
    } else {
        assert forall|i: int| 0 <= i < s.drop_last().len() implies pred(#[trigger] s.drop_last()[i]) by {
            assert(s.drop_last()[i] == s[i]);
        }
        lemma_filter_keeps_all(s.drop_last(), pred);
        s.drop_last().lemma_filter_push(s.last(), pred);
        assert(s.drop_last().push(s.last()) =~= s);
    }
}

/// Two sequences hold the same cast when they are equally long and the
/// entities at each place have the same identity and are of the same kind.
pub open spec fn same_cast(a: Seq<Entity>, b: Seq<Entity>) -> bool {
    &&& a.len() == b.len()
    &&& forall|i: int|
        0 <= i < a.len() ==> {
            &&& (#[trigger] a[i]).id == b[i].id
            &&& a[i].is_player() == b[i].is_player()
            &&& a[i].is_enemy() == b[i].is_enemy()
            &&& a[i].is_wall() == b[i].is_wall()
            &&& a[i].is_projectile() == b[i].is_projectile()
        }
}

/// The same cast has the same population: as many enemies, and a player
/// at the same place or none.
pub proof fn lemma_same_cast_same_population(a: Seq<Entity>, b: Seq<Entity>)
    requires
        same_cast(a, b),
    ensures
        enemy_count(a) == enemy_count(b),
        player_index(a) == player_index(b),
    decreases a.len(),
{
    let hostile = |e: Entity| e.is_enemy();
    if a.len() == 0 {
        a.lemma_filter_len(hostile);
        b.lemma_filter_len(hostile);
    } else {
        let shorter_a = a.drop_last();
        let shorter_b = b.drop_last();
        assert forall|i: int| 0 <= i < shorter_a.len() implies {
            &&& (#[trigger] shorter_a[i]).id == shorter_b[i].id
            &&& shorter_a[i].is_player() == shorter_b[i].is_player()
            &&& shorter_a[i].is_enemy() == shorter_b[i].is_enemy()
            &&& shorter_a[i].is_wall() == shorter_b[i].is_wall()
            &&& shorter_a[i].is_projectile() == shorter_b[i].is_projectile()
        } by {
            assert(a[i].id == b[i].id);
        }
        lemma_same_cast_same_population(shorter_a, shorter_b);
        shorter_a.lemma_filter_push(a.last(), hostile);
        shorter_b.lemma_filter_push(b.last(), hostile);
        assert(shorter_a.push(a.last()) =~= a);
        assert(shorter_b.push(b.last()) =~= b);
        assert(a[a.len() - 1].id == b[a.len() - 1].id);
    }
    assert forall|i: int| is_first_player(a, i) == is_first_player(b, i) by {
        if 0 <= i < a.len() {
            assert(a[i].id == b[i].id);
            if is_first_player(a, i) {
                assert forall|j: int| 0 <= j < i implies !(#[trigger] b[j]).is_player() by {
                    assert(a[j].id == b[j].id);
                }
            }
            if is_first_player(b, i) {
                assert forall|j: int| 0 <= j < i implies !(#[trigger] a[j]).is_player() by {
                    assert(a[j].id == b[j].id);
                }
            }
        }
    }
}

/// Only one place can be that of the first player.
pub proof fn lemma_first_player_unique(s: Seq<Entity>, i: int)
    requires
        is_first_player(s, i),
    ensures
        player_index(s) == Some(i),
{
    let c = choose|c: int| is_first_player(s, c);
    assert(is_first_player(s, c));
    if c < i {
        assert(!s[c].is_player());
    } else if i < c {
        assert(!s[i].is_player());
    }
}

/// Only one place can be the first with a given identity.
pub proof fn lemma_first_with_id_unique(s: Seq<Entity>, id: EntityId, i: int)
    requires
        is_first_with_id(s, id, i),
    ensures
        index_of(s, id) == Some(i),
{
    let c = choose|c: int| is_first_with_id(s, id, c);
    assert(is_first_with_id(s, id, c));
    if c < i {
        assert(s[c].id != id);
    } else if i < c {
        assert(s[i].id != id);
    }
}

} // verus!
