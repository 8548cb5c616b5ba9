use tank_arena::entity::{Body, EntityId};
use tank_arena::impact::resolve_collisions;
use tank_arena::store::EntityStore;
use tank_arena::vector::{Extent, Vec2};

const WALL: Extent = Extent { x: 32_000, y: 32_000 };
const ACTOR: Extent = Extent { x: 16_000, y: 16_000 };
const SHOT: Extent = Extent { x: 4_000, y: 4_000 };

fn bullet(velocity: Vec2, owner: u64, ricochets: u32) -> Body {
    Body::Projectile { velocity, owner: EntityId(owner), ricochets, limit: 1 }
}

fn store_with(entities: Vec<(Vec2, Extent, Body)>) -> EntityStore {
    let mut store = EntityStore::new();
    for (position, half_extent, body) in entities {
        store.request_spawn(position, half_extent, body);
    }
    store.commit();
    store
}

fn survivors(store: &mut EntityStore) -> Vec<EntityId> {
    store.commit();
    store.snapshot().iter().map(|e| e.id).collect()
}

#[test]
fn projectile_hitting_a_wall_bounces_once() {
    let mut store = store_with(vec![
        (Vec2::new(0, 0), WALL, Body::Wall),
        (Vec2::new(-34_000, 5_000), SHOT, bullet(Vec2::new(150_000, -20_000), 9, 0)),
    ]);
    resolve_collisions(&mut store);
    assert_eq!(store.get(1).body, bullet(Vec2::new(-150_000, -20_000), 9, 1));
    assert_eq!(store.get(1).position, Vec2::new(-34_000, 5_000));
    assert_eq!(survivors(&mut store), vec![EntityId(0), EntityId(1)]);
}

#[test]
fn projectile_hitting_a_wall_from_above_turns_upward() {
    let mut store = store_with(vec![
        (Vec2::new(0, 0), WALL, Body::Wall),
        (Vec2::new(3_000, 35_000), SHOT, bullet(Vec2::new(10_000, -150_000), 9, 0)),
    ]);
    resolve_collisions(&mut store);
    assert_eq!(store.get(1).body, bullet(Vec2::new(10_000, 150_000), 9, 1));
    assert_eq!(survivors(&mut store), vec![EntityId(0), EntityId(1)]);
}

#[test]
fn projectile_hitting_a_wall_a_second_time_is_destroyed() {
    let mut store = store_with(vec![
        (Vec2::new(0, 0), WALL, Body::Wall),
        (Vec2::new(-34_000, 5_000), SHOT, bullet(Vec2::new(150_000, -20_000), 9, 1)),
    ]);
    resolve_collisions(&mut store);
    // not reflected again
    assert_eq!(store.get(1).body, bullet(Vec2::new(150_000, -20_000), 9, 1));
    assert_eq!(survivors(&mut store), vec![EntityId(0)]);
}

#[test]
fn projectile_leaving_a_wall_is_left_alone() {
    let mut store = store_with(vec![
        (Vec2::new(0, 0), WALL, Body::Wall),
        (Vec2::new(-34_000, 5_000), SHOT, bullet(Vec2::new(-150_000, -20_000), 9, 1)),
    ]);
    resolve_collisions(&mut store);
    assert_eq!(store.get(1).body, bullet(Vec2::new(-150_000, -20_000), 9, 1));
    assert_eq!(survivors(&mut store), vec![EntityId(0), EntityId(1)]);
}

#[test]
fn projectile_in_a_corner_bounces_once_along_both_axes() {
    let mut store = store_with(vec![
        (Vec2::new(0, 0), WALL, Body::Wall),
        (Vec2::new(-64_000, 64_000), WALL, Body::Wall),
        // strikes the left face of the first wall and the bottom face of the second
        (Vec2::new(-35_000, 29_000), SHOT, bullet(Vec2::new(100_000, 100_000), 9, 0)),
    ]);
    resolve_collisions(&mut store);
    assert_eq!(store.get(2).body, bullet(Vec2::new(-100_000, -100_000), 9, 1));
    assert_eq!(survivors(&mut store), vec![EntityId(0), EntityId(1), EntityId(2)]);
}

#[test]
fn fresh_projectile_spares_its_owner() {
    let mut store = store_with(vec![
        (Vec2::new(0, 0), ACTOR, Body::Enemy { budget: 1 }),
        (Vec2::new(0, 0), SHOT, bullet(Vec2::new(150_000, 0), 0, 0)),
    ]);
    resolve_collisions(&mut store);
    assert_eq!(survivors(&mut store), vec![EntityId(0), EntityId(1)]);
}

#[test]
fn bounced_projectile_destroys_its_owner_and_itself() {
    let mut store = store_with(vec![
        (Vec2::new(0, 0), ACTOR, Body::Player { speed: 100_000, budget: 5 }),
        (Vec2::new(10_000, 0), SHOT, bullet(Vec2::new(-150_000, 0), 0, 1)),
    ]);
    resolve_collisions(&mut store);
    assert_eq!(store.len(), 2);
    assert_eq!(survivors(&mut store), vec![]);
}

#[test]
fn projectile_destroys_another_actor_and_itself() {
    let mut store = store_with(vec![
        (Vec2::new(0, 0), ACTOR, Body::Player { speed: 100_000, budget: 5 }),
        (Vec2::new(300_000, 0), ACTOR, Body::Enemy { budget: 1 }),
        (Vec2::new(19_000, 0), SHOT, bullet(Vec2::new(-150_000, 0), 1, 0)),
    ]);
    resolve_collisions(&mut store);
    assert_eq!(survivors(&mut store), vec![EntityId(1)]);
}

#[test]
fn projectile_that_only_touches_does_no_harm() {
    let mut store = store_with(vec![
        (Vec2::new(0, 0), ACTOR, Body::Player { speed: 100_000, budget: 5 }),
        (Vec2::new(20_000, 0), SHOT, bullet(Vec2::new(-150_000, 0), 7, 0)),
    ]);
    resolve_collisions(&mut store);
    assert_eq!(survivors(&mut store), vec![EntityId(0), EntityId(1)]);
}

#[test]
fn overlapping_projectiles_destroy_each_other() {
    let mut store = store_with(vec![
        (Vec2::new(0, 0), SHOT, bullet(Vec2::new(150_000, 0), 7, 0)),
        (Vec2::new(5_000, 1_000), SHOT, bullet(Vec2::new(-150_000, 0), 8, 0)),
        (Vec2::new(50_000, 0), SHOT, bullet(Vec2::new(-150_000, 0), 8, 0)),
    ]);
    resolve_collisions(&mut store);
    assert_eq!(survivors(&mut store), vec![EntityId(2)]);
}

#[test]
fn projectiles_of_one_owner_destroy_each_other_too() {
    let mut store = store_with(vec![
        (Vec2::new(0, 0), SHOT, bullet(Vec2::new(150_000, 0), 7, 0)),
        (Vec2::new(0, 0), SHOT, bullet(Vec2::new(150_000, 0), 7, 0)),
    ]);
    resolve_collisions(&mut store);
    assert_eq!(survivors(&mut store), vec![]);
}

#[test]
fn lone_projectile_does_not_destroy_itself() {
    let mut store = store_with(vec![(Vec2::new(0, 0), SHOT, bullet(Vec2::new(150_000, 0), 7, 0))]);
    resolve_collisions(&mut store);
    assert_eq!(survivors(&mut store), vec![EntityId(0)]);
}

#[test]
fn actors_and_walls_do_not_collide_among_themselves() {
    let mut store = store_with(vec![
        (Vec2::new(0, 0), ACTOR, Body::Player { speed: 100_000, budget: 5 }),
        (Vec2::new(1_000, 0), ACTOR, Body::Enemy { budget: 1 }),
        (Vec2::new(2_000, 0), WALL, Body::Wall),
    ]);
    resolve_collisions(&mut store);
    assert_eq!(survivors(&mut store), vec![EntityId(0), EntityId(1), EntityId(2)]);
}

#[test]
fn projectile_that_bounces_and_hits_an_actor_is_destroyed() {
    let mut store = store_with(vec![
        (Vec2::new(0, 0), WALL, Body::Wall),
        (Vec2::new(-50_000, 0), ACTOR, Body::Enemy { budget: 1 }),
        (Vec2::new(-34_000, 0), SHOT, bullet(Vec2::new(150_000, 0), 7, 0)),
    ]);
    resolve_collisions(&mut store);
    assert_eq!(store.get(2).body, bullet(Vec2::new(-150_000, 0), 7, 1));
    assert_eq!(survivors(&mut store), vec![EntityId(0)]);
}

#[test]
fn owner_that_is_gone_spares_nobody() {
    // the projectile outlives its owner; a newcomer is not taken for it
    let mut store = store_with(vec![
        (Vec2::new(0, 0), ACTOR, Body::Enemy { budget: 1 }),
        (Vec2::new(200_000, 0), ACTOR, Body::Enemy { budget: 1 }),
        (Vec2::new(190_000, 0), SHOT, bullet(Vec2::new(150_000, 0), 0, 0)),
    ]);
    store.request_despawn(EntityId(0));
    store.commit();
    resolve_collisions(&mut store);
    assert_eq!(survivors(&mut store), vec![]);
}
