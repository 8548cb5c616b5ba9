use tank_arena::entity::{Body, EntityId};
use tank_arena::movement::{input_direction, move_player, Keys};
use tank_arena::store::EntityStore;
use tank_arena::vector::{Extent, Vec2};

const WALL: Extent = Extent { x: 32_000, y: 32_000 };
const ACTOR: Extent = Extent { x: 16_000, y: 16_000 };

fn keys(left: bool, right: bool, up: bool, down: bool) -> Keys {
    Keys { left, right, up, down }
}

fn store_with(entities: Vec<(Vec2, Extent, Body)>) -> EntityStore {
    let mut store = EntityStore::new();
    for (position, half_extent, body) in entities {
        store.request_spawn(position, half_extent, body);
    }
    store.commit();
    store
}

fn player() -> Body {
    Body::Player { speed: 100_000, budget: 5 }
}

#[test]
fn keys_give_a_direction() {
    assert_eq!(input_direction(&keys(false, false, false, false)), Vec2::new(0, 0));
    assert_eq!(input_direction(&keys(true, false, false, false)), Vec2::new(-1, 0));
    assert_eq!(input_direction(&keys(false, true, false, false)), Vec2::new(1, 0));
    assert_eq!(input_direction(&keys(false, false, true, false)), Vec2::new(0, 1));
    assert_eq!(input_direction(&keys(false, false, false, true)), Vec2::new(0, -1));
    assert_eq!(input_direction(&keys(true, false, false, true)), Vec2::new(-1, -1));
}

#[test]
fn opposing_keys_cancel() {
    assert_eq!(input_direction(&keys(true, true, false, false)), Vec2::new(0, 0));
    assert_eq!(input_direction(&keys(false, false, true, true)), Vec2::new(0, 0));
    assert_eq!(input_direction(&keys(true, true, true, false)), Vec2::new(0, 1));
    assert_eq!(input_direction(&keys(true, true, true, true)), Vec2::new(0, 0));
}

#[test]
fn player_moves_at_its_speed() {
    let mut store = store_with(vec![(Vec2::new(0, 0), ACTOR, player())]);
    move_player(&mut store, &keys(false, true, false, false), 1_000_000);
    assert_eq!(store.get(0).position, Vec2::new(100_000, 0));
    move_player(&mut store, &keys(false, false, false, true), 16_667);
    assert_eq!(store.get(0).position, Vec2::new(100_000, -1_666));
}

#[test]
fn player_is_no_faster_on_the_diagonal() {
    let mut store = store_with(vec![(Vec2::new(0, 0), ACTOR, player())]);
    move_player(&mut store, &keys(true, false, true, false), 1_000_000);
    assert_eq!(store.get(0).position, Vec2::new(-70_710, 70_710));
}

#[test]
fn player_stays_without_keys() {
    let mut store = store_with(vec![(Vec2::new(5, 6), ACTOR, player())]);
    move_player(&mut store, &keys(false, false, false, false), 1_000_000);
    assert_eq!(store.get(0).position, Vec2::new(5, 6));
    move_player(&mut store, &keys(true, true, false, false), 1_000_000);
    assert_eq!(store.get(0).position, Vec2::new(5, 6));
}

#[test]
fn nothing_moves_without_a_player() {
    let mut store = store_with(vec![(Vec2::new(5, 6), ACTOR, Body::Enemy { budget: 1 })]);
    move_player(&mut store, &keys(false, true, false, false), 1_000_000);
    assert_eq!(store.get(0).position, Vec2::new(5, 6));
}

#[test]
fn wall_stops_the_player_but_lets_it_slide() {
    // the player reaches 8 deep into the left face of the wall
    let mut store = store_with(vec![(Vec2::new(0, 0), ACTOR, player()), (Vec2::new(40_000, 0), WALL, Body::Wall)]);
    move_player(&mut store, &keys(false, true, false, false), 1_000_000);
    assert_eq!(store.get(0).position, Vec2::new(0, 0));
    move_player(&mut store, &keys(false, true, true, false), 100_000);
    assert_eq!(store.get(0).position, Vec2::new(0, 7_071));
}

#[test]
fn wall_lets_the_player_walk_away() {
    let mut store = store_with(vec![(Vec2::new(0, 0), ACTOR, player()), (Vec2::new(40_000, 0), WALL, Body::Wall)]);
    move_player(&mut store, &keys(true, false, false, false), 100_000);
    assert_eq!(store.get(0).position, Vec2::new(-10_000, 0));
}

#[test]
fn wall_below_stops_downward_motion_only() {
    let mut store = store_with(vec![(Vec2::new(0, 0), ACTOR, player()), (Vec2::new(0, -40_000), WALL, Body::Wall)]);
    move_player(&mut store, &keys(false, false, false, true), 100_000);
    assert_eq!(store.get(0).position, Vec2::new(0, 0));
    move_player(&mut store, &keys(false, true, false, true), 100_000);
    assert_eq!(store.get(0).position, Vec2::new(7_071, 0));
    move_player(&mut store, &keys(false, false, true, false), 100_000);
    assert_eq!(store.get(0).position, Vec2::new(7_071, 10_000));
}

#[test]
fn any_of_several_obstacles_stops_the_player() {
    // the first wall bars the way to the right, the second the way up
    let mut store = store_with(vec![
        (Vec2::new(40_000, 0), WALL, Body::Wall),
        (Vec2::new(0, 0), ACTOR, player()),
        (Vec2::new(0, 40_000), WALL, Body::Wall),
    ]);
    move_player(&mut store, &keys(false, true, true, false), 100_000);
    assert_eq!(store.get(1).position, Vec2::new(0, 0));
    move_player(&mut store, &keys(true, false, false, true), 100_000);
    assert_eq!(store.get(1).position, Vec2::new(-7_071, -7_071));
}

#[test]
fn enemy_stops_the_player() {
    let mut store = store_with(vec![
        (Vec2::new(0, 0), ACTOR, player()),
        (Vec2::new(-30_000, 0), ACTOR, Body::Enemy { budget: 1 }),
    ]);
    move_player(&mut store, &keys(true, false, false, false), 100_000);
    assert_eq!(store.get(0).position, Vec2::new(0, 0));
}

#[test]
fn projectile_does_not_stop_the_player() {
    let shot = Body::Projectile { velocity: Vec2::new(0, 0), owner: EntityId(0), ricochets: 0, limit: 1 };
    let mut store = store_with(vec![
        (Vec2::new(0, 0), ACTOR, player()),
        (Vec2::new(-18_000, 0), Extent::new(4_000, 4_000), shot),
    ]);
    move_player(&mut store, &keys(true, false, false, false), 100_000);
    assert_eq!(store.get(0).position, Vec2::new(-10_000, 0));
}

#[test]
fn obstacles_do_not_move() {
    let mut store = store_with(vec![
        (Vec2::new(0, 0), ACTOR, player()),
        (Vec2::new(300_000, 0), ACTOR, Body::Enemy { budget: 1 }),
        (Vec2::new(0, 300_000), WALL, Body::Wall),
    ]);
    move_player(&mut store, &keys(false, true, true, false), 1_000_000);
    assert_eq!(store.get(1).position, Vec2::new(300_000, 0));
    assert_eq!(store.get(2).position, Vec2::new(0, 300_000));
}
