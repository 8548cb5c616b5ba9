use tank_arena::arena::Arena;
use tank_arena::entity::{Body, Entity, EntityId};
use tank_arena::level::{Kind, Level, Placement};
use tank_arena::movement::Keys;
use tank_arena::state::{GameState, GameTimer};
use tank_arena::vector::Vec2;
use tank_arena::world::{Input, World};

const FRAME: u32 = 16_667;

fn field() -> Arena {
    Arena::new(640_000, 360_000)
}

fn idle() -> Input {
    Input { keys: Keys { left: false, right: false, up: false, down: false }, fire: false, pointer: None }
}

fn duel() -> Level {
    Level::new(vec![Placement::new(Kind::Player, 0, 0), Placement::new(Kind::Enemy, 100_000, 0)])
}

fn projectiles(world: &World) -> Vec<Entity> {
    world.entities().into_iter().filter(|e| e.projectile()).collect()
}

#[test]
fn new_world_holds_the_first_level() {
    let world = World::new(vec![Level::first()], field());
    assert_eq!(world.state(), GameState::Playing);
    assert_eq!(world.timer(), None);
    assert!(!world.banner_shown());
    assert_eq!(world.level(), 0);
    assert_eq!(world.cursor(), Vec2::new(0, 0));
    assert_eq!(world.arena(), field());
    assert_eq!(world.entity_count(), 6);
    assert_eq!(world.enemies(), 2);
    assert_eq!(world.player().map(|p| p.position), Some(Vec2::new(0, 0)));
    assert_eq!(world.entity(6), None);
    assert_eq!(world.entity(5).map(|e| e.position), Some(Vec2::new(200_000, 150_000)));
}

#[test]
fn enemy_projectile_destroys_the_player_and_the_game_is_lost_and_restarts() {
    let mut world = World::new(vec![duel()], field());
    let enemy = EntityId(1);

    // the enemy fires in the first step; its projectile appears with the commit
    world.step(&idle(), FRAME);
    let shots = projectiles(&world);
    assert_eq!(shots.len(), 1);
    assert_eq!(shots[0].position, Vec2::new(100_000, 0));
    assert_eq!(
        shots[0].body,
        Body::Projectile { velocity: Vec2::new(-150_000, 0), owner: enemy, ricochets: 0, limit: 1 }
    );

    // it flies 2.5 units a step and overlaps its owner at first, who is spared
    world.step(&idle(), FRAME);
    assert_eq!(projectiles(&world)[0].position, Vec2::new(97_500, 0));
    assert_eq!(world.enemies(), 1);

    // it reaches the player's box after 33 steps of flight
    for _ in 0..31 {
        world.step(&idle(), FRAME);
    }
    assert_eq!(projectiles(&world)[0].position, Vec2::new(20_000, 0));
    assert!(world.player().is_some());
    world.step(&idle(), FRAME);
    assert_eq!(world.player(), None);
    assert_eq!(projectiles(&world).len(), 0);
    assert_eq!(world.enemies(), 1);
    assert_eq!(world.state(), GameState::Playing);

    // the next step notices the loss and starts the timer
    world.step(&idle(), FRAME);
    assert_eq!(world.state(), GameState::Lose);
    assert_eq!(world.timer(), Some(GameTimer { remaining: 4_000_000 }));
    assert!(!world.banner_shown());

    // nothing moves or fires while the loss is shown
    world.step(&idle(), 1_000_000);
    world.step(&idle(), 1_000_000);
    world.step(&idle(), 1_999_999);
    assert_eq!(world.state(), GameState::Lose);
    assert_eq!(world.timer(), Some(GameTimer { remaining: 1 }));
    assert_eq!(world.entity_count(), 1);

    // after four seconds play resumes on a fresh level
    world.step(&idle(), 1);
    assert_eq!(world.state(), GameState::Playing);
    assert_eq!(world.timer(), None);
    assert_eq!(world.entity_count(), 2);
    let player = world.player().unwrap();
    assert_eq!(player.position, Vec2::new(0, 0));
    assert_eq!(player.body, Body::Player { speed: 100_000, budget: 5 });
    let foe = world.entity(1).unwrap();
    assert!(foe.enemy());
    assert_eq!(foe.position, Vec2::new(100_000, 0));
    // the newcomers have identities of their own
    assert_eq!(player.id, EntityId(3));
    assert_eq!(foe.id, EntityId(4));
}

#[test]
fn world_without_enemies_is_won_in_the_first_step() {
    let mut world = World::new(vec![Level::new(vec![Placement::new(Kind::Player, 0, 0)])], field());
    world.step(&idle(), FRAME);
    assert_eq!(world.state(), GameState::Win);
    assert_eq!(world.timer(), Some(GameTimer { remaining: 4_000_000 }));
    assert!(world.banner_shown());
    assert!(world.player().is_some());
}

#[test]
fn world_without_anything_is_won_and_not_lost() {
    let mut world = World::new(vec![Level::new(vec![])], field());
    world.step(&idle(), FRAME);
    assert_eq!(world.state(), GameState::Win);
    let mut bare = World::new(vec![], field());
    bare.step(&idle(), FRAME);
    assert_eq!(bare.state(), GameState::Win);
    for _ in 0..5 {
        bare.step(&idle(), 1_000_000);
    }
    assert_eq!(bare.level(), 0);
    assert_eq!(bare.entity_count(), 0);
}

#[test]
fn win_leads_to_the_next_level_and_the_last_level_repeats() {
    let first = Level::new(vec![Placement::new(Kind::Player, 0, 0)]);
    let second = Level::new(vec![Placement::new(Kind::Player, 5_000, 5_000), Placement::new(Kind::Wall, 90_000, 0)]);
    let mut world = World::new(vec![first, second], field());
    world.step(&idle(), FRAME);
    assert_eq!(world.state(), GameState::Win);
    assert_eq!(world.level(), 0);
    world.step(&idle(), 4_000_000);
    assert_eq!(world.state(), GameState::Playing);
    assert!(!world.banner_shown());
    assert_eq!(world.level(), 1);
    assert_eq!(world.entity_count(), 2);
    assert_eq!(world.player().map(|p| p.position), Some(Vec2::new(5_000, 5_000)));

    world.step(&idle(), FRAME);
    assert_eq!(world.state(), GameState::Win);
    world.step(&idle(), 5_000_000);
    assert_eq!(world.state(), GameState::Playing);
    assert_eq!(world.level(), 1);
    assert_eq!(world.entity_count(), 2);
}

#[test]
fn player_walks_and_the_cursor_follows_the_pointer() {
    let mut world = World::new(vec![duel()], field());
    let mut input = idle();
    input.keys.up = true;
    input.pointer = Some(Vec2::new(-7_000, 9_000));
    world.step(&input, 100_000);
    assert_eq!(world.player().map(|p| p.position), Some(Vec2::new(0, 10_000)));
    assert_eq!(world.cursor(), Vec2::new(-7_000, 9_000));
    // the last known place is kept while the pointer is unknown
    world.step(&idle(), 100_000);
    assert_eq!(world.cursor(), Vec2::new(-7_000, 9_000));
    assert_eq!(world.player().map(|p| p.position), Some(Vec2::new(0, 10_000)));
}

#[test]
fn own_projectile_comes_back_from_a_wall_and_destroys_the_player() {
    let level = Level::new(vec![
        Placement::new(Kind::Player, 0, 0),
        Placement::new(Kind::Wall, 100_000, 0),
        Placement::new(Kind::Enemy, 0, 300_000),
    ]);
    let mut world = World::new(vec![level], field());
    let player = EntityId(0);
    let mut input = idle();
    input.fire = true;
    input.pointer = Some(Vec2::new(200_000, 0));
    world.step(&input, FRAME);
    let own = |world: &World| -> Vec<Entity> {
        world.entities().into_iter().filter(|e| e.owned_by(player)).collect()
    };
    assert_eq!(own(&world).len(), 1);
    assert_eq!(own(&world)[0].position, Vec2::new(0, 0));

    // 26 steps of flight take it into the wall, which turns it back
    for _ in 0..25 {
        world.step(&idle(), FRAME);
    }
    assert_eq!(own(&world)[0].position, Vec2::new(62_500, 0));
    assert_eq!(
        own(&world)[0].body,
        Body::Projectile { velocity: Vec2::new(150_000, 0), owner: player, ricochets: 0, limit: 1 }
    );
    world.step(&idle(), FRAME);
    assert_eq!(own(&world)[0].position, Vec2::new(65_000, 0));
    assert_eq!(
        own(&world)[0].body,
        Body::Projectile { velocity: Vec2::new(-150_000, 0), owner: player, ricochets: 1, limit: 1 }
    );

    // on its way back it reaches the player, who is no longer spared
    for _ in 0..18 {
        world.step(&idle(), FRAME);
    }
    assert_eq!(own(&world)[0].position, Vec2::new(20_000, 0));
    assert!(world.player().is_some());
    world.step(&idle(), FRAME);
    assert_eq!(world.player(), None);
    assert_eq!(own(&world).len(), 0);
    world.step(&idle(), FRAME);
    assert_eq!(world.state(), GameState::Lose);
}

#[test]
fn projectile_with_no_bounce_left_ends_at_the_next_wall() {
    let level = Level::new(vec![
        Placement::new(Kind::Wall, -100_000, 0),
        Placement::new(Kind::Player, 0, 0),
        Placement::new(Kind::Wall, 100_000, 0),
        Placement::new(Kind::Enemy, 0, 1_500_000),
    ]);
    let mut world = World::new(vec![level], Arena::new(2_000_000, 2_000_000));
    let player = EntityId(1);
    let own = |world: &World| -> Vec<Entity> {
        world.entities().into_iter().filter(|e| e.owned_by(player)).collect()
    };
    // the player fires to the right and steps out of the line of fire
    let mut input = idle();
    input.fire = true;
    input.pointer = Some(Vec2::new(200_000, 0));
    world.step(&input, FRAME);
    let mut upward = idle();
    upward.keys.up = true;
    for _ in 0..26 {
        world.step(&upward, FRAME);
    }
    // the wall on the right has turned the projectile back
    assert_eq!(own(&world)[0].position, Vec2::new(65_000, 0));
    assert_eq!(
        own(&world)[0].body,
        Body::Projectile { velocity: Vec2::new(-150_000, 0), owner: player, ricochets: 1, limit: 1 }
    );
    // it passes below the player and flies on to the wall on the left
    for _ in 0..51 {
        world.step(&idle(), FRAME);
    }
    assert_eq!(own(&world)[0].position, Vec2::new(-62_500, 0));
    assert!(world.player().is_some());
    // which destroys it
    world.step(&idle(), FRAME);
    assert_eq!(own(&world).len(), 0);
    assert_eq!(world.entity_count(), 5);
    assert_eq!(world.state(), GameState::Playing);
}

#[test]
fn projectile_that_leaves_the_field_is_removed() {
    let level = Level::new(vec![Placement::new(Kind::Player, 0, 0), Placement::new(Kind::Enemy, 0, -300_000)]);
    let mut world = World::new(vec![level], Arena::new(50_000, 400_000));
    let mut input = idle();
    input.fire = true;
    input.pointer = Some(Vec2::new(10_000, 0));
    world.step(&input, FRAME);
    let own = |world: &World| -> usize { world.entities().iter().filter(|e| e.owned_by(EntityId(0))).count() };
    assert_eq!(own(&world), 1);
    // 50 units at 150 units a second
    for _ in 0..20 {
        world.step(&idle(), FRAME);
    }
    assert_eq!(own(&world), 1);
    world.step(&idle(), FRAME);
    assert_eq!(own(&world), 0);
}

#[test]
fn enemy_keeps_one_projectile_in_flight() {
    let level = Level::new(vec![Placement::new(Kind::Player, 0, 0), Placement::new(Kind::Enemy, 0, 300_000)]);
    let mut world = World::new(vec![level], field());
    for _ in 0..40 {
        world.step(&idle(), FRAME);
        assert_eq!(projectiles(&world).len(), 1);
    }
}

#[test]
fn destroying_the_last_enemy_wins_the_game() {
    let level = Level::new(vec![Placement::new(Kind::Player, 0, 0), Placement::new(Kind::Enemy, 0, 100_000)]);
    let mut world = World::new(vec![level], field());
    // the enemy fires at once; the player steps aside and lets the projectile pass
    let mut aside = idle();
    aside.keys.right = true;
    for _ in 0..30 {
        world.step(&aside, FRAME);
    }
    assert_eq!(world.player().map(|p| p.position), Some(Vec2::new(49_980, 0)));
    // then it fires back from where it stands
    let mut shot = idle();
    shot.fire = true;
    shot.pointer = Some(Vec2::new(0, 100_000));
    world.step(&shot, FRAME);
    let mut steps = 0;
    while world.enemies() > 0 && steps < 100 {
        world.step(&idle(), FRAME);
        steps += 1;
    }
    assert_eq!(world.enemies(), 0);
    assert_eq!(world.state(), GameState::Playing);
    // the next step notices that no enemy is left
    world.step(&idle(), FRAME);
    assert_eq!(world.state(), GameState::Win);
    assert_eq!(world.timer(), Some(GameTimer { remaining: 4_000_000 }));
    assert!(world.banner_shown());
    assert!(world.player().is_some());
    // the world stands still while the win is shown
    let frozen = world.entities();
    world.step(&shot, FRAME);
    assert_eq!(world.entities(), frozen);
    assert_eq!(world.timer(), Some(GameTimer { remaining: 4_000_000 - FRAME }));
}

#[test]
fn player_never_has_more_projectiles_than_its_budget() {
    let level = Level::new(vec![Placement::new(Kind::Player, 0, 0), Placement::new(Kind::Enemy, 0, -300_000)]);
    let mut world = World::new(vec![level], field());
    let mut shot = idle();
    shot.fire = true;
    shot.pointer = Some(Vec2::new(300_000, 100_000));
    let mut most = 0;
    for step in 0..120 {
        // fired one after the other, the projectiles would run into each other
        let input = if step % 10 == 0 { shot } else { idle() };
        world.step(&input, FRAME);
        let own = world.entities().iter().filter(|e| e.owned_by(EntityId(0))).count();
        assert!(own <= 5);
        most = most.max(own);
    }
    assert_eq!(most, 5);
}
