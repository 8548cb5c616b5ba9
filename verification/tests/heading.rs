use tank_arena::heading::{ceil_sqrt_of, velocity_along, velocity_toward};
use tank_arena::vector::Vec2;

#[test]
fn ceil_sqrt_of_small_numbers() {
    assert_eq!(ceil_sqrt_of(0), 0);
    assert_eq!(ceil_sqrt_of(1), 1);
    assert_eq!(ceil_sqrt_of(2), 2);
    assert_eq!(ceil_sqrt_of(4), 2);
    assert_eq!(ceil_sqrt_of(5), 3);
    assert_eq!(ceil_sqrt_of(9), 3);
    assert_eq!(ceil_sqrt_of(10), 4);
}

#[test]
fn ceil_sqrt_of_large_numbers() {
    assert_eq!(ceil_sqrt_of(1u128 << 64), 1u128 << 32);
    assert_eq!(ceil_sqrt_of((1u128 << 64) + 1), (1u128 << 32) + 1);
    assert_eq!(ceil_sqrt_of(u128::MAX), 1u128 << 64);
    assert_eq!(ceil_sqrt_of(8_589_934_592), 92_682);
}

#[test]
fn velocity_toward_nothing_is_none() {
    assert_eq!(velocity_toward(Vec2::new(7, -3), Vec2::new(7, -3), 150_000), None);
    assert_eq!(velocity_along(Vec2::new(0, 0), 100_000), None);
}

#[test]
fn velocity_along_an_axis_has_the_full_speed() {
    assert_eq!(velocity_toward(Vec2::new(100_000, 0), Vec2::new(0, 0), 150_000), Some(Vec2::new(-150_000, 0)));
    assert_eq!(velocity_toward(Vec2::new(0, 0), Vec2::new(0, 1), 150_000), Some(Vec2::new(0, 150_000)));
    assert_eq!(velocity_along(Vec2::new(1, 0), 100_000), Some(Vec2::new(100_000, 0)));
    assert_eq!(velocity_along(Vec2::new(0, -1), 100_000), Some(Vec2::new(0, -100_000)));
}

#[test]
fn velocity_along_a_diagonal_is_no_faster() {
    // 100000 / sqrt(2) = 70710.67...
    assert_eq!(velocity_along(Vec2::new(1, 1), 100_000), Some(Vec2::new(70_710, 70_710)));
    assert_eq!(velocity_along(Vec2::new(-1, 1), 100_000), Some(Vec2::new(-70_710, 70_710)));
    assert_eq!(velocity_along(Vec2::new(1, -1), 100_000), Some(Vec2::new(70_710, -70_710)));
    // 150000 / sqrt(2) = 106066.01..., and rounding never adds speed
    assert_eq!(velocity_toward(Vec2::new(0, 0), Vec2::new(1, 1), 150_000), Some(Vec2::new(106_065, 106_065)));
}

#[test]
fn velocity_keeps_the_proportions_of_the_displacement() {
    assert_eq!(velocity_toward(Vec2::new(0, 0), Vec2::new(3, 4), 1_000), Some(Vec2::new(600, 800)));
    assert_eq!(velocity_toward(Vec2::new(10, 10), Vec2::new(-2, 5), 1_300), Some(Vec2::new(-1_200, -500)));
    assert_eq!(velocity_toward(Vec2::new(0, 0), Vec2::new(-100_000, 100_000), 150_000), Some(Vec2::new(-106_066, 106_066)));
}

#[test]
fn velocity_does_not_depend_on_the_distance() {
    let near = velocity_toward(Vec2::new(0, 0), Vec2::new(3, 4), 150_000);
    let far = velocity_toward(Vec2::new(0, 0), Vec2::new(300_000, 400_000), 150_000);
    assert_eq!(near, Some(Vec2::new(90_000, 120_000)));
    assert_eq!(far, near);
}

#[test]
fn velocity_is_never_longer_than_the_speed() {
    let speed: i64 = 150_000;
    for x in -12i32..=12 {
        for y in -12i32..=12 {
            if let Some(v) = velocity_toward(Vec2::new(0, 0), Vec2::new(x * 7, y * 13), speed as u32) {
                let squared = (v.x as i64) * (v.x as i64) + (v.y as i64) * (v.y as i64);
                assert!(squared <= speed * speed);
                assert!(squared >= (speed - 2) * (speed - 2));
            }
        }
    }
}

#[test]
fn velocity_across_the_whole_grid() {
    let v = velocity_toward(Vec2::new(i32::MIN, i32::MIN), Vec2::new(i32::MAX, i32::MAX), 1_000_000);
    assert_eq!(v, Some(Vec2::new(707_106, 707_106)));
    let w = velocity_toward(Vec2::new(i32::MAX, 0), Vec2::new(i32::MIN, 0), u32::MAX);
    assert_eq!(w, Some(Vec2::new(i32::MIN, 0)));
}

#[test]
fn velocity_of_speed_zero_is_zero() {
    assert_eq!(velocity_along(Vec2::new(1, 1), 0), Some(Vec2::new(0, 0)));
}
