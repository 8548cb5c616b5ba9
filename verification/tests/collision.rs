use tank_arena::collision::{opposition, probe, Face};
use tank_arena::vector::{Extent, Vec2};

fn square(half: u32) -> Extent {
    Extent::new(half, half)
}

#[test]
fn probe_reports_nothing_for_boxes_apart() {
    let hit = probe(Vec2::new(0, 0), square(10), Vec2::new(100, 0), square(10));
    assert_eq!(hit, None);
}

#[test]
fn probe_reports_nothing_for_boxes_that_only_touch() {
    assert_eq!(probe(Vec2::new(0, 0), square(10), Vec2::new(20, 0), square(10)), None);
    assert_eq!(probe(Vec2::new(0, 0), square(10), Vec2::new(0, -20), square(10)), None);
}

#[test]
fn probe_reports_left_face_when_box_lies_to_the_left() {
    let hit = probe(Vec2::new(-15, 2), square(10), Vec2::new(0, 0), square(10));
    assert_eq!(hit, Some(Face::Left));
}

#[test]
fn probe_reports_right_face_when_box_lies_to_the_right() {
    let hit = probe(Vec2::new(15, -2), square(10), Vec2::new(0, 0), square(10));
    assert_eq!(hit, Some(Face::Right));
}

#[test]
fn probe_reports_top_face_when_box_lies_above() {
    let hit = probe(Vec2::new(3, 18), square(10), Vec2::new(0, 0), square(10));
    assert_eq!(hit, Some(Face::Top));
}

#[test]
fn probe_reports_bottom_face_when_box_lies_below() {
    let hit = probe(Vec2::new(3, -18), square(10), Vec2::new(0, 0), square(10));
    assert_eq!(hit, Some(Face::Bottom));
}

#[test]
fn probe_picks_the_axis_of_least_penetration() {
    // 4 deep along x, 6 deep along y
    assert_eq!(probe(Vec2::new(-16, -14), square(10), Vec2::new(0, 0), square(10)), Some(Face::Left));
    // 6 deep along x, 4 deep along y
    assert_eq!(probe(Vec2::new(-14, -16), square(10), Vec2::new(0, 0), square(10)), Some(Face::Bottom));
}

#[test]
fn probe_prefers_the_horizontal_axis_on_equal_penetration() {
    assert_eq!(probe(Vec2::new(15, 15), square(10), Vec2::new(0, 0), square(10)), Some(Face::Right));
    assert_eq!(probe(Vec2::new(-15, 15), square(10), Vec2::new(0, 0), square(10)), Some(Face::Left));
}

#[test]
fn probe_reports_a_face_for_a_box_inside_another() {
    // 11 deep along x, 14 deep along y
    let hit = probe(Vec2::new(-1, 2), Extent::new(2, 6), Vec2::new(0, 0), square(10));
    assert_eq!(hit, Some(Face::Left));
}

#[test]
fn probe_reports_right_or_top_for_equal_coordinates() {
    assert_eq!(probe(Vec2::new(0, 0), square(10), Vec2::new(0, 0), square(10)), Some(Face::Right));
    assert_eq!(probe(Vec2::new(0, 0), Extent::new(10, 2), Vec2::new(0, 0), Extent::new(10, 2)), Some(Face::Top));
}

#[test]
fn probe_mirrors_the_face_when_the_boxes_are_swapped() {
    let cases = [
        (Vec2::new(-15, 2), square(10), Vec2::new(0, 0), square(10)),
        (Vec2::new(3, 18), Extent::new(4, 10), Vec2::new(0, 0), Extent::new(30, 10)),
        (Vec2::new(7, -9), Extent::new(5, 5), Vec2::new(1, 1), Extent::new(6, 7)),
        (Vec2::new(-1, 2), Extent::new(2, 6), Vec2::new(0, 0), square(10)),
    ];
    for (center_a, half_a, center_b, half_b) in cases {
        let forth = probe(center_a, half_a, center_b, half_b).unwrap();
        let back = probe(center_b, half_b, center_a, half_a).unwrap();
        assert_eq!(back, forth.opposite());
    }
}

#[test]
fn probe_agrees_on_separation_when_the_boxes_are_swapped() {
    let a = (Vec2::new(-40, 0), square(10));
    let b = (Vec2::new(0, 0), square(10));
    assert_eq!(probe(a.0, a.1, b.0, b.1), None);
    assert_eq!(probe(b.0, b.1, a.0, a.1), None);
}

#[test]
fn probe_handles_the_corners_of_the_grid() {
    let far = Vec2::new(i32::MAX, i32::MAX);
    let near = Vec2::new(i32::MIN, i32::MIN);
    assert_eq!(probe(far, square(10), near, square(10)), None);
    assert_eq!(probe(far, Extent::new(u32::MAX, u32::MAX), near, Extent::new(1, 1)), Some(Face::Right));
}

#[test]
fn opposite_swaps_each_pair_of_faces() {
    assert_eq!(Face::Left.opposite(), Face::Right);
    assert_eq!(Face::Right.opposite(), Face::Left);
    assert_eq!(Face::Top.opposite(), Face::Bottom);
    assert_eq!(Face::Bottom.opposite(), Face::Top);
}

#[test]
fn opposition_needs_motion_into_the_face() {
    assert_eq!(opposition(Face::Left, Vec2::new(5, -3)), (true, false));
    assert_eq!(opposition(Face::Left, Vec2::new(-5, -3)), (false, false));
    assert_eq!(opposition(Face::Left, Vec2::new(0, 0)), (false, false));
    assert_eq!(opposition(Face::Right, Vec2::new(-1, 0)), (true, false));
    assert_eq!(opposition(Face::Right, Vec2::new(1, 0)), (false, false));
    assert_eq!(opposition(Face::Top, Vec2::new(9, -1)), (false, true));
    assert_eq!(opposition(Face::Top, Vec2::new(9, 1)), (false, false));
    assert_eq!(opposition(Face::Bottom, Vec2::new(9, 1)), (false, true));
    assert_eq!(opposition(Face::Bottom, Vec2::new(9, -1)), (false, false));
}
