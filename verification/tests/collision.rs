use invaders::collision::{check, Collision, CollisionObject, CollisionOutcome, COLLISION_TOLERANCE};

fn test_points(ax: i32, ay: i32, bx: i32, by: i32) -> CollisionOutcome {
    check(Collision { a: CollisionObject { x: ax, y: ay }, b: CollisionObject { x: bx, y: by } })
}

#[test]
fn tolerance_is_five_units() {
    assert_eq!(COLLISION_TOLERANCE, 5000);
}

#[test]
fn points_four_units_apart_hit() {
    assert_eq!(test_points(0, 0, 4000, 4000), CollisionOutcome::Hit);
}

#[test]
fn points_six_units_apart_miss() {
    assert_eq!(test_points(0, 0, 6000, 6000), CollisionOutcome::Miss);
}

#[test]
fn collision_is_symmetric() {
    let cases = [
        (0, 0, 4000, 4000),
        (0, 0, 6000, 6000),
        (-3000, 7000, 1999, 2001),
        (100, -100, 5100, -100),
        (12345, -54321, 12000, -50000),
        (i32::MIN, i32::MAX, i32::MAX, i32::MIN),
    ];
    for (ax, ay, bx, by) in cases {
        assert_eq!(test_points(ax, ay, bx, by), test_points(bx, by, ax, ay));
    }
}

#[test]
fn a_point_hits_itself() {
    assert_eq!(test_points(0, 0, 0, 0), CollisionOutcome::Hit);
    assert_eq!(test_points(-90000, 13000, -90000, 13000), CollisionOutcome::Hit);
}

#[test]
fn exactly_the_tolerance_apart_is_a_miss() {
    assert_eq!(test_points(0, 0, 5000, 0), CollisionOutcome::Miss);
    assert_eq!(test_points(0, 0, -5000, 0), CollisionOutcome::Miss);
    assert_eq!(test_points(0, 0, 0, 5000), CollisionOutcome::Miss);
    assert_eq!(test_points(0, 0, 0, -5000), CollisionOutcome::Miss);
}

#[test]
fn just_inside_the_tolerance_is_a_hit() {
    assert_eq!(test_points(0, 0, 4999, 0), CollisionOutcome::Hit);
    assert_eq!(test_points(0, 0, -4999, 4999), CollisionOutcome::Hit);
    assert_eq!(test_points(1000, 1000, 5999, -3999), CollisionOutcome::Hit);
}

#[test]
fn both_axes_must_be_close() {
    assert_eq!(test_points(0, 0, 1000, 9000), CollisionOutcome::Miss);
    assert_eq!(test_points(0, 0, 9000, 1000), CollisionOutcome::Miss);
}

#[test]
fn far_corners_of_the_playfield_do_not_overflow() {
    assert_eq!(test_points(i32::MIN, i32::MIN, i32::MAX, i32::MAX), CollisionOutcome::Miss);
    assert_eq!(test_points(i32::MAX, i32::MAX, i32::MAX - 10, i32::MAX), CollisionOutcome::Hit);
    assert_eq!(test_points(i32::MIN, 0, i32::MIN + 4999, 0), CollisionOutcome::Hit);
    assert_eq!(test_points(i32::MIN, 0, i32::MIN + 5000, 0), CollisionOutcome::Miss);
}
