use ghist::geometry::{clamp, Vec2, ARENA_MAX, MOB_STRIDE, PLAYER_HALF_HEIGHT, PLAYER_HALF_WIDTH, UNIT};

#[test]
fn clamp_keeps_values_inside_the_arena() {
    assert_eq!(clamp(0), 0);
    assert_eq!(clamp(1), 1);
    assert_eq!(clamp(ARENA_MAX as i64), ARENA_MAX);
    assert_eq!(clamp(400 * UNIT as i64), 400 * UNIT);
}

#[test]
fn clamp_pulls_outside_values_to_the_nearest_edge() {
    assert_eq!(clamp(-1), 0);
    assert_eq!(clamp(i64::MIN), 0);
    assert_eq!(clamp(ARENA_MAX as i64 + 1), ARENA_MAX);
    assert_eq!(clamp(i64::MAX), ARENA_MAX);
}

#[test]
fn arena_is_eight_hundred_units_wide() {
    assert_eq!(UNIT, 1024);
    assert_eq!(ARENA_MAX, 819_200);
    assert_eq!(MOB_STRIDE, 5_120);
}

#[test]
fn spawn_is_the_centre_of_the_arena() {
    assert_eq!(Vec2::spawn(), Vec2::new(400 * UNIT, 400 * UNIT));
    assert!(Vec2::spawn().is_in_arena());
}

#[test]
fn unit_input_to_the_right_advances_two_units() {
    let pos = Vec2::new(400 * UNIT, 400 * UNIT);
    let next = pos.advance(Vec2::new(UNIT, 0));
    assert_eq!(next, Vec2::new(402 * UNIT, 400 * UNIT));
}

#[test]
fn advance_is_clamped_at_the_right_edge() {
    let pos = Vec2::new(799 * UNIT, 10 * UNIT);
    let next = pos.advance(Vec2::new(UNIT, 0));
    assert_eq!(next, Vec2::new(800 * UNIT, 10 * UNIT));
    assert_eq!(next.advance(Vec2::new(UNIT, 0)), next);
}

#[test]
fn advance_is_clamped_at_the_origin() {
    let pos = Vec2::new(UNIT, UNIT / 2);
    let next = pos.advance(Vec2::new(-UNIT, -UNIT));
    assert_eq!(next, Vec2::new(0, 0));
}

#[test]
fn advance_scales_fractions_of_a_unit() {
    let pos = Vec2::new(100 * UNIT, 100 * UNIT);
    let next = pos.advance(Vec2::new(UNIT / 2, -UNIT / 4));
    assert_eq!(next, Vec2::new(101 * UNIT, 100 * UNIT - UNIT / 2));
}

#[test]
fn advance_stands_still_without_input() {
    let pos = Vec2::new(123, 456);
    assert_eq!(pos.advance(Vec2::zero()), pos);
}

#[test]
fn advance_survives_the_largest_inputs() {
    let pos = Vec2::new(400 * UNIT, 400 * UNIT);
    assert_eq!(pos.advance(Vec2::new(i32::MAX, i32::MIN)), Vec2::new(ARENA_MAX, 0));
    let far = Vec2::new(i32::MAX, i32::MIN);
    assert_eq!(far.advance(Vec2::new(i32::MAX, i32::MIN)), Vec2::new(ARENA_MAX, 0));
}

#[test]
fn displace_adds_and_clamps() {
    let pos = Vec2::new(10, 20);
    assert_eq!(pos.displace(5, -5), Vec2::new(15, 15));
    assert_eq!(pos.displace(-11, -21), Vec2::new(0, 0));
    assert_eq!(Vec2::new(ARENA_MAX, ARENA_MAX).displace(1, MOB_STRIDE), Vec2::new(ARENA_MAX, ARENA_MAX));
}

#[test]
fn point_clamp_pulls_into_the_arena() {
    assert_eq!(Vec2::new(-5, 900 * UNIT).clamp(), Vec2::new(0, ARENA_MAX));
    assert_eq!(Vec2::new(7, 9).clamp(), Vec2::new(7, 9));
    assert!(!Vec2::new(-1, 0).is_in_arena());
    assert!(!Vec2::new(0, ARENA_MAX + 1).is_in_arena());
    assert!(Vec2::new(0, ARENA_MAX).is_in_arena());
}

#[test]
fn rectangles_overlap_up_to_a_full_width_and_height() {
    let a = Vec2::new(400 * UNIT, 400 * UNIT);
    assert!(a.overlaps(a));
    assert!(a.overlaps(Vec2::new(400 * UNIT + 2 * PLAYER_HALF_WIDTH, 400 * UNIT)));
    assert!(!a.overlaps(Vec2::new(400 * UNIT + 2 * PLAYER_HALF_WIDTH + 1, 400 * UNIT)));
    assert!(a.overlaps(Vec2::new(400 * UNIT, 400 * UNIT - 2 * PLAYER_HALF_HEIGHT)));
    assert!(!a.overlaps(Vec2::new(400 * UNIT, 400 * UNIT - 2 * PLAYER_HALF_HEIGHT - 1)));
}

#[test]
fn overlap_needs_both_axes() {
    let a = Vec2::new(100 * UNIT, 100 * UNIT);
    let beside = Vec2::new(100 * UNIT + 113 * UNIT, 100 * UNIT);
    let above = Vec2::new(100 * UNIT, 100 * UNIT + 201 * UNIT);
    let near = Vec2::new(100 * UNIT + 111 * UNIT, 100 * UNIT + 199 * UNIT);
    assert!(!a.overlaps(beside));
    assert!(!a.overlaps(above));
    assert!(a.overlaps(near));
    assert_eq!(a.overlaps(near), near.overlaps(a));
}

#[test]
fn overlap_survives_the_largest_coordinates() {
    let a = Vec2::new(i32::MIN, i32::MIN);
    let b = Vec2::new(i32::MAX, i32::MAX);
    assert!(!a.overlaps(b));
    assert!(!b.overlaps(a));
}
