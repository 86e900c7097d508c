use particle_tracker::geometry::{distance, floor_sqrt, saturating_sum, Point, POSITION_UNIT};

#[test]
fn position_unit_is_a_million() {
    assert_eq!(POSITION_UNIT, 1_000_000);
}

#[test]
fn floor_sqrt_rounds_down() {
    assert_eq!(floor_sqrt(0), 0);
    assert_eq!(floor_sqrt(1), 1);
    assert_eq!(floor_sqrt(2), 1);
    assert_eq!(floor_sqrt(3), 1);
    assert_eq!(floor_sqrt(4), 2);
    assert_eq!(floor_sqrt(15), 3);
    assert_eq!(floor_sqrt(16), 4);
    assert_eq!(floor_sqrt(2_000_000_000_000), 1_414_213);
}

#[test]
fn floor_sqrt_of_the_largest_argument() {
    assert_eq!(floor_sqrt(0x4_0000_0000_0000_0000 - 1), 8_589_934_591);
}

#[test]
fn point_new_keeps_coordinates() {
    let p = Point::new(-3, 7);
    assert_eq!(p.x, -3);
    assert_eq!(p.y, 7);
    assert_eq!(p, Point { x: -3, y: 7 });
}

#[test]
fn distance_of_a_point_to_itself_is_zero() {
    let p = Point::new(123, -456);
    assert_eq!(distance(p, p), 0);
}

#[test]
fn distance_three_four_five() {
    assert_eq!(distance(Point::new(0, 0), Point::new(3, 4)), 5);
    assert_eq!(distance(Point::new(3, 4), Point::new(0, 0)), 5);
    assert_eq!(distance(Point::new(-3_000_000, 0), Point::new(0, 4_000_000)), 5_000_000);
}

#[test]
fn distance_rounds_down() {
    assert_eq!(distance(Point::new(0, 0), Point::new(1, 1)), 1);
    assert_eq!(distance(Point::new(0, 0), Point::new(1_000_000, 1_000_000)), 1_414_213);
}

#[test]
fn distance_between_the_farthest_points() {
    let a = Point::new(i32::MIN, i32::MIN);
    let b = Point::new(i32::MAX, i32::MAX);
    assert_eq!(distance(a, b), 6_074_000_998);
}

#[test]
fn offset_adds_to_both_coordinates() {
    assert_eq!(Point::new(10, 20).offset(-3, 4), Point::new(7, 24));
}

#[test]
fn offset_stops_at_the_ends_of_the_range() {
    assert_eq!(Point::new(i32::MAX, 0).offset(1, -1), Point::new(i32::MAX, -1));
    assert_eq!(Point::new(i32::MIN + 1, i32::MAX - 1).offset(-5, 5), Point::new(i32::MIN, i32::MAX));
}

#[test]
fn saturating_sum_clamps() {
    assert_eq!(saturating_sum(1, 2), 3);
    assert_eq!(saturating_sum(i32::MAX, i32::MAX), i32::MAX);
    assert_eq!(saturating_sum(i32::MIN, -1), i32::MIN);
    assert_eq!(saturating_sum(i32::MIN, i32::MAX), -1);
}
