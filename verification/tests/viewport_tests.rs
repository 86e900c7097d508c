use particle_tracker::geometry::{Point, POSITION_UNIT};
use particle_tracker::viewport::{screen_to_world, VIEW_EXTENT};

#[test]
fn view_reaches_ten_units() {
    assert_eq!(VIEW_EXTENT, 10 * POSITION_UNIT);
}

#[test]
fn corners_and_centre_of_the_window() {
    assert_eq!(screen_to_world(Point::new(0, 0), 800, 600), Point::new(-10_000_000, 10_000_000));
    assert_eq!(screen_to_world(Point::new(400, 300), 800, 600), Point::new(0, 0));
    assert_eq!(screen_to_world(Point::new(800, 600), 800, 600), Point::new(10_000_000, -10_000_000));
    assert_eq!(screen_to_world(Point::new(200, 150), 800, 600), Point::new(-5_000_000, 5_000_000));
}

#[test]
fn pixels_are_rounded_down_before_the_flip() {
    assert_eq!(screen_to_world(Point::new(1, 1), 3, 3), Point::new(-3_333_334, 3_333_334));
    assert_eq!(screen_to_world(Point::new(2, 2), 3, 3), Point::new(3_333_333, -3_333_333));
}

#[test]
fn pixels_outside_the_window() {
    assert_eq!(screen_to_world(Point::new(-1, -1), 3, 4), Point::new(-16_666_667, 15_000_000));
    assert_eq!(screen_to_world(Point::new(4, 5), 2, 2), Point::new(30_000_000, -40_000_000));
}

#[test]
fn far_pixels_stop_at_the_ends_of_the_range() {
    assert_eq!(screen_to_world(Point::new(i32::MAX, i32::MAX), 1, 1), Point::new(i32::MAX, i32::MIN + 1));
    assert_eq!(screen_to_world(Point::new(i32::MIN, i32::MIN), 1, 1), Point::new(i32::MIN, i32::MAX));
    assert_eq!(
        screen_to_world(Point::new(i32::MAX, i32::MIN), u32::MAX, u32::MAX),
        Point::new(-1, 20_000_001)
    );
}
