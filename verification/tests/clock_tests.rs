use particle_tracker::clock::{TickTimer, TICK_PERIOD};

#[test]
fn tick_period_is_a_quarter_of_a_second() {
    assert_eq!(TICK_PERIOD, 250_000);
    assert_eq!(TICK_PERIOD * 4, particle_tracker::tracker::TIME_UNIT);
}

#[test]
fn new_timer_has_gathered_nothing() {
    assert_eq!(TickTimer::new().pending, 0);
}

#[test]
fn tick_falls_due_when_a_period_has_gathered() {
    let mut timer = TickTimer::new();
    assert!(!timer.advance(100_000));
    assert_eq!(timer.pending, 100_000);
    assert!(!timer.advance(100_000));
    assert_eq!(timer.pending, 200_000);
    assert!(timer.advance(100_000));
    assert_eq!(timer.pending, 50_000);
    assert!(!timer.advance(199_999));
    assert_eq!(timer.pending, 249_999);
    assert!(timer.advance(1));
    assert_eq!(timer.pending, 0);
}

#[test]
fn a_long_wait_leaves_ticks_for_later() {
    let mut timer = TickTimer::new();
    assert!(timer.advance(600_000));
    assert_eq!(timer.pending, 350_000);
    assert!(timer.advance(0));
    assert_eq!(timer.pending, 100_000);
    assert!(!timer.advance(0));
    assert_eq!(timer.pending, 100_000);
}

#[test]
fn gathered_time_stops_at_the_largest_value() {
    let mut timer = TickTimer { pending: 50_000 };
    assert!(timer.advance(u32::MAX));
    assert_eq!(timer.pending, u32::MAX - 250_000);
    let mut full = TickTimer { pending: u32::MAX };
    assert!(full.advance(u32::MAX));
    assert_eq!(full.pending, u32::MAX - 250_000);
}
