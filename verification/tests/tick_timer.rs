use snake_game::TickTimer;

#[test]
fn new_timer_has_gathered_nothing() {
    assert_eq!(TickTimer::new().accumulated(), 0);
}

#[test]
fn elapsed_time_adds_up() {
    let mut timer = TickTimer::new();
    timer.add_elapsed(16_667);
    timer.add_elapsed(16_667);
    assert_eq!(timer.accumulated(), 33_334);
}

#[test]
fn elapsed_time_stops_at_the_largest_number() {
    let mut timer = TickTimer::new();
    timer.add_elapsed(u64::MAX - 1);
    timer.add_elapsed(5);
    assert_eq!(timer.accumulated(), u64::MAX);
    timer.add_elapsed(u64::MAX);
    assert_eq!(timer.accumulated(), u64::MAX);
}

#[test]
fn tick_is_due_once_the_interval_has_passed() {
    let mut timer = TickTimer::new();
    timer.add_elapsed(499_999);
    assert!(!timer.is_due(500_000));
    assert!(!timer.consume_tick_if_due(500_000));
    assert_eq!(timer.accumulated(), 499_999);
    timer.add_elapsed(1);
    assert!(timer.is_due(500_000));
    assert!(timer.consume_tick_if_due(500_000));
    assert_eq!(timer.accumulated(), 0);
    assert!(!timer.consume_tick_if_due(500_000));
}

#[test]
fn overdue_time_is_dropped_with_the_tick() {
    let mut timer = TickTimer::new();
    timer.add_elapsed(1_700_000);
    assert!(timer.consume_tick_if_due(500_000));
    assert_eq!(timer.accumulated(), 0);
}

#[test]
fn interval_of_zero_or_less_is_always_due() {
    let mut timer = TickTimer::new();
    assert!(timer.is_due(0));
    assert!(timer.is_due(-25_000));
    assert!(timer.is_due(i64::MIN));
    assert!(timer.consume_tick_if_due(0));
    assert!(timer.consume_tick_if_due(-1));
    assert_eq!(timer.accumulated(), 0);
    assert!(!timer.is_due(1));
    assert!(!timer.is_due(i64::MAX));
}
