use rune_arena::timer::{Timer, TimerMode};

#[test]
fn once_timer_finishes_at_its_duration() {
    let mut t = Timer::from_duration(3_000, TimerMode::Once);
    assert!(!t.finished());
    t.tick(1_000);
    assert!(!t.finished());
    assert_eq!(t.elapsed(), 1_000);
    assert_eq!(t.remaining(), 2_000);
    t.tick(2_000);
    assert!(t.finished());
    assert!(t.just_finished());
    assert_eq!(t.elapsed(), 3_000);
}

#[test]
fn once_timer_stays_finished_until_reset() {
    let mut t = Timer::from_duration(10, TimerMode::Once);
    t.tick(25);
    assert!(t.finished());
    assert_eq!(t.elapsed(), 10);
    t.tick(5);
    assert!(t.finished());
    assert!(!t.just_finished());
    t.reset();
    assert!(!t.finished());
    assert_eq!(t.elapsed(), 0);
    assert_eq!(t.duration(), 10);
}

#[test]
fn repeating_timer_counts_run_outs_and_keeps_remainder() {
    let mut t = Timer::from_duration(10, TimerMode::Repeating);
    t.tick(35);
    assert!(t.finished());
    assert_eq!(t.times_finished_this_tick(), 3);
    assert_eq!(t.elapsed(), 5);
    t.tick(2);
    assert!(!t.finished());
    assert_eq!(t.times_finished_this_tick(), 0);
    assert_eq!(t.elapsed(), 7);
    assert_eq!(t.mode(), TimerMode::Repeating);
}

#[test]
fn zero_length_timer_is_not_finished_before_a_tick() {
    let mut t = Timer::from_duration(0, TimerMode::Once);
    assert!(!t.finished());
    t.tick(0);
    assert!(t.finished());
}
