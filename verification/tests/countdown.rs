use whack_a_mole::timer::{Countdown, CountdownMode};

const SEC: u64 = 1_000_000_000;

#[test]
fn once_countdown_finishes_on_reaching_its_duration() {
    let mut c = Countdown::new(2 * SEC, CountdownMode::Once);
    assert!(!c.finished());
    assert!(!c.just_finished());
    assert_eq!(c.remaining_nanos(), 2 * SEC);
    c.tick(SEC / 2);
    assert!(!c.finished());
    assert_eq!(c.remaining_nanos(), 3 * SEC / 2);
    c.tick(2 * SEC);
    assert!(c.finished());
    assert!(c.just_finished());
    assert_eq!(c.remaining_nanos(), 0);
    c.tick(SEC);
    assert!(c.finished());
    assert!(!c.just_finished());
    assert_eq!(c.remaining_nanos(), 0);
}

#[test]
fn repeating_countdown_wraps_around() {
    let mut c = Countdown::new(SEC, CountdownMode::Repeating);
    c.tick(SEC / 2);
    assert!(!c.just_finished());
    assert_eq!(c.remaining_nanos(), SEC / 2);
    c.tick(2 * SEC);
    assert!(c.just_finished());
    assert!(c.finished());
    assert_eq!(c.remaining_nanos(), SEC / 2);
    c.tick(SEC / 4);
    assert!(!c.just_finished());
    assert!(!c.finished());
    assert_eq!(c.remaining_nanos(), SEC / 4);
}

#[test]
fn zero_length_once_countdown_finishes_on_first_tick() {
    let mut c = Countdown::new(0, CountdownMode::Once);
    assert!(!c.finished());
    c.tick(0);
    assert!(c.finished());
    assert!(c.just_finished());
}

#[test]
fn countdown_over_exactly_its_duration_finishes() {
    let mut c = Countdown::new(SEC, CountdownMode::Once);
    c.tick(SEC - 1);
    assert!(!c.just_finished());
    assert_eq!(c.remaining_nanos(), 1);
    c.tick(1);
    assert!(c.just_finished());
}

#[test]
fn repeating_finish_count_is_cut_to_u32() {
    // One nanosecond intervals, 2^32 of them in one tick: the count of
    // finishes wraps to zero, so the tick does not count as a finish.
    let mut c = Countdown::new(1, CountdownMode::Repeating);
    c.tick(1u64 << 32);
    assert!(c.finished());
    assert!(!c.just_finished());
    c.tick(3);
    assert!(c.just_finished());
}

#[test]
fn zero_length_repeating_countdown_fires_every_tick() {
    let mut c = Countdown::new(0, CountdownMode::Repeating);
    c.tick(0);
    assert!(c.just_finished());
    assert_eq!(c.remaining_nanos(), 0);
}
