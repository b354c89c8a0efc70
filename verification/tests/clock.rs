use sark::clock::{ticks_of, Clock, LAST_READING};

#[test]
fn milliseconds_are_ticks() {
    assert_eq!(ticks_of(0), 0);
    assert_eq!(ticks_of(1), 1);
    assert_eq!(ticks_of(1500), 1500);
    assert_eq!(ticks_of(LAST_READING as u128 - 1), LAST_READING - 1);
    assert_eq!(ticks_of(LAST_READING as u128), LAST_READING);
}

#[test]
fn ticks_stop_at_the_last_reading() {
    assert_eq!(LAST_READING, u64::MAX / 2);
    assert_eq!(ticks_of(LAST_READING as u128 + 1), LAST_READING);
    assert_eq!(ticks_of(u64::MAX as u128), LAST_READING);
    assert_eq!(ticks_of(1u128 << 64), LAST_READING);
    assert_eq!(ticks_of(u128::MAX), LAST_READING);
}

#[test]
fn a_clock_goes_forward_and_stays_below_its_last_reading() {
    let clock = Clock::start();
    let first = clock.now();
    let second = clock.now();
    assert!(first <= second);
    assert!(second <= LAST_READING);
}
