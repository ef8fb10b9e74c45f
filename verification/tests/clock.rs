use button_automation::clock::{now_ms, timestamp_of};
use std::time::{Duration, SystemTime, UNIX_EPOCH};

#[test]
fn a_timestamp_counts_whole_milliseconds() {
    assert_eq!(timestamp_of(UNIX_EPOCH), 0);
    assert_eq!(timestamp_of(UNIX_EPOCH + Duration::from_micros(1_999)), 1);
    assert_eq!(timestamp_of(UNIX_EPOCH + Duration::from_millis(1_700_000_000_123)), 1_700_000_000_123);
}

#[test]
fn an_instant_before_the_epoch_counts_as_zero() {
    assert_eq!(timestamp_of(UNIX_EPOCH - Duration::from_secs(5)), 0);
}

#[test]
fn the_present_lies_between_two_readings_of_the_clock() {
    let before = timestamp_of(SystemTime::now());
    let now = now_ms();
    let after = timestamp_of(SystemTime::now());
    assert!(before <= now && now <= after);
    assert!(now > 1_600_000_000_000);
}
