use std::time::Duration;

use moeb::retry::{compute_delay, delay_nanos};

#[test]
fn anthropic_retry_delay_first_attempt_within_bounds() {
    let delay = Duration::from_nanos(compute_delay(0, None) as u64);
    assert!(delay >= Duration::from_millis(750), "delay too short: {:?}", delay);
    assert!(delay <= Duration::from_millis(1250), "delay too long: {:?}", delay);
}

#[test]
fn retry_after_is_used_as_is() {
    assert_eq!(compute_delay(3, Some(7)), 7_000_000_000);
    assert_eq!(compute_delay(0, Some(0)), 0);
}

#[test]
fn backoff_doubles_and_caps_at_sixty_four_seconds() {
    assert_eq!(delay_nanos(0, None, 0), 750_000_000);
    assert_eq!(delay_nanos(1, None, 0), 1_500_000_000);
    assert_eq!(delay_nanos(3, None, 5_000), 8 * 1_000_000_000);
    assert_eq!(delay_nanos(6, None, 0), 48_000_000_000);
    assert_eq!(delay_nanos(40, None, 9_999), 64 * (15_000 + 9_999) as u128 * 50_000);
}

#[test]
fn jitter_uses_last_four_digits_of_sample() {
    assert_eq!(delay_nanos(0, None, 123_456_789), delay_nanos(0, None, 6_789));
    assert_eq!(delay_nanos(0, None, 10_000), 750_000_000);
}

#[test]
fn later_attempts_wait_longer() {
    let d = compute_delay(2, None);
    assert!(d >= 3_000_000_000 && d < 5_000_000_000);
}
