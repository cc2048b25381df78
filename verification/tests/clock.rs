use typoo::clock::{SessionClock, NANOS_PER_SECOND, SESSION_NANOS, SESSION_SECONDS};

#[test]
fn a_session_lasts_thirty_seconds() {
    assert_eq!(SESSION_SECONDS, 30);
    assert_eq!(NANOS_PER_SECOND, 1_000_000_000);
    assert_eq!(SESSION_NANOS, 30_000_000_000);
}

#[test]
fn elapsed_is_the_time_since_the_start() {
    let clock = SessionClock::start_at(1_000);
    assert_eq!(clock.start(), 1_000);
    assert_eq!(clock.elapsed(1_000), 0);
    assert_eq!(clock.elapsed(1_001), 1);
    assert_eq!(clock.elapsed(5_000_001_000), 5_000_000_000);
    assert_eq!(clock.elapsed(u64::MAX), u64::MAX - 1_000);
}

#[test]
fn a_reading_from_before_the_start_counts_as_the_start() {
    let clock = SessionClock::start_at(1_000);
    assert_eq!(clock.elapsed(999), 0);
    assert_eq!(clock.elapsed(0), 0);
    assert_eq!(clock.remaining(0), SESSION_NANOS);
    assert!(!clock.is_expired(0));
}

#[test]
fn remaining_counts_down_to_zero_and_stays_there() {
    let clock = SessionClock::start_at(500);
    assert_eq!(clock.remaining(500), 30_000_000_000);
    assert_eq!(clock.remaining(501), 29_999_999_999);
    assert_eq!(clock.remaining(500 + 12_345_678_901), 17_654_321_099);
    assert_eq!(clock.remaining(500 + SESSION_NANOS - 1), 1);
    assert_eq!(clock.remaining(500 + SESSION_NANOS), 0);
    assert_eq!(clock.remaining(500 + SESSION_NANOS + 1), 0);
    assert_eq!(clock.remaining(u64::MAX), 0);
}

#[test]
fn the_timer_shows_whole_seconds_rounded_down() {
    let clock = SessionClock::start_at(0);
    assert_eq!(clock.remaining_secs(0), 30);
    assert_eq!(clock.remaining_secs(1), 29);
    assert_eq!(clock.remaining_secs(999_999_999), 29);
    assert_eq!(clock.remaining_secs(1_000_000_000), 29);
    assert_eq!(clock.remaining_secs(1_000_000_001), 28);
    assert_eq!(clock.remaining_secs(29_000_000_000), 1);
    assert_eq!(clock.remaining_secs(29_000_000_001), 0);
    assert_eq!(clock.remaining_secs(30_000_000_000), 0);
    assert_eq!(clock.remaining_secs(u64::MAX), 0);
}

#[test]
fn expiry_is_exact_to_the_nanosecond() {
    let clock = SessionClock::start_at(7);
    assert!(!clock.is_expired(7));
    assert!(!clock.is_expired(7 + SESSION_NANOS - 1));
    assert!(clock.is_expired(7 + SESSION_NANOS));
    assert!(clock.is_expired(7 + SESSION_NANOS + 1));
    assert!(clock.is_expired(u64::MAX));
}

#[test]
fn expired_exactly_when_nothing_remains() {
    let clock = SessionClock::start_at(1_000_000);
    let mut now = 0u64;
    while now < 40_000_000_000 {
        assert_eq!(clock.is_expired(now), clock.remaining(now) == 0);
        if !clock.is_expired(now) {
            assert_eq!(clock.elapsed(now) + clock.remaining(now), SESSION_NANOS);
        }
        now += 123_456_789;
    }
}

#[test]
fn the_clock_never_runs_backwards() {
    let clock = SessionClock::start_at(10);
    let readings = [0u64, 10, 11, 1_000, 29_999_999_999, 30_000_000_009, 30_000_000_010, u64::MAX];
    for pair in readings.windows(2) {
        assert!(clock.elapsed(pair[0]) <= clock.elapsed(pair[1]));
        assert!(clock.remaining(pair[0]) >= clock.remaining(pair[1]));
        assert!(!clock.is_expired(pair[0]) || clock.is_expired(pair[1]));
    }
}
