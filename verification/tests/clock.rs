//! Spans, points on a monotonic clock, and the two clocks.

use ritualist::activation_target::ActivationTarget;
use ritualist::activity_spec::{random_duration, ActivitySchedule};
use ritualist::clock::{Clock, SystemClock, TestClock};
use ritualist::time::{Duration, Moment, MAX_DURATION_NANOS, MAX_MOMENT_NANOS};
use ritualist::utc::{UtcTime, MAX_STEP_NANOS, MAX_UTC_SECS};
use std::sync::Arc;

#[test]
fn duration_counts_nanoseconds() {
    assert_eq!(Duration::zero().as_nanos(), 0);
    assert_eq!(Duration::from_secs(3).as_nanos(), 3_000_000_000);
    assert_eq!(Duration::from_millis(500), Duration::new(0, 500_000_000));
    assert_eq!(Duration::new(1, 1_500_000_000), Duration::new(2, 500_000_000));
    assert_eq!(Duration::new(7, 9).as_secs(), 7);
    assert_eq!(Duration::new(7, 9).subsec_nanos(), 9);
    assert_eq!(Duration::new(u64::MAX, 999_999_999).as_nanos(), MAX_DURATION_NANOS);
    assert_eq!(std::time::Duration::MAX.as_nanos(), MAX_DURATION_NANOS);
    assert!(Duration::from_secs(2).at_least(&Duration::from_secs(2)));
    assert!(!Duration::from_secs(2).at_least(&Duration::new(2, 1)));
    assert_eq!(Duration::from_secs(2).plus(&Duration::from_millis(1)), Duration::new(2, 1_000_000));
}

#[test]
fn moments_reach_as_far_as_the_clock() {
    let minute = Duration::from_secs(60);
    let m = Moment::origin().checked_add(&minute).unwrap();
    assert_eq!(m, Moment::after_origin(&minute));
    assert_eq!(m.saturating_duration_since(&Moment::origin()), minute);
    assert_eq!(Moment::origin().saturating_duration_since(&m), Duration::zero());
    let last = Moment::after_origin(&Duration::new(u64::MAX, 0));
    assert_eq!(last.saturating_duration_since(&Moment::origin()).as_nanos(), MAX_MOMENT_NANOS);
    assert_eq!(last.checked_add(&Duration::new(0, 1)), None);
    assert_eq!(last.checked_add(&Duration::zero()), Some(last));
}

#[test]
fn test_clock_is_frozen_until_told_to_advance() {
    let start = UtcTime::now();
    let clock = TestClock::new(start);
    assert_eq!(clock.now(), clock.now());
    assert_eq!(clock.now(), Moment::origin());
    assert_eq!(clock.now_utc(), start);
}

#[test]
fn test_clock_moves_both_views_together() {
    let clock = TestClock::new(UtcTime::now());
    let start = clock.now();
    let start_utc = clock.now_utc();

    assert!(clock.advance(Duration::from_secs(60)));

    assert_eq!(clock.now().saturating_duration_since(&start), Duration::from_secs(60));
    assert_eq!(clock.now_utc().millis_since(&start_utc), 60_000);
}

#[test]
fn test_clock_advances_add_up() {
    let start = UtcTime::new(1_700_000_000, 0).unwrap();
    let clock = TestClock::new(start);
    assert!(clock.advance(Duration::new(0, 700_000_000)));
    assert!(clock.advance(Duration::new(1, 500_000_000)));
    let state = clock.state();
    assert_eq!(state.mono, Moment::after_origin(&Duration::new(2, 200_000_000)));
    assert_eq!(state.utc, UtcTime::new(1_700_000_002, 200_000_000).unwrap());
}

#[test]
fn test_clock_clones_share_their_state() {
    let clock = TestClock::new(UtcTime::now());
    let reading: Arc<dyn Clock> = Arc::new(clock.clone());
    let start = reading.now();
    assert!(clock.advance(Duration::from_secs(5)));
    assert_eq!(reading.now().saturating_duration_since(&start), Duration::from_secs(5));
}

#[test]
fn test_clock_stays_where_it_is_rather_than_leave_its_range() {
    let start = UtcTime::new(MAX_UTC_SECS, 0).unwrap();
    let clock = TestClock::new(start);
    assert!(!clock.advance(Duration::from_secs(1)));
    assert_eq!(clock.now(), Moment::origin());
    assert_eq!(clock.now_utc(), start);
    assert!(clock.advance(Duration::from_millis(999)));
    let longest = Duration::from_millis(i64::MAX as u64);
    assert_eq!(longest.as_nanos(), MAX_STEP_NANOS);
    assert!(!clock.advance(longest));
    assert!(clock.advance(Duration::zero()));
}

#[test]
fn the_longest_step_is_that_of_chrono() {
    let secs = (MAX_STEP_NANOS / 1_000_000_000) as u64;
    let nanos = (MAX_STEP_NANOS % 1_000_000_000) as u32;
    assert!(chrono::TimeDelta::from_std(std::time::Duration::new(secs, nanos)).is_ok());
    assert!(chrono::TimeDelta::from_std(std::time::Duration::new(secs, nanos + 1)).is_err());
}

#[test]
fn system_clock_does_not_go_back() {
    let clock = SystemClock::default();
    let start = clock.now();
    let later = clock.now();
    assert!(later >= start);
    let shared = clock.clone();
    assert!(shared.now() >= later);
    // Its origin is where it was made, so little time has gone by.
    assert!(later < Moment::after_origin(&Duration::from_secs(3600)));
}

#[test]
fn system_clock_shows_the_time_since_its_origin() {
    assert_eq!(SystemClock::shown_after(0, 0), Moment::origin());
    assert_eq!(SystemClock::shown_after(3, 5), Moment::after_origin(&Duration::new(3, 5)));
    let last = Moment::origin().checked_add(&Duration::new(i64::MAX as u64, 999_999_999)).unwrap();
    assert_eq!(SystemClock::shown_after(i64::MAX as u64, 999_999_999), last);
    assert_eq!(SystemClock::shown_after(i64::MAX as u64 + 1, 0), last);
    assert_eq!(SystemClock::shown_after(u64::MAX, 999_999_999), last);
    assert!(SystemClock::shown_after(3, 5) <= SystemClock::shown_after(3, 6));
    assert!(SystemClock::shown_after(3, 999_999_999) <= SystemClock::shown_after(4, 0));
}

#[test]
fn system_clock_measures_time_that_goes_by() {
    let clock = SystemClock::new();
    let start = clock.now();
    let from = UtcTime::now();
    while UtcTime::now().millis_since(&from) < 20 {}
    let elapsed = clock.now().saturating_duration_since(&start);
    assert!(elapsed.at_least(&Duration::from_millis(5)));
}

#[test]
fn system_clock_reads_the_wall_clock() {
    let before = UtcTime::now();
    let now = SystemClock::new().now_utc();
    assert!(now.at_or_after(&before));
    assert!(now.millis_since(&before) < 3_600_000);
}

#[test]
fn random_spans_lie_in_range_and_vary() {
    let min = Duration::new(10, 5);
    let max = Duration::from_secs(20);
    let drawn: Vec<Duration> = (0..200).map(|_| random_duration(&min, &max)).collect();
    assert!(drawn.iter().all(|d| min <= *d && *d < max));
    assert!(drawn.iter().any(|d| *d != drawn[0]));
    assert!(drawn.iter().any(|d| *d != min));
}

#[test]
fn random_span_of_a_single_choice() {
    let min = Duration::new(4, 999_999_999);
    let max = Duration::from_secs(5);
    assert_eq!(random_duration(&min, &max), min);
}

#[test]
fn targets_come_from_schedules() {
    let date = UtcTime::now();
    assert_eq!(
        ActivationTarget::from(ActivitySchedule::Scheduled { date }),
        ActivationTarget::Date(date)
    );
    let duration = Duration::from_secs(30);
    assert_eq!(
        ActivationTarget::from(ActivitySchedule::FixedInterval { duration }),
        ActivationTarget::Duration(duration)
    );
    let min = Duration::from_secs(1);
    let max = Duration::from_secs(100_000);
    let schedule = ActivitySchedule::RandomInterval { min, max };
    let first = ActivationTarget::from(schedule);
    assert!((0..50).any(|_| ActivationTarget::from(schedule) != first));
}
