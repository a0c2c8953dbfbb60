//! Wall-clock times, held against `chrono`.

use chrono::{DateTime, TimeDelta, Timelike, Utc};
use ritualist::time::Duration;
use ritualist::utc::{UtcTime, MAX_UTC_SECS, MIN_UTC_SECS};

fn at(secs: i64, nanos: u32) -> UtcTime {
    UtcTime::new(secs, nanos).unwrap()
}

fn parts(t: UtcTime) -> (i64, u32) {
    (t.timestamp(), t.subsec_nanos())
}

fn chrono_parts(t: DateTime<Utc>) -> (i64, u32) {
    (t.timestamp(), t.timestamp_subsec_nanos())
}

/// The point in time as `chrono` has it, with a leap second after any second.
fn chrono_at(secs: i64, nanos: u32) -> Option<DateTime<Utc>> {
    let whole = DateTime::from_timestamp(secs, 0)?.naive_utc();
    Some(whole.with_nanosecond(nanos)?.and_utc())
}

#[test]
fn range_is_that_of_chrono() {
    assert_eq!(MIN_UTC_SECS, DateTime::<Utc>::MIN_UTC.timestamp());
    assert_eq!(MAX_UTC_SECS, DateTime::<Utc>::MAX_UTC.timestamp());
}

#[test]
fn new_takes_what_chrono_takes() {
    let all_secs = [
        MIN_UTC_SECS - 1,
        MIN_UTC_SECS,
        MIN_UTC_SECS + 59,
        -60,
        -1,
        0,
        58,
        59,
        60,
        119,
        1_700_000_000,
        MAX_UTC_SECS,
        MAX_UTC_SECS + 1,
        i64::MIN,
        i64::MAX,
    ];
    let all_nanos = [0, 1, 999_999_999, 1_000_000_000, 1_999_999_999, 2_000_000_000, u32::MAX];
    for secs in all_secs {
        for nanos in all_nanos {
            let expected = chrono_at(secs, nanos).map(chrono_parts);
            assert_eq!(UtcTime::new(secs, nanos).map(parts), expected, "{secs} {nanos}");
        }
    }
}

/// Points in time, leap seconds and both ends of the calendar among them.
fn points() -> Vec<(i64, u32)> {
    vec![
        (MIN_UTC_SECS, 0),
        (MIN_UTC_SECS + 59, 1_000_000_001),
        (-86_401, 1_999_999),
        (-1, 500_000_000),
        (-1, 1_500_000_000),
        (0, 0),
        (0, 999_999),
        (0, 1_500_000_000),
        (7, 1_999_999_999),
        (59, 999_999_999),
        (59, 1_000_000_000),
        (59, 1_500_000_000),
        (59, 1_999_999_999),
        (60, 0),
        (86_399, 1_250_000_000),
        (86_400, 0),
        (172_740, 500_000_000),
        (1_700_000_000, 250_000_000),
        (1_700_000_000, 1_250_000_000),
        (MAX_UTC_SECS, 0),
        (MAX_UTC_SECS, 999_999_999),
        (MAX_UTC_SECS, 1_500_000_000),
        (MAX_UTC_SECS, 1_999_999_999),
    ]
}

/// Spans, some of which lead out of the calendar.
fn spans() -> Vec<(u64, u32)> {
    vec![
        (0, 0),
        (0, 1),
        (0, 499_999_999),
        (0, 500_000_000),
        (0, 999_999_999),
        (1, 0),
        (1, 750_000_000),
        (86_400, 0),
        (9_000_000_000_000, 0),
        (16_544_868_105_599, 0),
        (16_544_868_105_599, 999_999_999),
        (16_544_868_105_600, 0),
    ]
}

#[test]
fn checked_add_does_what_chrono_does() {
    for (secs, nanos) in points() {
        for (by_secs, by_nanos) in spans() {
            let by = TimeDelta::from_std(std::time::Duration::new(by_secs, by_nanos)).unwrap();
            let expected = chrono_at(secs, nanos)
                .unwrap()
                .checked_add_signed(by)
                .map(chrono_parts);
            let sum = at(secs, nanos).checked_add(&Duration::new(by_secs, by_nanos));
            assert_eq!(sum.map(parts), expected, "{secs} {nanos} + {by_secs} {by_nanos}");
        }
    }
}

#[test]
fn checked_add_follows_the_line_of_time() {
    for (secs, nanos) in points() {
        for (by_secs, by_nanos) in spans() {
            let by: i128 = by_secs as i128 * 1_000_000_000 + by_nanos as i128;
            let nanos_wide: i128 = nanos as i128;
            let in_leap = nanos >= 1_000_000_000;
            let expected: (i128, i128) = if in_leap && nanos_wide + by < 2_000_000_000 {
                (secs as i128, nanos_wide + by)
            } else {
                let place: i128 = secs as i128 * 1_000_000_000 + nanos_wide
                    - if in_leap { 1_000_000_000 } else { 0 };
                ((place + by).div_euclid(1_000_000_000), (place + by).rem_euclid(1_000_000_000))
            };
            let sum = at(secs, nanos)
                .checked_add(&Duration::new(by_secs, by_nanos))
                .map(|t| (t.timestamp() as i128, t.subsec_nanos() as i128));
            let reachable = expected.0 <= MAX_UTC_SECS as i128;
            assert_eq!(sum, if reachable { Some(expected) } else { None });
        }
    }
}

#[test]
fn checked_add_of_a_span_too_long_for_chrono_is_none() {
    assert_eq!(at(0, 0).checked_add(&Duration::from_secs(u64::MAX)), None);
    assert_eq!(at(MIN_UTC_SECS, 0).checked_add(&Duration::new(u64::MAX, 999_999_999)), None);
}

#[test]
fn checked_add_crosses_midnight() {
    // 2023-12-31T23:59:59.5 and a second and a half.
    let t = at(1_704_067_199, 500_000_000);
    assert_eq!(t.checked_add(&Duration::new(1, 500_000_000)), Some(at(1_704_067_201, 0)));
}

#[test]
fn a_leap_second_may_follow_any_second() {
    let t = at(0, 1_500_000_000);
    assert_eq!(parts(t), (0, 1_500_000_000));
    assert_eq!(t.checked_add(&Duration::from_millis(250)), Some(at(0, 1_750_000_000)));
    assert_eq!(t.checked_add(&Duration::from_millis(500)), Some(at(1, 0)));
    assert_eq!(at(1, 0).millis_since(&t), 500);
    assert_eq!(UtcTime::new(0, 2_000_000_000), None);
}

#[test]
fn time_stays_in_a_leap_second_until_it_is_over() {
    let leap = at(59, 1_250_000_000);
    assert_eq!(leap.checked_add(&Duration::from_millis(500)), Some(at(59, 1_750_000_000)));
    assert_eq!(leap.checked_add(&Duration::from_millis(750)), Some(at(60, 0)));
    assert_eq!(leap.checked_add(&Duration::from_secs(1)), Some(at(60, 250_000_000)));
}

#[test]
fn millis_since_does_what_chrono_does() {
    for later in points() {
        for earlier in points() {
            let expected = chrono_at(later.0, later.1)
                .unwrap()
                .signed_duration_since(chrono_at(earlier.0, earlier.1).unwrap())
                .num_milliseconds();
            let millis = at(later.0, later.1).millis_since(&at(earlier.0, earlier.1));
            assert_eq!(millis, expected, "{later:?} - {earlier:?}");
        }
    }
}

#[test]
fn millis_since_counts_leap_seconds_by_time_of_day() {
    for later in points() {
        for earlier in points() {
            let later_of_day = later.0.rem_euclid(86_400);
            let earlier_of_day = earlier.0.rem_euclid(86_400);
            let leap: i128 = if later_of_day > earlier_of_day && earlier.1 >= 1_000_000_000 {
                1_000_000_000
            } else if later_of_day < earlier_of_day && later.1 >= 1_000_000_000 {
                -1_000_000_000
            } else {
                0
            };
            let nanos: i128 = (later.0 as i128 - earlier.0 as i128) * 1_000_000_000
                + (later.1 as i128 - earlier.1 as i128)
                + leap;
            let millis = at(later.0, later.1).millis_since(&at(earlier.0, earlier.1));
            assert_eq!(millis as i128, nanos / 1_000_000, "{later:?} - {earlier:?}");
        }
    }
}

#[test]
fn millis_since_rounds_towards_zero() {
    assert_eq!(at(0, 1_999_999).millis_since(&at(0, 0)), 1);
    assert_eq!(at(0, 0).millis_since(&at(0, 1_999_999)), -1);
    assert_eq!(at(100, 0).millis_since(&at(0, 500_000)), 99_999);
}

#[test]
fn order_is_by_seconds_and_nanoseconds() {
    let leap = at(59, 1_000_000_000);
    assert!(at(60, 0).at_or_after(&leap));
    assert!(leap.at_or_after(&at(59, 999_999_999)));
    assert!(leap.at_or_after(&leap));
    assert!(!at(59, 999_999_999).at_or_after(&leap));
    assert!(!at(-5, 0).at_or_after(&at(-4, 0)));
}

#[test]
fn now_is_the_system_time() {
    let before = Utc::now();
    let now = UtcTime::now();
    let after = Utc::now();
    assert!(chrono_parts(before) <= parts(now));
    assert!(parts(now) <= chrono_parts(after));
    assert!(now.subsec_nanos() < 1_000_000_000);
}
