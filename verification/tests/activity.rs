//! One activity on a clock that the test moves.

use ritualist::ack::AckMessage;
use ritualist::activation_target::ActivationTarget;
use ritualist::activity::{Activity, ActivityState};
use ritualist::activity_spec::{ActivitySchedule, ActivitySpec};
use ritualist::clock::TestClock;
use ritualist::time::Duration;
use ritualist::utc::UtcTime;
use std::sync::Arc;

const ID: u32 = 1;

fn fixed(secs: u64) -> ActivitySchedule {
    ActivitySchedule::FixedInterval {
        duration: Duration::from_secs(secs),
    }
}

fn scheduled(date: UtcTime) -> ActivitySchedule {
    ActivitySchedule::Scheduled { date }
}

/// An activity that reads `clock`, created at what it shows.
fn build(clock: &TestClock, schedule: ActivitySchedule) -> Activity<u32> {
    Activity::new(ActivitySpec { id: ID, schedule }, Arc::new(clock.clone()))
}

/// The point that lies `secs` seconds after `start`.
fn after(start: UtcTime, secs: u64) -> UtcTime {
    start.checked_add(&Duration::from_secs(secs)).unwrap()
}

/// Ticks an activity that has room for it.
fn tick(activity: &mut Activity<u32>) {
    assert!(activity.can_tick());
    activity.tick();
}

/// How close the activity is to firing, as a percentage.
fn percent(activity: &Activity<u32>) -> f64 {
    let progress = activity.progress();
    progress.part as f64 / progress.whole as f64 * 100.0
}

fn duration_target(activity: &Activity<u32>) -> Duration {
    match activity.activation_target {
        ActivationTarget::Duration(d) => d,
        ActivationTarget::Date(_) => panic!("expected a duration target"),
    }
}

// ---- construction -----------------------------------------------------

#[test]
fn new_fixed_interval_starts_idle_with_duration_target() {
    let clock = TestClock::new(UtcTime::now());

    let activity = build(&clock, fixed(60));

    assert_eq!(activity.state, ActivityState::Idle);
    assert_eq!(activity.duration_delta, Duration::zero());
    assert_eq!(activity.last_run_at, None);
    assert_eq!(
        activity.activation_target,
        ActivationTarget::Duration(Duration::from_secs(60))
    );
}

#[test]
fn new_scheduled_starts_idle_with_date_target() {
    let start = UtcTime::now();
    let target = after(start, 60);
    let clock = TestClock::new(start);

    let activity = build(&clock, scheduled(target));

    assert_eq!(activity.state, ActivityState::Idle);
    assert_eq!(activity.activation_target, ActivationTarget::Date(target));
    assert_eq!(activity.created_at, start);
}

#[test]
fn new_random_interval_picks_target_within_range() {
    let clock = TestClock::new(UtcTime::now());
    let schedule = ActivitySchedule::RandomInterval {
        min: Duration::from_secs(10),
        max: Duration::from_secs(20),
    };

    let target = duration_target(&build(&clock, schedule));

    assert!(
        (Duration::from_secs(10)..Duration::from_secs(20)).contains(&target),
        "random target {target:?} should fall within [10s, 20s)"
    );
}

// ---- tick / progress accumulation ------------------------------------

#[test]
fn tick_accumulates_elapsed_time_while_idle() {
    let clock = TestClock::new(UtcTime::now());
    let mut activity = build(&clock, fixed(100));

    assert!(clock.advance(Duration::from_secs(30)));
    tick(&mut activity);

    assert_eq!(activity.duration_delta, Duration::from_secs(30));
}

#[test]
fn tick_accumulates_across_multiple_advances() {
    let clock = TestClock::new(UtcTime::now());
    let mut activity = build(&clock, fixed(100));

    assert!(clock.advance(Duration::from_secs(10)));
    tick(&mut activity);
    assert!(clock.advance(Duration::from_secs(15)));
    tick(&mut activity);

    assert_eq!(activity.duration_delta, Duration::from_secs(25));
}

#[test]
fn tick_progresses_while_snoozed() {
    let clock = TestClock::new(UtcTime::now());
    let mut activity = build(&clock, fixed(100));
    activity.state = ActivityState::Snoozed(Duration::from_secs(100));

    assert!(clock.advance(Duration::from_secs(40)));
    tick(&mut activity);

    assert_eq!(activity.duration_delta, Duration::from_secs(40));
}

#[test]
fn tick_does_not_progress_while_running() {
    let clock = TestClock::new(UtcTime::now());
    let mut activity = build(&clock, fixed(100));
    activity.state = ActivityState::Running;

    assert!(clock.advance(Duration::from_secs(40)));
    tick(&mut activity);

    assert_eq!(activity.duration_delta, Duration::zero());
}

#[test]
fn tick_does_not_progress_while_disabled() {
    let clock = TestClock::new(UtcTime::now());
    let mut activity = build(&clock, fixed(100));
    activity.set_enabled(false);

    assert!(clock.advance(Duration::from_secs(40)));
    tick(&mut activity);

    assert_eq!(activity.duration_delta, Duration::zero());
}

// ---- should_run -------------------------------------------------------

#[test]
fn duration_activity_not_due_before_target() {
    let clock = TestClock::new(UtcTime::now());
    let mut activity = build(&clock, fixed(100));

    assert!(clock.advance(Duration::from_secs(99)));
    tick(&mut activity);

    assert!(!activity.should_run());
}

#[test]
fn duration_activity_due_when_delta_meets_target() {
    let clock = TestClock::new(UtcTime::now());
    let mut activity = build(&clock, fixed(100));

    assert!(clock.advance(Duration::from_secs(100)));
    tick(&mut activity);

    assert!(activity.should_run());
}

#[test]
fn snoozed_activity_becomes_due_after_snooze_elapses() {
    let clock = TestClock::new(UtcTime::now());
    let mut activity = build(&clock, fixed(100));
    activity.state = ActivityState::Snoozed(Duration::from_secs(30));
    activity.activation_target = ActivationTarget::Duration(Duration::from_secs(30));

    assert!(clock.advance(Duration::from_secs(30)));
    tick(&mut activity);

    assert!(activity.should_run());
}

#[test]
fn date_activity_not_due_before_target_date() {
    let start = UtcTime::now();
    let target = after(start, 100);
    let clock = TestClock::new(start);
    let activity = build(&clock, scheduled(target));

    assert!(clock.advance(Duration::from_secs(99)));

    assert!(!activity.should_run());
}

#[test]
fn date_activity_due_at_target_date() {
    let start = UtcTime::now();
    let target = after(start, 100);
    let clock = TestClock::new(start);
    let activity = build(&clock, scheduled(target));

    assert!(clock.advance(Duration::from_secs(100)));

    assert!(activity.should_run());
}

#[test]
fn not_due_when_running_even_if_target_reached() {
    let clock = TestClock::new(UtcTime::now());
    let mut activity = build(&clock, fixed(100));
    assert!(clock.advance(Duration::from_secs(100)));
    tick(&mut activity);
    activity.state = ActivityState::Running;

    assert!(!activity.should_run());
}

#[test]
fn not_due_when_completed() {
    let clock = TestClock::new(UtcTime::now());
    let mut activity = build(&clock, fixed(100));
    assert!(clock.advance(Duration::from_secs(100)));
    tick(&mut activity);
    activity.state = ActivityState::Completed;

    assert!(!activity.should_run());
}

// ---- claim_if_due --------------------------------------------------------

#[test]
fn claim_if_due_marks_running_and_returns_id_when_due() {
    let clock = TestClock::new(UtcTime::now());
    let mut activity = build(&clock, fixed(100));
    assert!(clock.advance(Duration::from_secs(100)));
    tick(&mut activity);

    let claimed = activity.claim_if_due();

    assert_eq!(claimed, Some(ID));
    assert_eq!(activity.state, ActivityState::Running);
    assert_eq!(activity.duration_delta, Duration::zero());
}

#[test]
fn claim_if_due_returns_none_and_leaves_state_when_not_due() {
    let clock = TestClock::new(UtcTime::now());
    let mut activity = build(&clock, fixed(100));
    assert!(clock.advance(Duration::from_secs(50)));
    tick(&mut activity);

    let claimed = activity.claim_if_due();

    assert_eq!(claimed, None);
    assert_eq!(activity.state, ActivityState::Idle);
    assert_eq!(activity.duration_delta, Duration::from_secs(50));
}

// ---- set_enabled ------------------------------------------------------

#[test]
fn disable_wraps_current_state() {
    let clock = TestClock::new(UtcTime::now());
    let mut activity = build(&clock, fixed(100));

    activity.set_enabled(false);

    assert_eq!(
        activity.state,
        ActivityState::Disabled(Box::new(ActivityState::Idle))
    );
}

#[test]
fn enable_restores_previous_state() {
    let clock = TestClock::new(UtcTime::now());
    let mut activity = build(&clock, fixed(100));
    let snoozed = ActivityState::Snoozed(Duration::from_secs(5));
    activity.state = snoozed.clone();

    activity.set_enabled(false);
    activity.set_enabled(true);

    assert_eq!(activity.state, snoozed);
}

#[test]
fn disable_is_idempotent() {
    let clock = TestClock::new(UtcTime::now());
    let mut activity = build(&clock, fixed(100));

    activity.set_enabled(false);
    activity.set_enabled(false);

    assert_eq!(
        activity.state,
        ActivityState::Disabled(Box::new(ActivityState::Idle)),
        "disabling twice must not nest Disabled states"
    );
}

#[test]
fn enable_when_not_disabled_is_noop() {
    let clock = TestClock::new(UtcTime::now());
    let mut activity = build(&clock, fixed(100));

    activity.set_enabled(true);

    assert_eq!(activity.state, ActivityState::Idle);
}

// ---- finish -----------------------------------------------------------

#[test]
fn finish_done_on_fixed_interval_resets_to_idle_and_records_run() {
    let clock = TestClock::new(UtcTime::now());
    let mut activity = build(&clock, fixed(100));
    assert!(clock.advance(Duration::from_secs(100)));
    tick(&mut activity);
    activity.claim_if_due();

    activity.finish(AckMessage::Done);

    assert_eq!(activity.state, ActivityState::Idle);
    assert_eq!(activity.duration_delta, Duration::zero());
    assert_eq!(
        activity.activation_target,
        ActivationTarget::Duration(Duration::from_secs(100))
    );
    assert!(activity.last_run_at.is_some());
}

#[test]
fn finish_snooze_sets_snoozed_state_and_target() {
    let clock = TestClock::new(UtcTime::now());
    let mut activity = build(&clock, fixed(100));
    let snooze = Duration::from_secs(30);

    activity.finish(AckMessage::Snooze(snooze));

    assert_eq!(activity.state, ActivityState::Snoozed(snooze));
    assert_eq!(
        activity.activation_target,
        ActivationTarget::Duration(snooze)
    );
    assert_eq!(activity.duration_delta, Duration::zero());
    assert!(activity.last_run_at.is_some());
}

#[test]
fn finish_done_on_scheduled_marks_completed() {
    let start = UtcTime::now();
    let target = after(start, 100);
    let clock = TestClock::new(start);
    let mut activity = build(&clock, scheduled(target));

    activity.finish(AckMessage::Done);

    assert_eq!(activity.state, ActivityState::Completed);
    assert_eq!(
        activity.last_run_at, None,
        "a completed one-shot activity records no further run"
    );
}

#[test]
fn finish_snooze_on_scheduled_does_not_complete() {
    let start = UtcTime::now();
    let target = after(start, 100);
    let clock = TestClock::new(start);
    let mut activity = build(&clock, scheduled(target));
    let snooze = Duration::from_secs(30);

    activity.finish(AckMessage::Snooze(snooze));

    assert_eq!(activity.state, ActivityState::Snoozed(snooze));
    assert_eq!(
        activity.activation_target,
        ActivationTarget::Duration(snooze)
    );
}

// ---- is_at_target -----------------------------------------------------

#[test]
fn is_at_target_false_for_duration_below_target() {
    let clock = TestClock::new(UtcTime::now());
    let mut activity = build(&clock, fixed(100));

    assert!(clock.advance(Duration::from_secs(99)));
    tick(&mut activity);

    assert!(!activity.is_at_target());
}

#[test]
fn is_at_target_true_for_duration_at_target() {
    let clock = TestClock::new(UtcTime::now());
    let mut activity = build(&clock, fixed(100));

    assert!(clock.advance(Duration::from_secs(100)));
    tick(&mut activity);

    assert!(activity.is_at_target());
}

#[test]
fn is_at_target_true_for_duration_over_target() {
    let clock = TestClock::new(UtcTime::now());
    let mut activity = build(&clock, fixed(100));

    assert!(clock.advance(Duration::from_secs(150)));
    tick(&mut activity);

    assert!(activity.is_at_target());
}

#[test]
fn is_at_target_false_for_date_before_target() {
    let start = UtcTime::now();
    let target = after(start, 100);
    let clock = TestClock::new(start);
    let activity = build(&clock, scheduled(target));

    assert!(clock.advance(Duration::from_secs(99)));

    assert!(!activity.is_at_target());
}

#[test]
fn is_at_target_true_for_date_at_target() {
    let start = UtcTime::now();
    let target = after(start, 100);
    let clock = TestClock::new(start);
    let activity = build(&clock, scheduled(target));

    assert!(clock.advance(Duration::from_secs(100)));

    assert!(activity.is_at_target());
}

#[test]
fn is_at_target_true_for_date_after_target() {
    let start = UtcTime::now();
    let target = after(start, 100);
    let clock = TestClock::new(start);
    let activity = build(&clock, scheduled(target));

    assert!(clock.advance(Duration::from_secs(150)));

    assert!(activity.is_at_target());
}

// ---- try_gc_mark ------------------------------------------------------

#[test]
fn try_gc_mark_marks_disabled_scheduled_at_target_as_gc() {
    let start = UtcTime::now();
    let target = after(start, 100);
    let clock = TestClock::new(start);
    let mut activity = build(&clock, scheduled(target));
    activity.set_enabled(false);

    assert!(clock.advance(Duration::from_secs(100)));
    activity.try_gc_mark();

    assert_eq!(activity.state, ActivityState::Gc);
}

#[test]
fn try_gc_mark_leaves_disabled_scheduled_before_target() {
    let start = UtcTime::now();
    let target = after(start, 100);
    let clock = TestClock::new(start);
    let mut activity = build(&clock, scheduled(target));
    activity.set_enabled(false);

    assert!(clock.advance(Duration::from_secs(50)));
    activity.try_gc_mark();

    assert_eq!(
        activity.state,
        ActivityState::Disabled(Box::new(ActivityState::Idle))
    );
}

#[test]
fn try_gc_mark_leaves_enabled_scheduled_at_target() {
    let start = UtcTime::now();
    let target = after(start, 100);
    let clock = TestClock::new(start);
    let mut activity = build(&clock, scheduled(target));

    assert!(clock.advance(Duration::from_secs(100)));
    activity.try_gc_mark();

    assert_eq!(
        activity.state,
        ActivityState::Idle,
        "an enabled scheduled activity must not be garbage collected"
    );
}

#[test]
fn try_gc_mark_leaves_disabled_interval_at_target() {
    let clock = TestClock::new(UtcTime::now());
    let mut activity = build(&clock, fixed(100));
    activity.duration_delta = Duration::from_secs(100);
    activity.set_enabled(false);

    activity.try_gc_mark();

    assert_eq!(
        activity.state,
        ActivityState::Disabled(Box::new(ActivityState::Idle)),
        "interval activities are never garbage collected"
    );
}

#[test]
fn tick_marks_disabled_scheduled_at_target_as_gc() {
    let start = UtcTime::now();
    let target = after(start, 100);
    let clock = TestClock::new(start);
    let mut activity = build(&clock, scheduled(target));
    activity.set_enabled(false);

    assert!(clock.advance(Duration::from_secs(100)));
    tick(&mut activity);

    assert_eq!(activity.state, ActivityState::Gc);
}

// ---- calculate_progress_pct ------------------------------------------

#[test]
fn progress_is_zero_at_start() {
    let clock = TestClock::new(UtcTime::now());
    let activity = build(&clock, fixed(100));

    assert_eq!(percent(&activity), 0.0);
}

#[test]
fn progress_is_half_at_midpoint_of_duration() {
    let clock = TestClock::new(UtcTime::now());
    let mut activity = build(&clock, fixed(100));

    assert!(clock.advance(Duration::from_secs(50)));
    tick(&mut activity);

    assert!((percent(&activity) - 50.0).abs() < 1e-9);
}

#[test]
fn progress_is_clamped_to_100_when_over_target() {
    let clock = TestClock::new(UtcTime::now());
    let mut activity = build(&clock, fixed(100));

    assert!(clock.advance(Duration::from_secs(250)));
    tick(&mut activity);

    assert_eq!(percent(&activity), 100.0);
}

#[test]
fn progress_tracks_elapsed_fraction_for_date_schedule() {
    let start = UtcTime::now();
    let target = after(start, 100);
    let clock = TestClock::new(start);
    let activity = build(&clock, scheduled(target));

    assert!(clock.advance(Duration::from_secs(50)));

    assert!((percent(&activity) - 50.0).abs() < 1e-6);
}
