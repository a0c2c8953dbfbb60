//! A scheduler on a clock that the test moves.

use ritualist::ack::AckMessage;
use ritualist::activity::ActivityState;
use ritualist::activity_spec::{ActivitySchedule, ActivitySpec};
use ritualist::clock::{Clock, TestClock};
use ritualist::schedule::{spawn_scheduler, Scheduler, SchedulerError};
use ritualist::time::Duration;
use ritualist::utc::UtcTime;
use std::sync::Arc;

fn fixed(secs: u64) -> ActivitySchedule {
    ActivitySchedule::FixedInterval {
        duration: Duration::from_secs(secs),
    }
}

fn spec(id: u32, schedule: ActivitySchedule) -> ActivitySpec<u32> {
    ActivitySpec { id, schedule }
}

/// The point that lies `secs` seconds after `start`.
fn after(start: UtcTime, secs: u64) -> UtcTime {
    start.checked_add(&Duration::from_secs(secs)).unwrap()
}

/// A scheduler and the [`TestClock`] that drives it. Time only advances when the test body says so,
/// so every assertion is deterministic and free of sleeps.
struct Harness {
    schedule: Scheduler<u32>,
    clock: TestClock,
}

impl Harness {
    fn new() -> Self {
        Harness::starting(UtcTime::now())
    }

    fn starting(start: UtcTime) -> Self {
        let clock = TestClock::new(start);
        let reading: Arc<dyn Clock> = Arc::new(clock.clone());
        Harness { schedule: spawn_scheduler::<u32, dyn Clock>(16, reading), clock }
    }

    /// Ticks every activity.
    fn tick(&mut self) {
        assert!(self.schedule.ready_to_tick());
        self.schedule.tick();
    }

    /// Advances the clock, ticks every activity, and gives the ids that are due.
    fn advance_and_claim(&mut self, by: Duration) -> Vec<u32> {
        assert!(self.clock.advance(by));
        self.tick();
        let mut ids = self.schedule.claim_due();
        ids.sort();
        ids
    }

    fn state_of(&self, id: u32) -> Option<ActivityState> {
        self.schedule.snapshot().into_iter().find(|a| a.spec.id == id).map(|a| a.state)
    }

    fn ids(&self) -> Vec<u32> {
        let mut ids: Vec<u32> = self.schedule.snapshot().into_iter().map(|a| a.spec.id).collect();
        ids.sort();
        ids
    }

    fn shutdown(mut self) {
        self.schedule.shutdown();
        assert!(self.schedule.stopped());
    }
}

// ---- register ---------------------------------------------------------

#[test]
fn register_succeeds_and_appears_in_snapshot() {
    let mut h = Harness::new();

    let result = h.schedule.register(spec(1, fixed(60)));

    assert!(result.is_ok());
    assert_eq!(h.ids(), vec![1]);
    assert_eq!(h.state_of(1), Some(ActivityState::Idle));

    h.shutdown();
}

#[test]
fn register_duplicate_id_returns_error() {
    let mut h = Harness::new();
    h.schedule.register(spec(1, fixed(60))).unwrap();

    let result = h.schedule.register(spec(1, fixed(999)));

    assert!(matches!(
        result,
        Err(SchedulerError::ActivityAlreadyRegistered)
    ));
    // The first registration is left untouched.
    assert_eq!(h.ids(), vec![1]);

    h.shutdown();
}

#[test]
fn register_many_registers_every_spec() {
    let mut h = Harness::new();

    let result = h
        .schedule
        .register_many(vec![
            spec(1, fixed(60)),
            spec(2, fixed(120)),
            spec(3, fixed(180)),
        ]);

    assert!(result.is_ok());
    assert_eq!(h.ids(), vec![1, 2, 3]);

    h.shutdown();
}

#[test]
fn register_many_with_duplicate_returns_error() {
    let mut h = Harness::new();
    h.schedule.register(spec(1, fixed(60))).unwrap();

    let result = h
        .schedule
        .register_many(vec![spec(2, fixed(60)), spec(1, fixed(60))]);

    assert!(matches!(
        result,
        Err(SchedulerError::ActivityAlreadyRegistered)
    ));

    h.shutdown();
}

// ---- claim_due / tick -------------------------------------------------

#[test]
fn claim_due_is_empty_with_no_activities() {
    let mut h = Harness::new();

    assert!(h.schedule.claim_due().is_empty());

    h.shutdown();
}

#[test]
fn activity_not_claimed_before_interval_elapses() {
    let mut h = Harness::new();
    h.schedule.register(spec(1, fixed(100))).unwrap();

    let due = h.advance_and_claim(Duration::from_secs(99));

    assert!(due.is_empty());
    assert_eq!(h.state_of(1), Some(ActivityState::Idle));

    h.shutdown();
}

#[test]
fn activity_claimed_once_interval_elapses() {
    let mut h = Harness::new();
    h.schedule.register(spec(1, fixed(100))).unwrap();

    let due = h.advance_and_claim(Duration::from_secs(100));

    assert_eq!(due, vec![1]);
    assert_eq!(h.state_of(1), Some(ActivityState::Running));

    h.shutdown();
}

#[test]
fn claimed_activity_is_not_reclaimed_until_finished() {
    let mut h = Harness::new();
    h.schedule.register(spec(1, fixed(100))).unwrap();

    let first = h.advance_and_claim(Duration::from_secs(100));
    assert_eq!(first, vec![1]);

    // Still Running, so a further tick + claim yields nothing.
    let second = h.advance_and_claim(Duration::from_secs(100));
    assert!(second.is_empty());

    h.shutdown();
}

#[test]
fn claim_due_returns_only_the_activities_that_are_due() {
    let mut h = Harness::new();
    h.schedule
        .register_many(vec![spec(1, fixed(50)), spec(2, fixed(200))])
        .unwrap();

    let due = h.advance_and_claim(Duration::from_secs(100));

    assert_eq!(
        due,
        vec![1],
        "only the 50s activity should be due at t=100s"
    );
    assert_eq!(h.state_of(1), Some(ActivityState::Running));
    assert_eq!(h.state_of(2), Some(ActivityState::Idle));

    h.shutdown();
}

#[test]
fn random_interval_is_not_due_below_min_and_due_at_max() {
    let mut h = Harness::new();
    h.schedule
        .register(spec(
            1,
            ActivitySchedule::RandomInterval {
                min: Duration::from_secs(10),
                max: Duration::from_secs(20),
            },
        ))
        .unwrap();

    // Below the minimum the target can never have been reached.
    assert!(h.advance_and_claim(Duration::from_secs(9)).is_empty());
    // At/above the maximum the target is guaranteed to have been reached.
    assert_eq!(h.advance_and_claim(Duration::from_secs(11)), vec![1]);

    h.shutdown();
}

// ---- set_enabled ------------------------------------------------------

#[test]
fn disabled_activity_does_not_accumulate_and_is_not_due() {
    let mut h = Harness::new();
    h.schedule.register(spec(1, fixed(100))).unwrap();
    h.schedule.set_enabled(1, false);

    let due = h.advance_and_claim(Duration::from_secs(100));

    assert!(due.is_empty());
    assert_eq!(
        h.state_of(1),
        Some(ActivityState::Disabled(Box::new(ActivityState::Idle)))
    );

    h.shutdown();
}

#[test]
fn re_enabled_activity_resumes_scheduling() {
    let mut h = Harness::new();
    h.schedule.register(spec(1, fixed(100))).unwrap();

    h.schedule.set_enabled(1, false);
    assert!(
        h.advance_and_claim(Duration::from_secs(100))
            .is_empty()
    );

    h.schedule.set_enabled(1, true);
    // The disabled window did not accumulate, so it must elapse afresh.
    let due = h.advance_and_claim(Duration::from_secs(100));

    assert_eq!(due, vec![1]);

    h.shutdown();
}

#[test]
fn set_enabled_on_unknown_id_is_a_noop() {
    let mut h = Harness::new();

    h.schedule.set_enabled(42, false);

    // Reaching here (snapshot replies) proves the actor did not panic.
    assert!(h.ids().is_empty());

    h.shutdown();
}

// ---- finish -----------------------------------------------------------

#[test]
fn finish_done_reschedules_a_fixed_interval_activity() {
    let mut h = Harness::new();
    h.schedule.register(spec(1, fixed(100))).unwrap();

    assert_eq!(h.advance_and_claim(Duration::from_secs(100)), vec![1]);
    h.schedule.finish(1, AckMessage::Done);

    assert_eq!(h.state_of(1), Some(ActivityState::Idle));
    // After re-elapsing the interval it becomes due again.
    assert_eq!(h.advance_and_claim(Duration::from_secs(100)), vec![1]);

    h.shutdown();
}

#[test]
fn finish_snooze_reschedules_for_the_snooze_duration() {
    let mut h = Harness::new();
    h.schedule.register(spec(1, fixed(100))).unwrap();
    assert_eq!(h.advance_and_claim(Duration::from_secs(100)), vec![1]);

    h.schedule
        .finish(1, AckMessage::Snooze(Duration::from_secs(30)));
    assert_eq!(
        h.state_of(1),
        Some(ActivityState::Snoozed(Duration::from_secs(30)))
    );

    // Not due before the snooze elapses, due once it does.
    assert!(
        h.advance_and_claim(Duration::from_secs(29))
            .is_empty()
    );
    assert_eq!(h.advance_and_claim(Duration::from_secs(1)), vec![1]);

    h.shutdown();
}

#[test]
fn finish_done_on_scheduled_activity_removes_it() {
    let start = UtcTime::now();
    let mut h = Harness::starting(start);

    let target = after(start, 100);
    h.schedule
        .register(spec(1, ActivitySchedule::Scheduled { date: target }))
        .unwrap();

    assert!(h.clock.advance(Duration::from_secs(100)));
    h.tick();
    assert_eq!(h.schedule.claim_due(), vec![1]);

    h.schedule.finish(1, AckMessage::Done);

    // A completed one-shot activity is dropped from the scheduler.
    assert!(h.schedule.snapshot().is_empty());

    h.shutdown();
}

#[test]
fn ticking_disabled_scheduled_task_past_target_garbage_collects() {
    let start = UtcTime::now();
    let mut h = Harness::starting(start);

    let target = after(start, 100);
    h.schedule
        .register(spec(1, ActivitySchedule::Scheduled { date: target }))
        .unwrap();

    h.schedule.set_enabled(1, false);

    assert!(h.clock.advance(Duration::from_secs(50)));
    h.tick();

    assert_eq!(h.schedule.snapshot().len(), 1);
    assert_eq!(h.schedule.claim_due().len(), 0);

    assert!(h.clock.advance(Duration::from_secs(51)));
    h.tick();

    assert_eq!(h.schedule.snapshot().len(), 0);
    assert_eq!(h.schedule.claim_due().len(), 0);

    h.shutdown();
}

#[test]
fn finish_snooze_on_scheduled_activity_keeps_it() {
    let start = UtcTime::now();
    let mut h = Harness::starting(start);

    let target = after(start, 100);
    h.schedule
        .register(spec(1, ActivitySchedule::Scheduled { date: target }))
        .unwrap();

    assert!(h.clock.advance(Duration::from_secs(100)));
    h.tick();
    assert_eq!(h.schedule.claim_due(), vec![1]);

    h.schedule
        .finish(1, AckMessage::Snooze(Duration::from_secs(30)));

    let state = h.schedule
        .snapshot()
        .into_iter()
        .find(|a| a.spec.id == 1)
        .map(|a| a.state);
    assert_eq!(state, Some(ActivityState::Snoozed(Duration::from_secs(30))));

    h.shutdown();
}

#[test]
fn finish_on_unknown_id_is_a_noop() {
    let mut h = Harness::new();
    h.schedule.register(spec(1, fixed(100))).unwrap();

    h.schedule.finish(99, AckMessage::Done);

    assert_eq!(h.ids(), vec![1]);
    assert_eq!(h.state_of(1), Some(ActivityState::Idle));

    h.shutdown();
}

// ---- snapshot & lifecycle --------------------------------------------

#[test]
fn snapshot_returns_all_registered_activities() {
    let mut h = Harness::new();
    h.schedule
        .register_many(vec![spec(1, fixed(60)), spec(2, fixed(120))])
        .unwrap();

    let snapshot = h.schedule.snapshot();

    assert_eq!(snapshot.len(), 2);

    h.shutdown();
}

#[test]
fn commands_after_cancellation_degrade_gracefully() {
    let mut h = Harness::new();
    h.schedule.register(spec(1, fixed(60))).unwrap();

    h.schedule.shutdown();

    // The actor is gone; reply-bearing commands fall back to defaults
    // instead of panicking.
    assert!(h.schedule.claim_due().is_empty());
    assert!(h.schedule.snapshot().is_empty());
    assert_eq!(h.schedule.register(spec(2, fixed(60))), Err(SchedulerError::Stopped));
    assert_eq!(h.schedule.register(spec(1, fixed(60))), Err(SchedulerError::Stopped));
    assert_eq!(
        h.schedule.register_many(vec![spec(2, fixed(60)), spec(3, fixed(60))]),
        Err(SchedulerError::Stopped)
    );
    assert_eq!(h.schedule.register_many(vec![]), Err(SchedulerError::Stopped));
}
