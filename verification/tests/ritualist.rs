//! A ritualist from its builder to its end, its driver, and its errors.

use ritualist::ack::AckMessage;
use ritualist::activity::ActivityState;
use ritualist::activity_spec::{ActivitySchedule, ActivitySpec, ActivitySpecError};
use ritualist::clock::{Clock, SystemClock, TestClock};
use ritualist::driver::{
    outcome, DriverAction, DriverEvent, DriverPhase, ScheduleDriver, GRACE_SECS,
};
use ritualist::error::RitualistError;
use ritualist::schedule::SchedulerError;
use ritualist::time::Duration;
use ritualist::utc::UtcTime;
use ritualist::{Ritualist, RitualistBuilder, RunningRitualist};
use std::sync::Arc;

fn every(id: u32, secs: u64) -> ActivitySpec<u32> {
    ActivitySpec {
        id,
        schedule: ActivitySchedule::FixedInterval { duration: Duration::from_secs(secs) },
    }
}

fn random(id: u32, min: u64, max: u64) -> ActivitySpec<u32> {
    ActivitySpec {
        id,
        schedule: ActivitySchedule::RandomInterval {
            min: Duration::from_secs(min),
            max: Duration::from_secs(max),
        },
    }
}

fn on_test_clock() -> (Ritualist<u32>, TestClock) {
    let clock = TestClock::new(UtcTime::new(1_700_000_000, 0).unwrap());
    let reading: Arc<dyn Clock> = Arc::new(clock.clone());
    (Ritualist::new(64, Duration::from_millis(10), reading), clock)
}

fn running(specs: Vec<ActivitySpec<u32>>) -> (RunningRitualist<u32>, TestClock) {
    let (mut ritualist, clock) = on_test_clock();
    ritualist.handle.register_many(specs).unwrap();
    (ritualist.run(), clock)
}

fn poll(running: &mut RunningRitualist<u32>) -> Vec<u32> {
    assert!(running.handle.scheduler.ready_to_tick());
    let mut due = running.poll();
    due.sort();
    due
}

fn ids(running: &RunningRitualist<u32>) -> Vec<u32> {
    let mut ids: Vec<u32> =
        running.handle.snapshot().into_iter().map(|activity| activity.spec.id).collect();
    ids.sort();
    ids
}

#[test]
fn builder_has_defaults() {
    let builder: RitualistBuilder<u32> = Ritualist::builder();
    assert_eq!(builder.buffer_size, 256);
    assert_eq!(builder.poll_interval, Duration::from_millis(500));
    let ritualist: Ritualist<u32, SystemClock> = builder.build();
    assert_eq!(ritualist.handle.scheduler.buffer_size(), 256);
    assert_eq!(ritualist.driver.buffer_size, 256);
    assert_eq!(ritualist.driver.poll_interval, Duration::from_millis(500));
    assert_eq!(ritualist.driver.phase, DriverPhase::Ready);
    assert!(ritualist.handle.snapshot().is_empty());
}

#[test]
fn builder_takes_other_values() {
    let clock = TestClock::new(UtcTime::now());
    let reading: Arc<dyn Clock> = Arc::new(clock.clone());
    let mut builder = RitualistBuilder::<u32>::new();
    assert_eq!(builder.buffer_size(7).buffer_size, 7);
    assert_eq!(builder.poll_interval(Duration::from_secs(2)).poll_interval, Duration::from_secs(2));
    let mut ritualist: Ritualist<u32> = builder.clock(reading).build();
    assert_eq!(ritualist.handle.scheduler.buffer_size(), 7);
    assert_eq!(ritualist.driver.poll_interval, Duration::from_secs(2));
    ritualist.handle.register(every(1, 5)).unwrap();
    let mut running = ritualist.run();
    assert!(clock.advance(Duration::from_secs(5)));
    assert_eq!(poll(&mut running), vec![1]);
}

#[test]
fn a_random_interval_needs_min_below_max() {
    assert_eq!(random(1, 10, 20).validate(), Ok(()));
    assert_eq!(random(1, 20, 20).validate(), Err(ActivitySpecError::IntervalRangeOverflow));
    assert_eq!(random(1, 21, 20).validate(), Err(ActivitySpecError::IntervalRangeOverflow));
    assert_eq!(every(1, 0).validate(), Ok(()));
    let date = UtcTime::now();
    let dated = ActivitySpec { id: 1u32, schedule: ActivitySchedule::Scheduled { date } };
    assert_eq!(dated.validate(), Ok(()));
}

#[test]
fn handle_refuses_a_schedule_that_cannot_be_followed() {
    let (mut ritualist, _) = on_test_clock();
    assert_eq!(
        ritualist.handle.register(random(1, 20, 10)),
        Err(RitualistError::ActivitySpecError(ActivitySpecError::IntervalRangeOverflow))
    );
    assert_eq!(
        ritualist.handle.register_many(vec![every(1, 5), random(2, 20, 20)]),
        Err(RitualistError::ActivitySpecError(ActivitySpecError::IntervalRangeOverflow))
    );
    assert!(ritualist.handle.snapshot().is_empty());
}

#[test]
fn handle_refuses_an_id_that_is_taken() {
    let (mut ritualist, _) = on_test_clock();
    assert_eq!(ritualist.handle.register(every(1, 5)), Ok(()));
    assert_eq!(
        ritualist.handle.register(every(1, 6)),
        Err(RitualistError::ScheulerError(SchedulerError::ActivityAlreadyRegistered))
    );
    assert_eq!(
        ritualist.handle.register_many(vec![every(2, 5), every(1, 6), every(3, 5)]),
        Err(RitualistError::ScheulerError(SchedulerError::ActivityAlreadyRegistered))
    );
    let mut ids: Vec<u32> =
        ritualist.handle.snapshot().into_iter().map(|activity| activity.spec.id).collect();
    ids.sort();
    assert_eq!(ids, vec![1, 2]);
}

#[test]
fn errors_say_what_is_wrong() {
    let taken = SchedulerError::ActivityAlreadyRegistered;
    let overflow = ActivitySpecError::IntervalRangeOverflow;
    assert_eq!(taken.message(), "this activity has been registered, maybe you want reset()");
    assert_eq!(SchedulerError::Stopped.message(), "the scheduler has been stopped");
    assert_eq!(overflow.message(), "random interval is invalid: min must be less than max");
    assert_eq!(
        RitualistError::ActivitySpecError(overflow).message(),
        "An error with the validation of the ActivitySpec."
    );
    assert_eq!(
        RitualistError::ScheulerError(taken).message(),
        "An error happend in the scheulder."
    );
}

#[test]
fn ping_and_pong_run_at_their_own_pace() {
    let (mut running, clock) = running(vec![every(1, 1), every(2, 3)]);
    let mut runs = (0, 0);
    for _ in 0..12 {
        assert!(clock.advance(Duration::from_millis(500)));
        for id in poll(&mut running) {
            assert_eq!(running.acknowledge(id, Some(AckMessage::Done), 0), DriverAction::Wait);
            if id == 1 {
                runs.0 += 1;
            } else {
                runs.1 += 1;
            }
        }
    }
    assert_eq!(runs, (6, 2));
}

#[test]
fn activities_can_be_registered_after_the_start() {
    let (mut running, clock) = running(vec![]);
    assert!(poll(&mut running).is_empty());
    running.handle.register(every(9, 2)).unwrap();
    assert!(clock.advance(Duration::from_secs(2)));
    assert_eq!(poll(&mut running), vec![9]);
}

#[test]
fn a_dropped_acknowledgement_counts_as_done() {
    assert_eq!(outcome(None), AckMessage::Done);
    assert_eq!(outcome(Some(AckMessage::Done)), AckMessage::Done);
    let snooze = AckMessage::Snooze(Duration::from_secs(3));
    assert_eq!(outcome(Some(snooze)), snooze);

    let date = UtcTime::new(1_700_000_001, 0).unwrap();
    let dated = ActivitySpec { id: 2u32, schedule: ActivitySchedule::Scheduled { date } };
    let (mut running, clock) = running(vec![every(1, 1), dated]);
    assert!(clock.advance(Duration::from_secs(1)));
    assert_eq!(poll(&mut running), vec![1, 2]);
    running.acknowledge(1, None, 1);
    running.acknowledge(2, None, 0);
    assert_eq!(ids(&running), vec![1]);
    assert_eq!(running.handle.snapshot()[0].state, ActivityState::Idle);
}

#[test]
fn a_snoozed_run_comes_back() {
    let (mut running, clock) = running(vec![every(1, 100)]);
    assert!(clock.advance(Duration::from_secs(100)));
    assert_eq!(poll(&mut running), vec![1]);
    running.acknowledge(1, Some(AckMessage::Snooze(Duration::from_secs(5))), 0);
    assert!(clock.advance(Duration::from_secs(4)));
    assert!(poll(&mut running).is_empty());
    assert!(clock.advance(Duration::from_secs(1)));
    assert_eq!(poll(&mut running), vec![1]);
}

#[test]
fn a_paused_activity_is_not_handed_out() {
    let (mut running, clock) = running(vec![every(1, 10), every(2, 10)]);
    running.handle.set_enabled(1, false);
    assert!(clock.advance(Duration::from_secs(10)));
    assert_eq!(poll(&mut running), vec![2]);
    running.handle.set_enabled(1, true);
    assert!(poll(&mut running).is_empty());
    assert!(clock.advance(Duration::from_secs(10)));
    assert_eq!(poll(&mut running), vec![1]);
}

#[test]
fn shutdown_with_nothing_under_way_stops_at_once() {
    let (mut running, clock) = running(vec![every(1, 1)]);
    assert_eq!(running.shutdown(0), DriverAction::Stop);
    assert_eq!(running.driver.phase, DriverPhase::Stopped);
    assert!(running.handle.scheduler.stopped());
    assert!(clock.advance(Duration::from_secs(10)));
    assert!(running.poll().is_empty());
    assert!(running.handle.snapshot().is_empty());
}

#[test]
fn a_stopped_ritualist_refuses_registrations() {
    let (mut running, _) = running(vec![every(1, 1)]);
    running.abort();
    assert_eq!(
        running.handle.register(every(2, 1)),
        Err(RitualistError::ScheulerError(SchedulerError::Stopped))
    );
    assert_eq!(
        running.handle.register_many(vec![every(1, 1), every(2, 1)]),
        Err(RitualistError::ScheulerError(SchedulerError::Stopped))
    );
    assert_eq!(
        running.handle.register(random(3, 2, 1)),
        Err(RitualistError::ActivitySpecError(ActivitySpecError::IntervalRangeOverflow))
    );
    assert!(running.handle.snapshot().is_empty());
}

#[test]
fn shutdown_drains_what_is_under_way() {
    let (mut running, clock) = running(vec![every(1, 1), every(2, 1)]);
    assert!(clock.advance(Duration::from_secs(1)));
    assert_eq!(poll(&mut running), vec![1, 2]);
    let grace = Duration::from_secs(GRACE_SECS);
    assert_eq!(running.shutdown(2), DriverAction::Drain { grace });
    assert_eq!(grace, Duration::from_secs(5));
    assert!(clock.advance(Duration::from_secs(1)));
    assert!(running.poll().is_empty());
    // The scheduler still takes the acknowledgements of runs that are under way.
    assert_eq!(running.acknowledge(1, Some(AckMessage::Done), 1), DriverAction::Wait);
    assert_eq!(ids(&running), vec![1, 2]);
    assert_eq!(running.acknowledge(2, Some(AckMessage::Done), 0), DriverAction::Stop);
    assert!(running.handle.scheduler.stopped());
    assert!(running.handle.snapshot().is_empty());
}

#[test]
fn runs_that_outlast_the_grace_period_are_aborted() {
    let (mut running, clock) = running(vec![every(1, 1)]);
    assert!(clock.advance(Duration::from_secs(1)));
    assert_eq!(poll(&mut running), vec![1]);
    running.shutdown(1);
    assert_eq!(running.driver.phase, DriverPhase::Draining);
    assert_eq!(running.grace_expired(1), DriverAction::AbortRuns);
    assert_eq!(running.driver.phase, DriverPhase::Aborting);
    assert!(!running.handle.scheduler.stopped());
    assert_eq!(running.run_aborted(0), DriverAction::Stop);
    assert!(running.handle.scheduler.stopped());
}

#[test]
fn abort_does_not_wait() {
    let (mut running, clock) = running(vec![every(1, 1)]);
    assert!(clock.advance(Duration::from_secs(1)));
    assert_eq!(poll(&mut running), vec![1]);
    running.abort();
    assert_eq!(running.driver.phase, DriverPhase::Stopped);
    assert_eq!(running.driver.buffer_size, 64);
    assert_eq!(running.driver.poll_interval, Duration::from_millis(10));
    assert_eq!(running.handle.scheduler.buffer_size(), 64);
    assert_eq!(running.acknowledge(1, Some(AckMessage::Done), 0), DriverAction::Stop);
    assert!(running.handle.snapshot().is_empty());
}

#[test]
fn driver_goes_through_its_phases() {
    let mut driver = ScheduleDriver::new(4, Duration::from_secs(1));
    assert_eq!(driver.next(DriverEvent::Ticked), DriverAction::Wait);
    assert_eq!(driver.phase, DriverPhase::Ready);
    assert_eq!(driver.next(DriverEvent::Started), DriverAction::Wait);
    assert_eq!(driver.next(DriverEvent::Ticked), DriverAction::Poll);
    assert_eq!(driver.next(DriverEvent::RunEnded { in_flight: 0 }), DriverAction::Wait);
    assert_eq!(driver.next(DriverEvent::GraceExpired { in_flight: 1 }), DriverAction::Wait);
    assert_eq!(driver.phase, DriverPhase::Polling);
    assert_eq!(
        driver.next(DriverEvent::Cancelled { in_flight: 2 }),
        DriverAction::Drain { grace: Duration::from_secs(5) }
    );
    assert_eq!(driver.next(DriverEvent::Ticked), DriverAction::Wait);
    assert_eq!(driver.next(DriverEvent::Cancelled { in_flight: 2 }), DriverAction::Wait);
    assert_eq!(driver.next(DriverEvent::RunEnded { in_flight: 1 }), DriverAction::Wait);
    assert_eq!(driver.phase, DriverPhase::Draining);
    assert_eq!(driver.next(DriverEvent::GraceExpired { in_flight: 1 }), DriverAction::AbortRuns);
    assert_eq!(driver.next(DriverEvent::GraceExpired { in_flight: 1 }), DriverAction::Wait);
    assert_eq!(driver.phase, DriverPhase::Aborting);
    assert_eq!(driver.next(DriverEvent::RunEnded { in_flight: 0 }), DriverAction::Stop);
    assert_eq!(driver.next(DriverEvent::Started), DriverAction::Stop);
    assert_eq!(driver.next(DriverEvent::Ticked), DriverAction::Stop);
    assert_eq!(driver.phase, DriverPhase::Stopped);
    assert_eq!(driver.buffer_size, 4);
    assert_eq!(driver.poll_interval, Duration::from_secs(1));
}

#[test]
fn driver_can_end_before_it_starts() {
    let mut driver = ScheduleDriver::new(4, Duration::from_secs(1));
    assert_eq!(driver.next(DriverEvent::Cancelled { in_flight: 0 }), DriverAction::Stop);
    assert_eq!(driver.phase, DriverPhase::Stopped);
    let mut other = ScheduleDriver::new(4, Duration::from_secs(1));
    assert_eq!(other.next(DriverEvent::Aborted), DriverAction::Stop);
    assert_eq!(other.phase, DriverPhase::Stopped);
}

#[test]
fn driver_whose_grace_expires_with_nothing_under_way_stops() {
    let mut driver = ScheduleDriver::new(4, Duration::from_secs(1));
    driver.next(DriverEvent::Started);
    driver.next(DriverEvent::Cancelled { in_flight: 1 });
    assert_eq!(driver.next(DriverEvent::GraceExpired { in_flight: 0 }), DriverAction::Stop);
    assert_eq!(driver.phase, DriverPhase::Stopped);
}
