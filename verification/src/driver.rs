//! What drives a scheduler: when to poll it, and how to come to an end.

use crate::ack::AckMessage;
use crate::schedule::max_buffer;
use crate::time::Duration;
use vstd::prelude::*;

verus! {

/// How long runs that are under way may take to end after the driver is told to stop, in seconds.
pub const GRACE_SECS: u64 = 5;

/// Where a driver is in its life.
#[derive(Debug, Clone, Copy, PartialEq, Eq)]
pub enum DriverPhase {
    /// Not started yet.
    Ready,
    /// Polling the scheduler whenever the poll interval is over.
    Polling,
    /// Told to stop, and waiting for runs that are under way.
    Draining,
    /// Done with waiting: runs that are under way are being aborted.
    Aborting,
    /// At an end.
    Stopped,
}

/// What happens to a driver. Where runs may be under way, `in_flight` is how many still are.
#[derive(Debug, Clone, Copy, PartialEq, Eq)]
pub enum DriverEvent {
    /// It is told to start.
    Started,
    /// A poll interval is over.
    Ticked,
    /// A run came to its end.
    RunEnded { in_flight: usize },
    /// It is told to stop.
    Cancelled { in_flight: usize },
    /// The time to wait for runs is over.
    GraceExpired { in_flight: usize },
    /// It is told to stop without waiting for anything.
    Aborted,
}

/// What a driver has to do next.
#[derive(Debug, Clone, Copy, PartialEq, Eq)]
pub enum DriverAction {
    /// Wait for the next event.
    Wait,
    /// Tick the scheduler and hand out what is due.
    Poll,
    /// Wait for runs that are under way, but no longer than `grace`.
    Drain { grace: Duration },
    /// Abort all runs that are under way.
    AbortRuns,
    /// Stop.
    Stop,
}

/// Whether `action` is what a driver in `phase` does about `event`, and `next` the phase that it is
/// in then.
pub open spec fn proceeds(
    phase: DriverPhase,
    event: DriverEvent,
    next: DriverPhase,
    action: DriverAction,
) -> bool {
    match (phase, event) {
        (DriverPhase::Stopped, _) | (_, DriverEvent::Aborted) => {
            next is Stopped && action is Stop
        },
        (DriverPhase::Ready, DriverEvent::Started) => next is Polling && action is Wait,
        (DriverPhase::Ready, DriverEvent::Cancelled { .. }) => next is Stopped && action is Stop,
        (DriverPhase::Polling, DriverEvent::Ticked) => next is Polling && action is Poll,
        (DriverPhase::Polling, DriverEvent::Cancelled { in_flight }) => if in_flight == 0 {
            next is Stopped && action is Stop
        } else {
            &&& next is Draining
            &&& action matches DriverAction::Drain { grace } && grace@ == GRACE_SECS * 1_000_000_000
        },
        (DriverPhase::Draining | DriverPhase::Aborting, DriverEvent::RunEnded { in_flight }) => if in_flight
            == 0 {
            next is Stopped && action is Stop
        } else {
            next == phase && action is Wait
        },
        (DriverPhase::Draining, DriverEvent::GraceExpired { in_flight }) => if in_flight == 0 {
            next is Stopped && action is Stop
        } else {
            next is Aborting && action is AbortRuns
        },
        _ => next == phase && action is Wait,
    }
}

/// What a run is acknowledged with: its own acknowledgement, or [`AckMessage::Done`] where it was
/// dropped without any.
pub fn outcome(ack: Option<AckMessage>) -> (outcome: AckMessage)
    ensures
        outcome == match ack {
            Some(given) => given,
            None => AckMessage::Done,
        },
{
    match ack {
        Some(given) => given,
        None => AckMessage::Done,
    }
}

/// Decides when a scheduler is polled, and how polling comes to an end. It starts nothing itself:
/// it is told what happens, and tells what to do.
#[derive(Debug)]
pub struct ScheduleDriver {
    /// How many runs to be handed out its channel holds back.
    pub buffer_size: usize,
    /// The time between two polls.
    pub poll_interval: Duration,
    /// Where the driver is in its life.
    pub phase: DriverPhase,
}

impl ScheduleDriver {
    /// A driver that is not started yet.
    pub fn new(buffer_size: usize, poll_interval: Duration) -> (driver: ScheduleDriver)
        requires
            0 < buffer_size <= max_buffer(),
        ensures
            driver.buffer_size == buffer_size,
            driver.poll_interval == poll_interval,
            driver.phase is Ready,
    {
        ScheduleDriver { buffer_size, poll_interval, phase: DriverPhase::Ready }
    }

    /// Takes note of what happened, and tells what to do about it.
    pub fn next(&mut self, event: DriverEvent) -> (action: DriverAction)
        ensures
            proceeds(old(self).phase, event, final(self).phase, action),
            final(self).buffer_size == old(self).buffer_size,
            final(self).poll_interval == old(self).poll_interval,
    {
        let (next, action) = match (self.phase, event) {
            (DriverPhase::Stopped, _) | (_, DriverEvent::Aborted) => {
                (DriverPhase::Stopped, DriverAction::Stop)
            },
            (DriverPhase::Ready, DriverEvent::Started) => {
                (DriverPhase::Polling, DriverAction::Wait)
            },
            (DriverPhase::Ready, DriverEvent::Cancelled { .. }) => {
                (DriverPhase::Stopped, DriverAction::Stop)
            },
            (DriverPhase::Polling, DriverEvent::Ticked) => {
                (DriverPhase::Polling, DriverAction::Poll)
            },
            (DriverPhase::Polling, DriverEvent::Cancelled { in_flight }) => {
                if in_flight == 0 {
                    (DriverPhase::Stopped, DriverAction::Stop)
                } else {
                    (
                        DriverPhase::Draining,
                        DriverAction::Drain { grace: Duration::from_secs(GRACE_SECS) },
                    )
                }
            },
            (
                DriverPhase::Draining | DriverPhase::Aborting,
                DriverEvent::RunEnded { in_flight },
            ) => {
                if in_flight == 0 {
                    (DriverPhase::Stopped, DriverAction::Stop)
                } else {
                    (self.phase, DriverAction::Wait)
                }
            },
            (DriverPhase::Draining, DriverEvent::GraceExpired { in_flight }) => {
                if in_flight == 0 {
                    (DriverPhase::Stopped, DriverAction::Stop)
                } else {
                    (DriverPhase::Aborting, DriverAction::AbortRuns)
                }
            },
            _ => (self.phase, DriverAction::Wait),
        };
        self.phase = next;
        action
    }
}

} // verus!
