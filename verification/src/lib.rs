//! Activity scheduling for native apps.
//!
//! A scheduler for recurring and one-shot activities. Say what should run and when (at a fixed
//! interval, at a random interval, or at a date), poll, and get the ids of the activities to run.
//! Run them, and acknowledge each when it is done: it is completed, rescheduled, or snoozed.
//!
//! Nothing here waits, spawns or sends. A [`RunningRitualist`] is told what happens (a poll interval
//! is over, a run came to its end, the program shuts down) and tells what to do about it.

use crate::ack::AckMessage;
use crate::activity::{Activity, ActivityId};
use crate::activity_spec::ActivitySpec;
use crate::clock::{Clock, SystemClock};
use crate::driver::{outcome, proceeds};
use crate::driver::{DriverAction, DriverEvent, DriverPhase, ScheduleDriver};
use crate::error::RitualistError;
use crate::schedule::{all_valid, claims_all, finishes_one, has_room, lists, max_buffer};
use crate::schedule::{registrable, spawn_scheduler, ticks_all, tracks_afresh, tracks_new};
use crate::schedule::Scheduler;
use crate::time::Duration;
use std::sync::Arc;
use vstd::prelude::*;
use vstd::std_specs::hash::obeys_key_model;

pub mod ack;
pub mod activation_target;
pub mod activity;
pub mod activity_spec;
pub mod clock;
pub mod driver;
pub mod effects;
pub mod error;
pub mod laws;
pub mod schedule;
pub mod time;
pub mod utc;

verus! {

/// What can be done to the activities of a ritualist, whether or not it is running.
pub struct RitualistHandle<T: ActivityId, C: Clock + ?Sized = dyn Clock> {
    pub scheduler: Scheduler<T, C>,
}

impl<T: ActivityId, C: Clock + ?Sized> View for RitualistHandle<T, C> {
    type V = Map<T, Activity<T, C>>;

    open spec fn view(&self) -> Map<T, Activity<T, C>> {
        self.scheduler@
    }
}

impl<T: ActivityId, C: Clock + ?Sized> RitualistHandle<T, C> {
    /// Registers an activity.
    ///
    /// It is refused where its schedule cannot be followed, or else where the ritualist is stopped
    /// or the id is taken.
    pub fn register(&mut self, spec: ActivitySpec<T>) -> (registered: Result<(), RitualistError>)
        requires
            old(self).scheduler.well_formed(),
        ensures
            final(self).scheduler.well_formed(),
            final(self).scheduler.same_but_activities(old(self).scheduler),
            registered is Ok <==> {
                &&& spec.is_valid()
                &&& !old(self).scheduler.is_stopped()
                &&& !old(self)@.contains_key(spec.id)
            },
            registered matches Err(e) ==> {
                &&& e is ActivitySpecError <==> !spec.is_valid()
                &&& e matches RitualistError::ScheulerError(refusal) ==> (refusal is Stopped
                    <==> old(self).scheduler.is_stopped())
                &&& final(self)@ == old(self)@
            },
            registered is Ok ==> tracks_new(
                old(self)@,
                spec,
                old(self).scheduler.clock(),
                final(self)@,
            ),
    {
        match spec.validate() {
            Err(e) => Err(RitualistError::ActivitySpecError(e)),
            Ok(()) => match self.scheduler.register(spec) {
                Err(e) => Err(RitualistError::ScheulerError(e)),
                Ok(()) => Ok(()),
            },
        }
    }

    /// Registers activities in order.
    ///
    /// None is registered where a schedule cannot be followed, or else where the ritualist is
    /// stopped. Else they are up to the first whose id is taken, and that one is refused.
    pub fn register_many(&mut self, specs: Vec<ActivitySpec<T>>) -> (registered: Result<
        (),
        RitualistError,
    >)
        requires
            old(self).scheduler.well_formed(),
        ensures
            final(self).scheduler.well_formed(),
            final(self).scheduler.same_but_activities(old(self).scheduler),
            registered is Ok <==> {
                &&& all_valid(specs@)
                &&& !old(self).scheduler.is_stopped()
                &&& registrable(old(self)@.dom(), specs@) == specs@.len()
            },
            registered matches Err(e) ==> {
                &&& e is ActivitySpecError <==> !all_valid(specs@)
                &&& e matches RitualistError::ScheulerError(refusal) ==> (refusal is Stopped
                    <==> old(self).scheduler.is_stopped())
            },
            !all_valid(specs@) || old(self).scheduler.is_stopped() ==> final(self)@ == old(self)@,
            all_valid(specs@) && !old(self).scheduler.is_stopped() ==> tracks_afresh(
                old(self)@,
                specs@.take(registrable(old(self)@.dom(), specs@) as int),
                old(self).scheduler.clock(),
                final(self)@,
            ),
    {
        let mut i: usize = 0;
        while i < specs.len()
            invariant
                i <= specs.len(),
                forall|j: int| 0 <= j < i ==> (#[trigger] specs@[j]).is_valid(),
                *self == *old(self),
                old(self).scheduler.well_formed(),
            decreases specs.len() - i,
        {
            if let Err(e) = specs[i].validate() {
                assert(!specs@[i as int].is_valid());
                return Err(RitualistError::ActivitySpecError(e));
            }
            i += 1;
        }
        proof {
            schedule::lemma_registrable_bound(old(self)@.dom(), specs@);
        }
        match self.scheduler.register_many(specs) {
            Err(e) => Err(RitualistError::ScheulerError(e)),
            Ok(()) => Ok(()),
        }
    }

    /// Enables or disables the activity `id`, if it is tracked. A disabled activity keeps its
    /// place: once enabled again, it goes on where it left off.
    pub fn set_enabled(&mut self, id: T, enabled: bool)
        requires
            old(self).scheduler.well_formed(),
        ensures
            final(self).scheduler.well_formed(),
            final(self).scheduler.same_but_activities(old(self).scheduler),
            final(self)@ == if !old(self).scheduler.is_stopped() && old(self)@.contains_key(id) {
                old(self)@.insert(id, old(self)@[id].with_enabled(enabled))
            } else {
                old(self)@
            },
    {
        self.scheduler.set_enabled(id, enabled);
    }

    /// Copies all activities, in no particular order; none once the ritualist is stopped.
    pub fn snapshot(&self) -> (activities: Vec<Activity<T, C>>)
        requires
            self.scheduler.well_formed(),
        ensures
            !self.scheduler.is_stopped() ==> lists(self@, activities@),
            self.scheduler.is_stopped() ==> activities@.len() == 0,
    {
        self.scheduler.snapshot()
    }
}

/// An activity orchestrator that is not running yet. Activities can be registered at once.
pub struct Ritualist<T: ActivityId, C: Clock + ?Sized = dyn Clock> {
    pub handle: RitualistHandle<T, C>,
    pub driver: ScheduleDriver,
}

impl<T: ActivityId> Ritualist<T, SystemClock> {
    /// What to build a ritualist with, to begin with the defaults.
    pub fn builder() -> (builder: RitualistBuilder<T, SystemClock>)
        ensures
            builder.has_defaults(),
            builder.clock.has_started(),
    {
        RitualistBuilder::new()
    }
}

impl<T: ActivityId, C: Clock + ?Sized> Ritualist<T, C> {
    /// Whether the ritualist takes registrations and waits to be run.
    pub open spec fn well_formed(&self) -> bool {
        &&& self.handle.scheduler.well_formed()
        &&& !self.handle.scheduler.is_stopped()
        &&& self.driver.phase is Ready
    }

    /// A ritualist that tracks nothing yet. Its channels hold back up to `buffer_size` messages,
    /// it polls every `poll_interval` once it runs, and it reads the time from `clock`.
    pub fn new(buffer_size: usize, poll_interval: Duration, clock: Arc<C>) -> (ritualist: Self)
        requires
            obeys_key_model::<T>(),
            0 < buffer_size <= max_buffer(),
        ensures
            ritualist.well_formed(),
            ritualist.handle@ == Map::<T, Activity<T, C>>::empty(),
            ritualist.handle.scheduler.clock() == clock,
            ritualist.handle.scheduler.capacity() == buffer_size,
            ritualist.driver.buffer_size == buffer_size,
            ritualist.driver.poll_interval == poll_interval,
    {
        let scheduler = spawn_scheduler(buffer_size, clock);
        let driver = ScheduleDriver::new(buffer_size, poll_interval);
        Ritualist { handle: RitualistHandle { scheduler }, driver }
    }

    /// Starts the ritualist: from now on it can be polled for what to run.
    pub fn run(self) -> (running: RunningRitualist<T, C>)
        requires
            self.well_formed(),
            self.driver.poll_interval@ > 0,
        ensures
            running.well_formed(),
            running.handle == self.handle,
            running.driver == (ScheduleDriver { phase: DriverPhase::Polling, ..self.driver }),
    {
        let Ritualist { handle, mut driver } = self;
        driver.next(DriverEvent::Started);
        RunningRitualist { handle, driver }
    }
}

/// How a ritualist is to be built.
pub struct RitualistBuilder<T: ActivityId, C: Clock + ?Sized = SystemClock> {
    pub buffer_size: usize,
    pub poll_interval: Duration,
    pub clock: Arc<C>,
    pub id: core::marker::PhantomData<T>,
}

impl<T: ActivityId> RitualistBuilder<T, SystemClock> {
    /// The defaults: channels for 256 messages, a poll every half second, and the system's clock.
    pub fn new() -> (builder: Self)
        ensures
            builder.has_defaults(),
            builder.clock.has_started(),
    {
        RitualistBuilder {
            buffer_size: 256,
            poll_interval: Duration::from_millis(500),
            clock: Arc::new(SystemClock::new()),
            id: core::marker::PhantomData,
        }
    }
}

impl<T: ActivityId, C: Clock + ?Sized> RitualistBuilder<T, C> {
    /// Whether buffer size and poll interval are the defaults.
    pub open spec fn has_defaults(&self) -> bool {
        &&& self.buffer_size == 256
        &&& self.poll_interval@ == 500_000_000
    }

    /// Sets how many messages each channel holds back.
    pub fn buffer_size(&mut self, buffer_size: usize) -> (builder: &Self)
        ensures
            *final(self) == (RitualistBuilder { buffer_size, ..*old(self) }),
            *builder == *final(self),
    {
        self.buffer_size = buffer_size;
        self
    }

    /// Sets the time between two polls.
    pub fn poll_interval(&mut self, interval: Duration) -> (builder: &Self)
        ensures
            *final(self) == (RitualistBuilder { poll_interval: interval, ..*old(self) }),
            *builder == *final(self),
    {
        self.poll_interval = interval;
        self
    }

    /// Sets the clock to read the time from.
    pub fn clock<D: Clock + ?Sized>(self, clock: Arc<D>) -> (builder: RitualistBuilder<T, D>)
        ensures
            builder.buffer_size == self.buffer_size,
            builder.poll_interval == self.poll_interval,
            builder.clock == clock,
    {
        RitualistBuilder {
            buffer_size: self.buffer_size,
            poll_interval: self.poll_interval,
            clock,
            id: core::marker::PhantomData,
        }
    }

    /// Builds the ritualist.
    pub fn build(self) -> (ritualist: Ritualist<T, C>)
        requires
            obeys_key_model::<T>(),
            0 < self.buffer_size <= max_buffer(),
        ensures
            ritualist.well_formed(),
            ritualist.handle@ == Map::<T, Activity<T, C>>::empty(),
            ritualist.handle.scheduler.clock() == self.clock,
            ritualist.handle.scheduler.capacity() == self.buffer_size,
            ritualist.driver.buffer_size == self.buffer_size,
            ritualist.driver.poll_interval == self.poll_interval,
    {
        Ritualist::new(self.buffer_size, self.poll_interval, self.clock)
    }
}

/// A ritualist that was started.
pub struct RunningRitualist<T: ActivityId, C: Clock + ?Sized = dyn Clock> {
    pub handle: RitualistHandle<T, C>,
    pub driver: ScheduleDriver,
}

impl<T: ActivityId, C: Clock + ?Sized> RunningRitualist<T, C> {
    /// The invariant: the scheduler takes commands just as long as the driver is not at an end.
    pub open spec fn well_formed(&self) -> bool {
        &&& self.handle.scheduler.well_formed()
        &&& self.handle.scheduler.is_stopped() <==> self.driver.phase is Stopped
        &&& !(self.driver.phase is Ready)
    }

    /// Whether `self` came from `before` by `event`, whose consequence is `action`. A driver that
    /// comes to its end stops the scheduler. What the activities are is left open.
    pub open spec fn went_on(
        &self,
        before: Self,
        event: DriverEvent,
        action: DriverAction,
    ) -> bool {
        &&& self.well_formed()
        &&& proceeds(before.driver.phase, event, self.driver.phase, action)
        &&& self.driver.buffer_size == before.driver.buffer_size
        &&& self.driver.poll_interval == before.driver.poll_interval
        &&& self.handle.scheduler.clock() == before.handle.scheduler.clock()
        &&& self.handle.scheduler.capacity() == before.handle.scheduler.capacity()
    }

    /// Tells the driver of `event`, and stops the scheduler where that brings it to its end.
    fn note(&mut self, event: DriverEvent) -> (action: DriverAction)
        requires
            old(self).well_formed(),
        ensures
            final(self).went_on(*old(self), event, action),
            final(self).handle@ == old(self).handle@,
    {
        let action = self.driver.next(event);
        if matches!(self.driver.phase, DriverPhase::Stopped) {
            self.handle.scheduler.shutdown();
        }
        action
    }

    /// What to do when a poll interval is over: ticks all activities, claims those that are due and
    /// gives their ids, to be run. Once the ritualist was told to stop, there are none.
    pub fn poll(&mut self) -> (due: Vec<T>)
        requires
            old(self).well_formed(),
            old(self).driver.phase is Polling ==> has_room(old(self).handle@),
        ensures
            final(self).well_formed(),
            final(self).driver == old(self).driver,
            final(self).handle.scheduler.same_but_activities(old(self).handle.scheduler),
            old(self).driver.phase is Polling ==> exists|ticked: Map<T, Activity<T, C>>|
                {
                    &&& #[trigger] ticks_all(old(self).handle@, ticked)
                    &&& claims_all(ticked, due@, final(self).handle@)
                },
            !(old(self).driver.phase is Polling) ==> due@.len() == 0 && final(self).handle@ == old(
                self,
            ).handle@,
    {
        match self.driver.next(DriverEvent::Ticked) {
            DriverAction::Poll => {
                self.handle.scheduler.tick();
                self.handle.scheduler.claim_due()
            },
            _ => Vec::new(),
        }
    }

    /// What to do when a run of the activity `id` is acknowledged, or its acknowledgement was
    /// dropped, with `in_flight` runs still under way.
    pub fn acknowledge(&mut self, id: T, ack: Option<AckMessage>, in_flight: usize) -> (action:
        DriverAction)
        requires
            old(self).well_formed(),
        ensures
            final(self).went_on(*old(self), DriverEvent::RunEnded { in_flight }, action),
            !(old(self).driver.phase is Stopped) ==> finishes_one(
                old(self).handle@,
                id,
                match ack {
                    Some(given) => given,
                    None => AckMessage::Done,
                },
                final(self).handle@,
            ),
            old(self).driver.phase is Stopped ==> final(self).handle@ == old(self).handle@,
    {
        self.handle.scheduler.finish(id, outcome(ack));
        self.note(DriverEvent::RunEnded { in_flight })
    }

    /// What to do when a run was aborted before it could be acknowledged, with `in_flight` runs
    /// still under way.
    pub fn run_aborted(&mut self, in_flight: usize) -> (action: DriverAction)
        requires
            old(self).well_formed(),
        ensures
            final(self).went_on(*old(self), DriverEvent::RunEnded { in_flight }, action),
            final(self).handle@ == old(self).handle@,
    {
        self.note(DriverEvent::RunEnded { in_flight })
    }

    /// Ends polling. Runs that are under way, `in_flight` of them, are waited for, up to a grace
    /// period; then the scheduler is stopped.
    pub fn shutdown(&mut self, in_flight: usize) -> (action: DriverAction)
        requires
            old(self).well_formed(),
        ensures
            final(self).went_on(*old(self), DriverEvent::Cancelled { in_flight }, action),
            final(self).handle@ == old(self).handle@,
            !(final(self).driver.phase is Polling),
    {
        self.note(DriverEvent::Cancelled { in_flight })
    }

    /// What to do when the grace period is over, with `in_flight` runs still under way.
    pub fn grace_expired(&mut self, in_flight: usize) -> (action: DriverAction)
        requires
            old(self).well_formed(),
        ensures
            final(self).went_on(*old(self), DriverEvent::GraceExpired { in_flight }, action),
            final(self).handle@ == old(self).handle@,
    {
        self.note(DriverEvent::GraceExpired { in_flight })
    }

    /// Stops at once, without waiting for runs that are under way.
    pub fn abort(&mut self)
        requires
            old(self).well_formed(),
        ensures
            final(self).well_formed(),
            final(self).driver == (ScheduleDriver {
                phase: DriverPhase::Stopped,
                ..old(self).driver
            }),
            final(self).handle.scheduler.is_stopped(),
            final(self).handle@ == old(self).handle@,
            final(self).handle.scheduler.clock() == old(self).handle.scheduler.clock(),
            final(self).handle.scheduler.capacity() == old(self).handle.scheduler.capacity(),
    {
        self.note(DriverEvent::Aborted);
    }
}

} // verus!
