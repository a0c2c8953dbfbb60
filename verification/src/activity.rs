//! A single activity: its state, how it waits for its target, and what a run does to it.

use crate::ack::AckMessage;
use crate::activation_target::ActivationTarget;
use crate::activity_spec::{ActivitySchedule, ActivitySpec};
use crate::clock::Clock;
use crate::time::{saturating_difference, Duration, Moment};
use crate::time::{MAX_DURATION_NANOS, MAX_MOMENT_NANOS};
use crate::utc::{nanos_between, no_later, whole_millis, UtcTime};
use std::fmt::Debug;
use std::hash::Hash;
use std::sync::Arc;
use vstd::prelude::*;

verus! {

broadcast use crate::time::group_time;

/// What can identify an activity: an enum is the natural choice.
pub trait ActivityId: Debug + Eq + Hash + Copy + Send + 'static {

}

impl<T: Debug + Eq + Hash + Copy + Send + 'static> ActivityId for T {

}

/// Where an activity is in its life.
#[derive(Debug, PartialEq)]
pub enum ActivityState {
    /// Waiting for its target.
    Idle,
    /// Handed out to be run, and not yet acknowledged.
    Running,
    /// Waiting for the end of a snooze of this length.
    Snoozed(Duration),
    /// Paused, with the state to go back to.
    Disabled(Box<ActivityState>),
    /// Run for the last time.
    Completed,
    /// Paused past the only date on which it could have run.
    Gc,
}

impl ActivityState {
    /// Whether the activity waits for its target.
    pub open spec fn waits(self) -> bool {
        self is Idle || self is Snoozed
    }

    /// The state after the activity is enabled, or disabled where `enabled` is false.
    pub open spec fn set_enabled(self, enabled: bool) -> ActivityState {
        match self {
            ActivityState::Disabled(prev_state) => if enabled {
                *prev_state
            } else {
                self
            },
            _ => if enabled {
                self
            } else {
                ActivityState::Disabled(Box::new(self))
            },
        }
    }

    /// Whether a scheduler keeps an activity in this state: it still has a run ahead or under way,
    /// and is paused at most once.
    pub open spec fn is_live(self) -> bool {
        match self {
            ActivityState::Disabled(prev_state) => prev_state.waits() || *prev_state is Running,
            _ => self.waits() || self is Running,
        }
    }

    /// Tells whether the activity waits for its target, so that time counts towards it.
    pub fn is_scheduled(&self) -> (scheduled: bool)
        ensures
            scheduled == self.waits(),
    {
        match self {
            ActivityState::Idle | ActivityState::Snoozed(_) => true,
            _ => false,
        }
    }
}

impl Clone for ActivityState {
    fn clone(&self) -> (copy: ActivityState)
        ensures
            copy == *self,
        decreases self,
    {
        match self {
            ActivityState::Idle => ActivityState::Idle,
            ActivityState::Running => ActivityState::Running,
            ActivityState::Snoozed(duration) => ActivityState::Snoozed(*duration),
            ActivityState::Disabled(prev_state) => ActivityState::Disabled(
                Box::new((&**prev_state).clone()),
            ),
            ActivityState::Completed => ActivityState::Completed,
            ActivityState::Gc => ActivityState::Gc,
        }
    }
}

/// An activity as the scheduler tracks it.
pub struct Activity<T: ActivityId, C: Clock + ?Sized = dyn Clock> {
    /// What the activity was created from.
    pub spec: ActivitySpec<T>,
    /// The current state of the activity.
    pub state: ActivityState,
    /// The time that has counted towards an elapsed-time target so far.
    pub duration_delta: Duration,
    /// What has to be reached before the activity fires.
    pub activation_target: ActivationTarget,
    /// The monotonic time of the last tick.
    pub last_tick: Moment,
    /// When a run was last acknowledged. For consumers only.
    pub last_run_at: Option<UtcTime>,
    /// When the activity was created.
    pub created_at: UtcTime,
    /// The clock that the activity reads.
    pub clock: Arc<C>,
}

impl<T: ActivityId, C: Clock + ?Sized> Activity<T, C> {
    /// The activity that `spec` describes, created at `now` and `now_utc`, with `target` for its
    /// first cycle.
    pub open spec fn created(
        spec: ActivitySpec<T>,
        clock: Arc<C>,
        target: ActivationTarget,
        now: Moment,
        now_utc: UtcTime,
    ) -> Self {
        Activity {
            spec,
            state: ActivityState::Idle,
            duration_delta: Duration::of(0),
            activation_target: target,
            last_tick: now,
            last_run_at: None,
            created_at: now_utc,
            clock,
        }
    }

    /// Whether this is the activity that `spec` describes, newly created on `clock`.
    pub open spec fn is_new(self, spec: ActivitySpec<T>, clock: Arc<C>) -> bool {
        &&& self == Self::created(
            spec,
            clock,
            self.activation_target,
            self.last_tick,
            self.created_at,
        )
        &&& spec.schedule.admits(self.activation_target)
        &&& clock.may_read(self.last_tick)
        &&& clock.may_read_utc(self.created_at)
    }

    /// Whether the target is reached, with `now_utc` on the wall clock.
    pub open spec fn at_target(self, now_utc: UtcTime) -> bool {
        match self.activation_target {
            ActivationTarget::Duration(duration_target) => self.duration_delta@ >= duration_target@,
            ActivationTarget::Date(target_date) => no_later(target_date@, now_utc@),
        }
    }

    /// Whether the activity should run, with `now_utc` on the wall clock.
    pub open spec fn due(self, now_utc: UtcTime) -> bool {
        self.state.waits() && self.at_target(now_utc)
    }

    /// Whether the activity can become garbage: it is paused and has only one date to run on.
    pub open spec fn expires(self) -> bool {
        self.spec.schedule is Scheduled && self.state is Disabled
    }

    /// The activity after a look for garbage, with `now_utc` on the wall clock.
    pub open spec fn gc_marked(self, now_utc: UtcTime) -> Self {
        if self.expires() && self.at_target(now_utc) {
            Activity { state: ActivityState::Gc, ..self }
        } else {
            self
        }
    }

    /// The nanoseconds since the last tick, zero where the clock went back.
    pub open spec fn since_last_tick(self, now: Moment) -> nat {
        saturating_difference(now@, self.last_tick@)
    }

    /// The activity after a tick at `now` and `now_utc`.
    pub open spec fn ticked(self, now: Moment, now_utc: UtcTime) -> Self {
        Activity {
            last_tick: now,
            duration_delta: if self.state.waits() {
                Duration::of(self.duration_delta@ + self.since_last_tick(now))
            } else {
                self.duration_delta
            },
            ..self
        }.gc_marked(now_utc)
    }

    /// Whether a tick at any moment leaves the counted time within a [`Duration`].
    pub open spec fn has_headroom(self) -> bool {
        self.duration_delta@ + MAX_MOMENT_NANOS <= MAX_DURATION_NANOS
    }

    /// Whether the counted time stays within a [`Duration`] whatever its clock may read at the next
    /// tick.
    pub open spec fn has_room(self) -> bool {
        self.state.waits() ==> forall|now: Moment|
            #![trigger self.since_last_tick(now)]
            self.clock.may_read(now) && now.in_range() ==> self.duration_delta@
                + self.since_last_tick(now) <= MAX_DURATION_NANOS
    }

    /// Whether a tick may turn the activity into `after`, given what its clock may read. The wall
    /// clock is read only for an activity that [`expires`](Activity::expires) on a date.
    pub open spec fn ticks_to(self, after: Self) -> bool {
        exists|now: Moment, now_utc: UtcTime|
            {
                &&& self.clock.may_read(now)
                &&& (self.expires() && self.activation_target is Date ==> self.clock.may_read_utc(
                    now_utc,
                ))
                &&& after == #[trigger] self.ticked(now, now_utc)
            }
    }

    /// The activity after it was handed out to be run.
    pub open spec fn claimed(self) -> Self {
        Activity { state: ActivityState::Running, duration_delta: Duration::of(0), ..self }
    }

    /// Whether `now_utc` is a wall-clock time against which the target may be held. An elapsed-time
    /// target is held against none.
    pub open spec fn may_hold_against(self, now_utc: UtcTime) -> bool {
        self.activation_target is Date ==> self.clock.may_read_utc(now_utc)
    }

    /// Whether the target may be found reached, or not reached, given what the clock may read.
    pub open spec fn may_be_at_target(self, reached: bool) -> bool {
        exists|now_utc: UtcTime|
            #![trigger self.at_target(now_utc)]
            self.may_hold_against(now_utc) && reached == self.at_target(now_utc)
    }

    /// Whether the activity may be found due, or not due, given what the clock may read.
    pub open spec fn may_be_due(self, due: bool) -> bool {
        if self.state.waits() {
            self.may_be_at_target(due)
        } else {
            !due
        }
    }

    /// The activity after it is enabled, or disabled where `enabled` is false.
    pub open spec fn with_enabled(self, enabled: bool) -> Self {
        Activity { state: self.state.set_enabled(enabled), ..self }
    }

    /// The activity with a target that is reached at once, with `now_utc` on the wall clock.
    pub open spec fn immediate(self, now_utc: UtcTime) -> Self {
        Activity {
            activation_target: match self.activation_target {
                ActivationTarget::Duration(_) => ActivationTarget::Duration(Duration::of(0)),
                ActivationTarget::Date(_) => ActivationTarget::Date(now_utc),
            },
            ..self
        }
    }

    /// Whether `ack` ends the life of the activity: it had only one date to run on, and was not
    /// snoozed.
    pub open spec fn completes(self, ack: AckMessage) -> bool {
        self.spec.schedule is Scheduled && ack is Done
    }

    /// The activity after its run was acknowledged with `ack` at `now_utc`, where the next cycle
    /// waits for `target`.
    pub open spec fn finished(
        self,
        ack: AckMessage,
        target: ActivationTarget,
        now_utc: UtcTime,
    ) -> Self {
        if self.completes(ack) {
            Activity { state: ActivityState::Completed, ..self }
        } else {
            Activity {
                last_run_at: Some(now_utc),
                activation_target: target,
                duration_delta: Duration::of(0),
                state: match ack {
                    AckMessage::Done => ActivityState::Idle,
                    AckMessage::Snooze(duration) => ActivityState::Snoozed(duration),
                },
                ..self
            }
        }
    }

    /// Whether the next cycle may wait for `target` after `ack`: the length of the snooze, or
    /// whatever the schedule asks for.
    pub open spec fn may_wait_for(self, ack: AckMessage, target: ActivationTarget) -> bool {
        match ack {
            AckMessage::Done => self.spec.schedule.admits(target),
            AckMessage::Snooze(duration) => target == ActivationTarget::Duration(duration),
        }
    }

    /// Whether an acknowledgement with `ack` may turn the activity into `after`. The wall clock is
    /// read only where the activity goes on.
    pub open spec fn finishes_to(self, ack: AckMessage, after: Self) -> bool {
        exists|target: ActivationTarget, now_utc: UtcTime|
            {
                &&& self.may_wait_for(ack, target)
                &&& (!self.completes(ack) ==> self.clock.may_read_utc(now_utc))
                &&& after == #[trigger] self.finished(ack, target, now_utc)
            }
    }

    /// Creates an activity from readings already taken.
    pub fn new_at(
        spec: ActivitySpec<T>,
        clock: Arc<C>,
        target: ActivationTarget,
        now: Moment,
        now_utc: UtcTime,
    ) -> (activity: Self)
        ensures
            activity == Self::created(spec, clock, target, now, now_utc),
    {
        Activity {
            spec,
            state: ActivityState::Idle,
            duration_delta: Duration::zero(),
            activation_target: target,
            last_tick: now,
            last_run_at: None,
            created_at: now_utc,
            clock,
        }
    }

    /// Creates an activity.
    pub fn new(spec: ActivitySpec<T>, clock: Arc<C>) -> (activity: Self)
        requires
            spec.is_valid(),
        ensures
            activity.is_new(spec, clock),
    {
        let target = ActivationTarget::from(spec.schedule);
        let now = clock.now();
        let now_utc = clock.now_utc();
        Activity::new_at(spec, clock, target, now, now_utc)
    }

    /// Advances the time of the activity to readings already taken.
    pub fn tick_at(&mut self, now: Moment, now_utc: UtcTime)
        requires
            old(self).state.waits() ==> old(self).duration_delta@ + old(self).since_last_tick(now)
                <= MAX_DURATION_NANOS,
        ensures
            *final(self) == old(self).ticked(now, now_utc),
    {
        let tick_delta = now.saturating_duration_since(&self.last_tick);
        self.last_tick = now;
        if self.state.is_scheduled() {
            self.duration_delta = self.duration_delta.plus(&tick_delta);
        }
        self.try_gc_mark_at(now_utc);
    }

    /// Advances the time of the activity to what its clock shows.
    ///
    /// Time counts towards the target only while the activity is idle or snoozed.
    pub fn tick(&mut self)
        requires
            old(self).has_room(),
        ensures
            old(self).ticks_to(*final(self)),
    {
        let now = self.clock.now();
        let now_utc = if self.is_expiring() {
            self.target_reading()
        } else {
            self.created_at
        };
        proof {
            use_type_invariant(&now);
        }
        self.tick_at(now, now_utc);
    }

    /// Tells whether a tick at any moment leaves the counted time within a [`Duration`].
    pub fn can_tick(&self) -> (can: bool)
        ensures
            can == self.has_headroom(),
            can ==> self.has_room(),
    {
        self.duration_delta.as_nanos() <= MAX_DURATION_NANOS - MAX_MOMENT_NANOS
    }

    /// Tells whether the activity is paused and has only one date to run on.
    fn is_expiring(&self) -> (expiring: bool)
        ensures
            expiring == self.expires(),
    {
        matches!(self.spec.schedule, ActivitySchedule::Scheduled { .. }) && matches!(
            self.state,
            ActivityState::Disabled(_)
        )
    }

    /// The wall-clock time to hold the target against. For an elapsed-time target the clock is not
    /// read and the time of creation stands in.
    fn target_reading(&self) -> (now_utc: UtcTime)
        ensures
            self.may_hold_against(now_utc),
    {
        match self.activation_target {
            ActivationTarget::Duration(_) => self.created_at,
            ActivationTarget::Date(_) => self.clock.now_utc(),
        }
    }

    /// Marks the activity as garbage where its only date came while it was paused, with `now_utc`
    /// on the wall clock.
    pub fn try_gc_mark_at(&mut self, now_utc: UtcTime)
        ensures
            *final(self) == old(self).gc_marked(now_utc),
    {
        if self.is_expiring() && self.is_at_target_at(now_utc) {
            self.state = ActivityState::Gc;
        }
    }

    /// Marks the activity as garbage where its only date came while it was paused.
    pub fn try_gc_mark(&mut self)
        ensures
            !old(self).expires() ==> *final(self) == *old(self),
            old(self).expires() ==> exists|now_utc: UtcTime|
                {
                    &&& old(self).may_hold_against(now_utc)
                    &&& *final(self) == #[trigger] old(self).gc_marked(now_utc)
                },
    {
        if self.is_expiring() {
            let now_utc = self.target_reading();
            self.try_gc_mark_at(now_utc);
        }
    }

    /// Claims the activity for a run where it is due, with `now_utc` on the wall clock.
    pub fn claim_if_due_at(&mut self, now_utc: UtcTime) -> (claimed: Option<T>)
        ensures
            claimed == if old(self).due(now_utc) {
                Some(old(self).spec.id)
            } else {
                None
            },
            *final(self) == if old(self).due(now_utc) {
                old(self).claimed()
            } else {
                *old(self)
            },
    {
        if self.should_run_at(now_utc) {
            self.state = ActivityState::Running;
            self.duration_delta = Duration::zero();
            Some(self.spec.id)
        } else {
            None
        }
    }

    /// Claims the activity for a run where it is due, and gives its id.
    pub fn claim_if_due(&mut self) -> (claimed: Option<T>)
        ensures
            old(self).may_be_due(claimed is Some),
            claimed matches Some(id) ==> id == old(self).spec.id,
            *final(self) == if claimed is Some {
                old(self).claimed()
            } else {
                *old(self)
            },
    {
        if self.state.is_scheduled() {
            let now_utc = self.target_reading();
            self.claim_if_due_at(now_utc)
        } else {
            None
        }
    }

    /// Enables the activity, which brings back the state that it was disabled in, or disables it.
    /// To do so twice is the same as once.
    pub fn set_enabled(&mut self, enabled: bool)
        ensures
            *final(self) == old(self).with_enabled(enabled),
    {
        if enabled {
            if let ActivityState::Disabled(prev_state) = &self.state {
                let prev_state = (&**prev_state).clone();
                self.state = prev_state;
            }
        } else if !matches!(self.state, ActivityState::Disabled(_)) {
            let prev_state = Box::new(self.state.clone());
            self.state = ActivityState::Disabled(prev_state);
        }
    }

    /// Tells whether the activity should run, with `now_utc` on the wall clock.
    pub fn should_run_at(&self, now_utc: UtcTime) -> (due: bool)
        ensures
            due == self.due(now_utc),
    {
        self.state.is_scheduled() && self.is_at_target_at(now_utc)
    }

    /// Tells whether the activity should run: it is idle or snoozed, and its target is reached.
    pub fn should_run(&self) -> (due: bool)
        ensures
            self.may_be_due(due),
    {
        self.state.is_scheduled() && self.is_at_target()
    }

    /// Tells whether the target is reached, with `now_utc` on the wall clock.
    pub fn is_at_target_at(&self, now_utc: UtcTime) -> (reached: bool)
        ensures
            reached == self.at_target(now_utc),
    {
        match self.activation_target {
            ActivationTarget::Duration(duration_target) => self.duration_delta.at_least(
                &duration_target,
            ),
            ActivationTarget::Date(target_date) => now_utc.at_or_after(&target_date),
        }
    }

    /// Tells whether the activity has reached its elapsed time or its date.
    pub fn is_at_target(&self) -> (reached: bool)
        ensures
            self.may_be_at_target(reached),
    {
        let now_utc = self.target_reading();
        self.is_at_target_at(now_utc)
    }

    /// Sets a target that is reached at once, with `now_utc` on the wall clock.
    pub fn set_immediate_at(&mut self, now_utc: UtcTime)
        ensures
            *final(self) == old(self).immediate(now_utc),
    {
        match self.activation_target {
            ActivationTarget::Duration(_) => {
                self.activation_target = ActivationTarget::Duration(Duration::zero());
            },
            ActivationTarget::Date(_) => {
                self.activation_target = ActivationTarget::Date(now_utc);
            },
        }
    }

    /// Sets a target that is reached at once: no elapsed time, or the present as date.
    pub fn set_immediate(&mut self)
        ensures
            exists|now_utc: UtcTime|
                {
                    &&& old(self).may_hold_against(now_utc)
                    &&& *final(self) == #[trigger] old(self).immediate(now_utc)
                },
    {
        let now_utc = self.target_reading();
        self.set_immediate_at(now_utc);
    }

    /// Applies the acknowledgement of a run at `now_utc`, after which the next cycle waits for
    /// `target`.
    pub fn finish_at(&mut self, ack: AckMessage, target: ActivationTarget, now_utc: UtcTime)
        ensures
            *final(self) == old(self).finished(ack, target, now_utc),
    {
        let next_state = match ack {
            AckMessage::Snooze(duration) => ActivityState::Snoozed(duration),
            AckMessage::Done => ActivityState::Idle,
        };
        if matches!(self.spec.schedule, ActivitySchedule::Scheduled { .. }) && !matches!(
            next_state,
            ActivityState::Snoozed(_)
        ) {
            self.state = ActivityState::Completed;
        } else {
            self.last_run_at = Some(now_utc);
            self.activation_target = target;
            self.duration_delta = Duration::zero();
            self.state = next_state;
        }
    }

    /// Applies the acknowledgement of a run.
    ///
    /// - After [`AckMessage::Done`] the activity is idle and waits for its schedule again, or is
    ///   completed where it was to run only once.
    /// - After [`AckMessage::Snooze`] it is snoozed, and waits for that long.
    pub fn finish(&mut self, ack: AckMessage)
        requires
            ack is Done ==> old(self).spec.is_valid(),
        ensures
            old(self).finishes_to(ack, *final(self)),
    {
        let target = match ack {
            AckMessage::Snooze(duration) => ActivationTarget::Duration(duration),
            AckMessage::Done => ActivationTarget::from(self.spec.schedule),
        };
        let now_utc = if matches!(self.spec.schedule, ActivitySchedule::Scheduled { .. })
            && matches!(ack, AckMessage::Done) {
            self.created_at
        } else {
            self.clock.now_utc()
        };
        self.finish_at(ack, target, now_utc);
    }
}

/// `low` or `high` where `value` lies outside of these, else `value`.
pub open spec fn clamped(value: int, low: int, high: int) -> int {
    if value < low {
        low
    } else if value > high {
        high
    } else {
        value
    }
}

/// The quotient `elapsed / total`, held to between 0 and 1, as numerator and denominator. Where
/// nothing has to elapse at all, it is 1 from the start.
pub open spec fn fraction(elapsed: int, total: int) -> (int, int) {
    if total > 0 {
        (clamped(elapsed, 0, total), total)
    } else if total < 0 {
        (clamped(-elapsed, 0, -total), -total)
    } else if elapsed >= 0 {
        (1, 1)
    } else {
        (0, 1)
    }
}

/// How close an activity is to firing: `part` out of `whole`.
#[derive(Debug, Clone, Copy, PartialEq, Eq)]
pub struct Progress {
    pub part: u128,
    pub whole: u128,
}

impl Progress {
    /// The progress of `elapsed` out of `total`, which a clock that went back, or a target that lay
    /// in the past, may make negative.
    pub fn of(elapsed: i128, total: i128) -> (progress: Progress)
        requires
            i128::MIN < elapsed,
            i128::MIN < total,
        ensures
            (progress.part as int, progress.whole as int) == fraction(elapsed as int, total as int),
            progress.part <= progress.whole,
            0 < progress.whole,
    {
        if total == 0 {
            return Progress {
                part: if elapsed >= 0 {
                    1
                } else {
                    0
                },
                whole: 1,
            };
        }
        let (elapsed, total): (i128, i128) = if total > 0 {
            (elapsed, total)
        } else {
            (-elapsed, -total)
        };
        let part: i128 = if elapsed < 0 {
            0
        } else if elapsed > total {
            total
        } else {
            elapsed
        };
        Progress { part: part as u128, whole: total as u128 }
    }
}

impl<T: ActivityId, C: Clock + ?Sized> Activity<T, C> {
    /// The [`fraction`] of the way to the target, with `now_utc` on the wall clock: of the elapsed
    /// time to wait for, in nanoseconds, or of the time from creation to the target date, in
    /// milliseconds.
    pub open spec fn progress_fraction(self, now_utc: UtcTime) -> (int, int) {
        match self.activation_target {
            ActivationTarget::Duration(duration_target) => fraction(
                self.duration_delta@ as int,
                duration_target@ as int,
            ),
            ActivationTarget::Date(target_date) => fraction(
                whole_millis(nanos_between(now_utc@, self.created_at@)),
                whole_millis(nanos_between(target_date@, self.created_at@)),
            ),
        }
    }

    /// Tells how close the activity is to firing, with `now_utc` on the wall clock.
    pub fn progress_at(&self, now_utc: UtcTime) -> (progress: Progress)
        ensures
            (progress.part as int, progress.whole as int) == self.progress_fraction(now_utc),
            progress.part <= progress.whole,
            0 < progress.whole,
    {
        match self.activation_target {
            ActivationTarget::Duration(duration_target) => {
                let elapsed: u128 = self.duration_delta.as_nanos();
                let total: u128 = duration_target.as_nanos();
                Progress::of(elapsed as i128, total as i128)
            },
            ActivationTarget::Date(target_date) => {
                let elapsed: i64 = now_utc.millis_since(&self.created_at);
                let total: i64 = target_date.millis_since(&self.created_at);
                Progress::of(elapsed as i128, total as i128)
            },
        }
    }

    /// Tells how close the activity is to firing.
    ///
    /// - For an elapsed-time target, the part of it that has counted so far. It starts again from
    ///   nothing each time the activity runs.
    /// - For a date, the part of the wall-clock time from creation to that date that has gone by.
    pub fn progress(&self) -> (progress: Progress)
        ensures
            exists|now_utc: UtcTime|
                {
                    &&& self.may_hold_against(now_utc)
                    &&& (progress.part as int, progress.whole as int)
                        == #[trigger] self.progress_fraction(now_utc)
                },
            progress.part <= progress.whole,
            0 < progress.whole,
    {
        let now_utc = self.target_reading();
        self.progress_at(now_utc)
    }
}

impl<T: ActivityId, C: Clock + ?Sized> Clone for Activity<T, C> {
    fn clone(&self) -> (copy: Self)
        ensures
            copy == *self,
    {
        Activity {
            spec: self.spec.clone(),
            state: self.state.clone(),
            duration_delta: self.duration_delta,
            activation_target: self.activation_target,
            last_tick: self.last_tick,
            last_run_at: self.last_run_at,
            created_at: self.created_at,
            clock: self.clock.clone(),
        }
    }
}

} // verus!
