//! What each operation does, told by the fields and numbers that it reads and leaves.
//!
//! The other modules state their contracts over named notions: an activity that is due, a schedule
//! that can be followed, a point that has moved on. Here these notions are held to what they are
//! for.

use crate::ack::AckMessage;
use crate::activation_target::ActivationTarget;
use crate::activity::{fraction, Activity, ActivityId, ActivityState};
use crate::activity_spec::{may_be_drawn, ActivitySchedule, ActivitySpec};
use crate::clock::{Clock, SystemClock, TestClock, TestState};
use crate::driver::{proceeds, DriverAction, DriverEvent, DriverPhase, GRACE_SECS};
use crate::laws::ticked_through;
use crate::schedule::{accepts, all_valid, answers, can_follow, can_register, can_tick, claims_all};
use crate::schedule::{finishes_one, has_room, is_last, is_sound, lemma_registrable_bound, lists};
use crate::schedule::{max_buffer, may_track, names, registrable, ticks_all, ticks_one};
use crate::schedule::{tracks_afresh, tracks_new};
use crate::schedule::{Command, Reply, Scheduler, SchedulerError};
use crate::time::{saturating_difference, Duration, Moment};
use crate::time::{MAX_DURATION_NANOS, MAX_MOMENT_NANOS, NANOS_PER_SEC};
use crate::utc::{moved_on, nanos_between, no_later, valid_parts, whole_millis, UtcTime};
use crate::utc::{MAX_STEP_NANOS, MAX_UTC_SECS, MIN_UTC_SECS};
use crate::{Ritualist, RitualistBuilder, RunningRitualist};
use std::sync::Arc;
use vstd::prelude::*;
use vstd::std_specs::hash::obeys_key_model;

verus! {

broadcast use crate::time::group_time;

/// An activity waits while it is idle or snoozed. A scheduler keeps it while it waits or runs, or is
/// paused out of that.
pub proof fn law_states(state: ActivityState)
    ensures
        state.waits() <==> state is Idle || state is Snoozed,
        state.is_live() <==> match state {
            ActivityState::Idle | ActivityState::Running | ActivityState::Snoozed(_) => true,
            ActivityState::Disabled(prev) => *prev is Idle || *prev is Running || *prev is Snoozed,
            ActivityState::Completed | ActivityState::Gc => false,
        },
{
}

/// To disable wraps the state once; to enable unwraps it once. Nothing but the state changes.
pub proof fn law_switch_effect<T: ActivityId, C: Clock + ?Sized>(activity: Activity<T, C>)
    ensures
        activity.state is Disabled ==> activity.with_enabled(false) == activity,
        !(activity.state is Disabled) ==> activity.with_enabled(false).state
            == ActivityState::Disabled(Box::new(activity.state)),
        !(activity.state is Disabled) ==> activity.with_enabled(true) == activity,
        activity.state matches ActivityState::Disabled(prev) ==> activity.with_enabled(true).state
            == *prev,
        forall|enabled: bool|
            {
                let after = #[trigger] activity.with_enabled(enabled);
                &&& after.spec == activity.spec
                &&& after.duration_delta == activity.duration_delta
                &&& after.activation_target == activity.activation_target
                &&& after.last_tick == activity.last_tick
                &&& after.last_run_at == activity.last_run_at
                &&& after.created_at == activity.created_at
                &&& after.clock == activity.clock
            },
{
}

/// A schedule cannot be followed just where it draws from a range that is empty, down to the
/// nanosecond.
pub proof fn law_only_empty_ranges_are_invalid<T: ActivityId>(spec: ActivitySpec<T>)
    ensures
        !spec.is_valid() <==> (spec.schedule matches ActivitySchedule::RandomInterval { min, max }
            && min@ >= max@),
        spec.is_valid() == spec.schedule.is_valid(),
{
}

/// A cycle waits for the interval of its schedule, for a span drawn from its range, or for its date.
pub proof fn law_cycle_waits_for_its_schedule(
    schedule: ActivitySchedule,
    target: ActivationTarget,
)
    ensures
        schedule matches ActivitySchedule::FixedInterval { duration } ==> (schedule.admits(target)
            <==> (target matches ActivationTarget::Duration(span) && span@ == duration@)),
        schedule matches ActivitySchedule::RandomInterval { min, max } ==> (schedule.admits(target)
            <==> (target matches ActivationTarget::Duration(span) && min@ <= span@ && span@ < max@
            && may_be_drawn(min@, max@, span@))),
        schedule matches ActivitySchedule::Scheduled { date } ==> (schedule.admits(target)
            <==> target == ActivationTarget::Date(date)),
{
    if let ActivitySchedule::FixedInterval { duration } = schedule {
        if let ActivationTarget::Duration(span) = target {
            assert(Duration::of(span@) == span && Duration::of(duration@) == duration);
        }
    }
}

/// A new activity is idle, with no time counted and no run behind it, and was created at readings of
/// its clock.
pub proof fn law_new_effect<T: ActivityId, C: Clock + ?Sized>(
    activity: Activity<T, C>,
    spec: ActivitySpec<T>,
    clock: Arc<C>,
)
    requires
        activity.is_new(spec, clock),
    ensures
        activity.spec == spec,
        activity.clock == clock,
        activity.state is Idle,
        activity.duration_delta@ == 0,
        activity.last_run_at is None,
        spec.schedule.admits(activity.activation_target),
        clock.may_read(activity.last_tick),
        clock.may_read_utc(activity.created_at),
{
}

/// An activity that is made from readings keeps each of them where it belongs.
pub proof fn law_created_effect<T: ActivityId, C: Clock + ?Sized>(
    spec: ActivitySpec<T>,
    clock: Arc<C>,
    target: ActivationTarget,
    now: Moment,
    now_utc: UtcTime,
)
    ensures
        ({
            let activity = Activity::created(spec, clock, target, now, now_utc);
            &&& activity.spec == spec
            &&& activity.clock == clock
            &&& activity.state is Idle
            &&& activity.duration_delta@ == 0
            &&& activity.activation_target == target
            &&& activity.last_tick == now
            &&& activity.last_run_at is None
            &&& activity.created_at == now_utc
        }),
{
}

/// In every state, an elapsed-time target is reached just when as much time has counted, down to the
/// nanosecond, and a date just when it has come. An activity is due just when it is idle or snoozed
/// on top of that.
pub proof fn law_target_reached<T: ActivityId, C: Clock + ?Sized>(
    activity: Activity<T, C>,
    now_utc: UtcTime,
)
    ensures
        activity.activation_target matches ActivationTarget::Duration(span) ==> (activity.at_target(
            now_utc,
        ) <==> activity.duration_delta@ >= span@),
        activity.activation_target matches ActivationTarget::Date(date) ==> (activity.at_target(
            now_utc,
        ) <==> (date@.0 < now_utc@.0 || (date@.0 == now_utc@.0 && date@.1 <= now_utc@.1))),
        activity.due(now_utc) <==> (activity.state is Idle || activity.state is Snoozed)
            && activity.at_target(now_utc),
{
}

/// What an activity is found to be rests on the counted time alone, or on a reading of its clock
/// that the date is held against.
pub proof fn law_found_by_a_reading<T: ActivityId, C: Clock + ?Sized>(
    activity: Activity<T, C>,
    found: bool,
)
    ensures
        activity.activation_target matches ActivationTarget::Duration(span)
            ==> activity.may_be_at_target(found) ==> (found <==> activity.duration_delta@ >= span@),
        activity.activation_target matches ActivationTarget::Date(date)
            ==> activity.may_be_at_target(found) ==> exists|now_utc: UtcTime| #[trigger]
            activity.clock.may_read_utc(now_utc) && (found <==> date@.0 < now_utc@.0 || (date@.0
                == now_utc@.0 && date@.1 <= now_utc@.1)),
        !(activity.state is Idle || activity.state is Snoozed) ==> (activity.may_be_due(found)
            <==> !found),
        activity.state is Idle || activity.state is Snoozed ==> (activity.may_be_due(found)
            <==> activity.may_be_at_target(found)),
        forall|now_utc: UtcTime|
            activity.activation_target is Date && #[trigger] activity.may_hold_against(now_utc)
                ==> activity.clock.may_read_utc(now_utc),
{
}

/// A tick notes the time in every state and for every schedule. Time since the last tick counts
/// while the activity is idle or snoozed, and else not at all. Nothing else changes, but that a
/// paused one-shot activity which has reached its target becomes garbage.
pub proof fn law_tick_effect<T: ActivityId, C: Clock + ?Sized>(
    activity: Activity<T, C>,
    now: Moment,
    now_utc: UtcTime,
)
    ensures
        ({
            let after = activity.ticked(now, now_utc);
            let waiting = activity.state is Idle || activity.state is Snoozed;
            let reached = match activity.activation_target {
                ActivationTarget::Duration(span) => activity.duration_delta@ >= span@,
                ActivationTarget::Date(date) => date@.0 < now_utc@.0 || (date@.0 == now_utc@.0
                    && date@.1 <= now_utc@.1),
            };
            let thrown_away = activity.spec.schedule is Scheduled && activity.state is Disabled
                && reached;
            &&& after.last_tick == now
            &&& waiting && now@ >= activity.last_tick@ && activity.duration_delta@ + (now@
                - activity.last_tick@) <= MAX_DURATION_NANOS ==> after.duration_delta@
                - activity.duration_delta@ == now@ - activity.last_tick@
            &&& waiting && now@ <= activity.last_tick@ ==> after.duration_delta
                == activity.duration_delta
            &&& !waiting ==> after.duration_delta == activity.duration_delta
            &&& thrown_away ==> after.state is Gc
            &&& !thrown_away ==> after.state == activity.state
            &&& after.spec == activity.spec
            &&& after.activation_target == activity.activation_target
            &&& after.last_run_at == activity.last_run_at
            &&& after.created_at == activity.created_at
            &&& after.clock == activity.clock
        }),
{
}

/// A tick goes by a reading of the activity's own clock, and a paused one-shot activity is held
/// against another one where it waits for a date.
pub proof fn law_tick_reads_the_clock<T: ActivityId, C: Clock + ?Sized>(
    activity: Activity<T, C>,
    after: Activity<T, C>,
)
    requires
        activity.ticks_to(after),
    ensures
        activity.clock.may_read(after.last_tick),
        exists|now_utc: UtcTime| after == #[trigger] activity.ticked(after.last_tick, now_utc),
        ({
            let may_expire = activity.spec.schedule is Scheduled && activity.state is Disabled;
            &&& !may_expire ==> after.state == activity.state
            &&& may_expire ==> {
                &&& activity.activation_target matches ActivationTarget::Duration(span) ==> (
                after.state is Gc <==> activity.duration_delta@ >= span@)
                &&& activity.activation_target matches ActivationTarget::Date(date) ==> exists|
                    now_utc: UtcTime,
                | #[trigger]
                    activity.clock.may_read_utc(now_utc) && (after.state is Gc <==> date@.0
                        < now_utc@.0 || (date@.0 == now_utc@.0 && date@.1 <= now_utc@.1))
            }
        }),
{
    let (now, now_utc) = choose|now: Moment, now_utc: UtcTime|
        {
            &&& activity.clock.may_read(now)
            &&& (activity.expires() && activity.activation_target is Date
                ==> activity.clock.may_read_utc(now_utc))
            &&& after == #[trigger] activity.ticked(now, now_utc)
        };
    assert(after == activity.ticked(after.last_tick, now_utc));
}

/// A look for garbage changes nothing but the state, and that only of a paused one-shot activity
/// which has reached its target.
pub proof fn law_gc_effect<T: ActivityId, C: Clock + ?Sized>(
    activity: Activity<T, C>,
    now_utc: UtcTime,
)
    ensures
        activity.expires() <==> activity.spec.schedule is Scheduled && activity.state is Disabled,
        ({
            let reached = match activity.activation_target {
                ActivationTarget::Duration(span) => activity.duration_delta@ >= span@,
                ActivationTarget::Date(date) => date@.0 < now_utc@.0 || (date@.0 == now_utc@.0
                    && date@.1 <= now_utc@.1),
            };
            let after = activity.gc_marked(now_utc);
            &&& activity.spec.schedule is Scheduled && activity.state is Disabled && reached
                ==> after.state is Gc
            &&& !(activity.spec.schedule is Scheduled && activity.state is Disabled && reached)
                ==> after.state == activity.state
            &&& after.spec == activity.spec
            &&& after.duration_delta == activity.duration_delta
            &&& after.activation_target == activity.activation_target
            &&& after.last_tick == activity.last_tick
            &&& after.last_run_at == activity.last_run_at
            &&& after.created_at == activity.created_at
            &&& after.clock == activity.clock
        }),
{
}

/// A claim makes the activity run, and starts the count of time again. Nothing else changes.
pub proof fn law_claim_effect<T: ActivityId, C: Clock + ?Sized>(activity: Activity<T, C>)
    ensures
        ({
            let after = activity.claimed();
            &&& after.state is Running
            &&& after.duration_delta@ == 0
            &&& after.spec == activity.spec
            &&& after.activation_target == activity.activation_target
            &&& after.last_tick == activity.last_tick
            &&& after.last_run_at == activity.last_run_at
            &&& after.created_at == activity.created_at
            &&& after.clock == activity.clock
        }),
{
}

/// An acknowledgement ends the life of a one-shot activity that is done. Else the activity waits
/// again: for the length of the snooze, or as its schedule asks, with no time counted and the
/// present noted as its last run. In no case does the time of the last tick move.
pub proof fn law_finish_effect<T: ActivityId, C: Clock + ?Sized>(
    activity: Activity<T, C>,
    ack: AckMessage,
    after: Activity<T, C>,
)
    requires
        activity.finishes_to(ack, after),
    ensures
        activity.completes(ack) <==> activity.spec.schedule is Scheduled && ack is Done,
        after.spec == activity.spec,
        after.last_tick == activity.last_tick,
        after.created_at == activity.created_at,
        after.clock == activity.clock,
        activity.spec.schedule is Scheduled && ack is Done ==> {
            &&& after.state is Completed
            &&& after.duration_delta == activity.duration_delta
            &&& after.activation_target == activity.activation_target
            &&& after.last_run_at == activity.last_run_at
        },
        !(activity.spec.schedule is Scheduled && ack is Done) ==> {
            &&& after.duration_delta@ == 0
            &&& after.last_run_at matches Some(at) && activity.clock.may_read_utc(at)
        },
        ack matches AckMessage::Snooze(length) ==> {
            &&& after.state == ActivityState::Snoozed(length)
            &&& after.activation_target == ActivationTarget::Duration(length)
        },
        ack is Done && !(activity.spec.schedule is Scheduled) ==> {
            &&& after.state is Idle
            &&& activity.spec.schedule.admits(after.activation_target)
        },
{
}

/// An acknowledgement that is given its readings puts each of them where it belongs.
pub proof fn law_finished_effect<T: ActivityId, C: Clock + ?Sized>(
    activity: Activity<T, C>,
    ack: AckMessage,
    target: ActivationTarget,
    now_utc: UtcTime,
)
    ensures
        ({
            let after = activity.finished(ack, target, now_utc);
            let over = activity.spec.schedule is Scheduled && ack is Done;
            &&& over ==> after.state is Completed && after.duration_delta == activity.duration_delta
                && after.activation_target == activity.activation_target && after.last_run_at
                == activity.last_run_at
            &&& !over ==> after.duration_delta@ == 0 && after.activation_target == target
                && after.last_run_at == Some(now_utc)
            &&& !over && ack is Done ==> after.state is Idle
            &&& ack matches AckMessage::Snooze(length) ==> after.state == ActivityState::Snoozed(
                length,
            )
            &&& after.spec == activity.spec
            &&& after.last_tick == activity.last_tick
            &&& after.created_at == activity.created_at
            &&& after.clock == activity.clock
        }),
{
}

/// An immediate target asks for no elapsed time, or for the present as date. Nothing else changes.
pub proof fn law_immediate_effect<T: ActivityId, C: Clock + ?Sized>(
    activity: Activity<T, C>,
    now_utc: UtcTime,
)
    ensures
        ({
            let after = activity.immediate(now_utc);
            &&& activity.activation_target is Duration ==> (after.activation_target matches
                ActivationTarget::Duration(span) && span@ == 0)
            &&& activity.activation_target is Date ==> after.activation_target
                == ActivationTarget::Date(now_utc)
            &&& after.state == activity.state
            &&& after.spec == activity.spec
            &&& after.duration_delta == activity.duration_delta
            &&& after.last_tick == activity.last_tick
            &&& after.last_run_at == activity.last_run_at
            &&& after.created_at == activity.created_at
            &&& after.clock == activity.clock
        }),
{
}

/// Time under way never counts: a run that was ticked, and is then snoozed, is due at a later tick
/// just when the clock has moved on by the length of the snooze since the last tick of the run.
/// That holds of one-shot activities too.
pub proof fn law_time_under_way_never_counts<T: ActivityId, C: Clock + ?Sized>(
    activity: Activity<T, C>,
    readings: Seq<(Moment, UtcTime)>,
    length: Duration,
    snoozed: Activity<T, C>,
    now: Moment,
    now_utc: UtcTime,
)
    requires
        readings.len() > 0,
        ticked_through(activity.claimed(), readings).finishes_to(
            AckMessage::Snooze(length),
            snoozed,
        ),
        readings.last().0@ <= now@ <= MAX_MOMENT_NANOS,
    ensures
        snoozed.last_tick == readings.last().0,
        snoozed.ticked(now, now_utc).due(now_utc) <==> now@ - readings.last().0@ >= length@,
{
    let before = ticked_through(activity.claimed(), readings.drop_last());
    law_running_through(activity, readings.drop_last());
    law_tick_effect(before, readings.last().0, readings.last().1);
    law_tick_effect(snoozed, now, now_utc);
}

/// A run that is only ticked goes on.
pub proof fn law_running_through<T: ActivityId, C: Clock + ?Sized>(
    activity: Activity<T, C>,
    readings: Seq<(Moment, UtcTime)>,
)
    ensures
        ticked_through(activity.claimed(), readings).state is Running,
        ticked_through(activity.claimed(), readings).duration_delta@ == 0,
        readings.len() > 0 ==> ticked_through(activity.claimed(), readings).last_tick
            == readings.last().0,
    decreases readings.len(),
{
    if readings.len() > 0 {
        law_running_through(activity, readings.drop_last());
    }
}

/// A snoozed activity that is paused at once outlives any number of ticks, one-shot or not, and is
/// as far from its target once it is enabled again.
pub proof fn law_paused_snooze_survives<T: ActivityId, C: Clock + ?Sized>(
    activity: Activity<T, C>,
    length: Duration,
    snoozed: Activity<T, C>,
    readings: Seq<(Moment, UtcTime)>,
)
    requires
        length@ > 0,
        activity.finishes_to(AckMessage::Snooze(length), snoozed),
    ensures
        ({
            let paused = ticked_through(snoozed.with_enabled(false), readings);
            &&& paused.state == ActivityState::Disabled(
                Box::new(ActivityState::Snoozed(length)),
            )
            &&& paused.duration_delta@ == 0
            &&& paused.activation_target == ActivationTarget::Duration(length)
            &&& paused.with_enabled(true).state == ActivityState::Snoozed(length)
        }),
    decreases readings.len(),
{
    if readings.len() > 0 {
        law_paused_snooze_survives(activity, length, snoozed, readings.drop_last());
    }
}

/// Progress towards an elapsed-time target is the counted time out of that target, in every state,
/// and no more than all of it.
pub proof fn law_interval_progress_is_the_counted_part<T: ActivityId, C: Clock + ?Sized>(
    activity: Activity<T, C>,
    target: Duration,
    now_utc: UtcTime,
)
    requires
        activity.activation_target == ActivationTarget::Duration(target),
    ensures
        ({
            let (part, whole) = activity.progress_fraction(now_utc);
            &&& 0 <= part <= whole
            &&& 0 < whole
            &&& target@ > 0 && activity.duration_delta@ <= target@ ==> part * target@
                == activity.duration_delta@ * whole
            &&& activity.duration_delta@ >= target@ ==> part == whole
        }),
{
}

/// Progress towards a date is the time since creation out of the time from creation to that date, in
/// whole milliseconds, and neither less than nothing nor more than all of it.
pub proof fn law_date_progress_is_the_elapsed_part<T: ActivityId, C: Clock + ?Sized>(
    activity: Activity<T, C>,
    date: UtcTime,
    now_utc: UtcTime,
)
    requires
        activity.activation_target == ActivationTarget::Date(date),
    ensures
        ({
            let (part, whole) = activity.progress_fraction(now_utc);
            let elapsed = whole_millis(nanos_between(now_utc@, activity.created_at@));
            let total = whole_millis(nanos_between(date@, activity.created_at@));
            &&& 0 <= part <= whole
            &&& 0 < whole
            &&& total > 0 && 0 <= elapsed <= total ==> part * total == elapsed * whole
            &&& total > 0 && elapsed <= 0 ==> part == 0
            &&& total > 0 && elapsed >= total ==> part == whole
            &&& total < 0 && total <= elapsed <= 0 ==> part * total == elapsed * whole
            &&& total < 0 && elapsed >= 0 ==> part == 0
            &&& total < 0 && elapsed <= total ==> part == whole
            &&& total == 0 && elapsed >= 0 ==> part == whole
            &&& total == 0 && elapsed < 0 ==> part == 0
        }),
{
    let elapsed = whole_millis(nanos_between(now_utc@, activity.created_at@));
    let total = whole_millis(nanos_between(date@, activity.created_at@));
    law_fraction(elapsed, total);
}

/// A quotient is given as a numerator and a positive denominator that stand in the same proportion,
/// held to between 0 and 1.
pub proof fn law_fraction(elapsed: int, total: int)
    ensures
        ({
            let (part, whole) = fraction(elapsed, total);
            &&& 0 <= part <= whole
            &&& 0 < whole
            &&& total > 0 && 0 <= elapsed <= total ==> part * total == elapsed * whole
            &&& total > 0 && elapsed <= 0 ==> part == 0
            &&& total > 0 && elapsed >= total ==> part == whole
            &&& total < 0 && total <= elapsed <= 0 ==> part * total == elapsed * whole
            &&& total < 0 && elapsed >= 0 ==> part == 0
            &&& total < 0 && elapsed <= total ==> part == whole
            &&& total == 0 && elapsed >= 0 ==> part == whole
            &&& total == 0 && elapsed < 0 ==> part == 0
        }),
{
    let (part, whole) = fraction(elapsed, total);
    if total < 0 && total <= elapsed <= 0 {
        assert(part == -elapsed && whole == -total);
        assert((-elapsed) * total == elapsed * (-total)) by (nonlinear_arith);
    }
}

/// There is room for a tick just where the counted time fits whatever the clock may show, and at any
/// moment just where it fits at the last one.
pub proof fn law_room<T: ActivityId, C: Clock + ?Sized>(activity: Activity<T, C>)
    ensures
        activity.has_headroom() <==> activity.duration_delta@ + MAX_MOMENT_NANOS
            <= MAX_DURATION_NANOS,
        activity.has_headroom() ==> activity.has_room(),
        !(activity.state is Idle || activity.state is Snoozed) ==> activity.has_room(),
        activity.has_room() && (activity.state is Idle || activity.state is Snoozed)
            ==> forall|now: Moment| #[trigger]
            activity.clock.may_read(now) && now@ <= MAX_MOMENT_NANOS && now@
                >= activity.last_tick@ ==> activity.duration_delta@ + (now@ - activity.last_tick@)
                <= MAX_DURATION_NANOS,
        activity.duration_delta@ <= MAX_DURATION_NANOS && (forall|now: Moment| #[trigger]
            activity.clock.may_read(now) && now@ <= MAX_MOMENT_NANOS && now@
                >= activity.last_tick@ ==> activity.duration_delta@ + (now@ - activity.last_tick@)
                <= MAX_DURATION_NANOS) ==> activity.has_room(),
{
    if activity.has_room() && (activity.state is Idle || activity.state is Snoozed) {
        assert forall|now: Moment| #[trigger]
            activity.clock.may_read(now) && now@ <= MAX_MOMENT_NANOS && now@
                >= activity.last_tick@ implies activity.duration_delta@ + (now@
            - activity.last_tick@) <= MAX_DURATION_NANOS by {
            assert(activity.since_last_tick(now) == now@ - activity.last_tick@);
        }
    }
}

/// The longest span is `u64::MAX` seconds and all but one nanosecond more, the last moment
/// `i64::MAX` seconds and as much, and the longest step of the calendar `i64::MAX` milliseconds. Two
/// runs of the whole clock fit into a span.
pub proof fn law_limits()
    ensures
        NANOS_PER_SEC == 1_000_000_000,
        MAX_DURATION_NANOS == u64::MAX * 1_000_000_000 + 999_999_999,
        MAX_MOMENT_NANOS == i64::MAX * 1_000_000_000 + 999_999_999,
        MAX_STEP_NANOS == i64::MAX * 1_000_000,
        MAX_MOMENT_NANOS + MAX_MOMENT_NANOS <= MAX_DURATION_NANOS,
        MIN_UTC_SECS == -8_334_601_228_800,
        MAX_UTC_SECS == 8_210_266_876_799,
        GRACE_SECS == 5,
{
}

/// The time between two moments is what lies between them, and none where the clock went back.
pub proof fn law_time_between_moments(now: nat, earlier: nat)
    ensures
        now >= earlier ==> earlier + saturating_difference(now, earlier) == now,
        now <= earlier ==> saturating_difference(now, earlier) == 0,
{
}

/// The system's clock shows exactly the time that was reported to have gone by since its origin, in
/// seconds and nanoseconds, until it stays at its last moment.
pub proof fn law_system_clock_shows_elapsed_time(clock: SystemClock, now: Moment)
    requires
        clock.may_read(now),
    ensures
        now@ <= MAX_MOMENT_NANOS,
        exists|secs: u64, nanos: u32| #[trigger]
            clock.may_have_elapsed(secs, nanos) && now@ == if secs * 1_000_000_000 + nanos
                <= MAX_MOMENT_NANOS {
                secs * 1_000_000_000 + nanos
            } else {
                MAX_MOMENT_NANOS as int
            },
{
}

/// Two readings of the system's clock lie in the order of the times that were reported for them, and
/// as far apart, as long as the clock has not come to its last moment.
pub proof fn law_system_clock_never_goes_back(first: (u64, u32), second: (u64, u32))
    requires
        first.0 * 1_000_000_000 + first.1 <= second.0 * 1_000_000_000 + second.1,
    ensures
        ({
            let earlier = first.0 * 1_000_000_000 + first.1;
            let later = second.0 * 1_000_000_000 + second.1;
            let shown = SystemClock::shows(earlier as nat);
            let shown_later = SystemClock::shows(later as nat);
            &&& shown <= shown_later
            &&& later <= MAX_MOMENT_NANOS ==> shown_later - shown == later - earlier
        }),
{
}

/// What the clock shows is what has gone by, until it stays at its last moment.
pub proof fn law_system_clock_keeps_pace(elapsed: nat, more: nat)
    ensures
        elapsed <= MAX_MOMENT_NANOS ==> SystemClock::shows(elapsed) == elapsed,
        elapsed >= MAX_MOMENT_NANOS ==> SystemClock::shows(elapsed) == MAX_MOMENT_NANOS,
        SystemClock::shows(elapsed) <= SystemClock::shows(elapsed + more),
{
}

/// The system's clock reads the wall-clock time that chrono gives.
pub proof fn law_system_clock_reads_wall_time(clock: SystemClock, now: UtcTime)
    requires
        clock.may_read_utc(now),
    ensures
        now.may_be_now(),
        0 <= now@.1 < 1_000_000_000,
{
}

/// Whatever a test clock shows lies equally far after its start on both of its views, and within
/// their ranges.
pub proof fn law_test_clock_readings(clock: TestClock, state: TestState)
    requires
        clock.may_show(state),
    ensures
        state.mono@ <= MAX_MOMENT_NANOS,
        valid_parts(state.utc@.0, state.utc@.1),
        exists|by: nat|
            {
                &&& state.mono@ == clock.start().mono@ + by
                &&& state.utc@ == #[trigger] moved_on(clock.start().utc@, by)
            },
        clock.may_read(state.mono),
        clock.may_read_utc(state.utc),
{
    let by = choose|by: nat| #[trigger] state.after(clock.start(), by);
    assert(state.utc@ == moved_on(clock.start().utc@, by));
}

/// A test clock reads only what it may show.
pub proof fn law_test_clock_reads_what_it_shows(clock: TestClock, now: Moment, now_utc: UtcTime)
    ensures
        clock.may_read(now) ==> exists|state: TestState| #[trigger]
            clock.may_show(state) && state.mono == now,
        clock.may_read_utc(now_utc) ==> exists|state: TestState| #[trigger]
            clock.may_show(state) && state.utc == now_utc,
{
}

/// A step of a test clock moves both views by that step, and is refused just where one of them would
/// leave its range.
pub proof fn law_test_clock_step(before: TestState, by: nat, after: TestState)
    ensures
        after.after(before, by) <==> after.mono@ - before.mono@ == by && after.utc@ == moved_on(
            before.utc@,
            by,
        ),
        before.can_advance(by) <==> before.mono@ + by <= MAX_MOMENT_NANOS && moved_on(
            before.utc@,
            by,
        ).0 <= 8_210_266_876_799,
{
}

/// The calendar reaches from one bound to the other, and a second has room for a leap second.
pub proof fn law_calendar_range(secs: int, nanos: int)
    ensures
        valid_parts(secs, nanos) <==> -8_334_601_228_800 <= secs <= 8_210_266_876_799 && 0 <= nanos
            < 2_000_000_000,
{
}

/// Points in time are ordered by their place on a line on which each second has room for its leap
/// second.
pub proof fn law_calendar_order(a: (int, int), b: (int, int))
    requires
        valid_parts(a.0, a.1),
        valid_parts(b.0, b.1),
    ensures
        no_later(a, b) <==> a.0 * 2_000_000_000 + a.1 <= b.0 * 2_000_000_000 + b.1,
{
}

/// To move on adds the span to the seconds and nanoseconds. A leap second is lived through to its
/// end, and then not counted.
pub proof fn law_calendar_steps(t: (int, int), by: nat)
    requires
        valid_parts(t.0, t.1),
    ensures
        ({
            let then = moved_on(t, by);
            let sum = t.0 * 1_000_000_000 + t.1 + by;
            &&& t.1 < 1_000_000_000 ==> then.0 * 1_000_000_000 + then.1 == sum && 0 <= then.1
                < 1_000_000_000
            &&& t.1 >= 1_000_000_000 && t.1 + by < 2_000_000_000 ==> then.0 == t.0 && then.1
                - t.1 == by
            &&& t.1 >= 1_000_000_000 && t.1 + by >= 2_000_000_000 ==> then.0 * 1_000_000_000
                + then.1 == sum - 1_000_000_000 && 0 <= then.1 < 1_000_000_000
        }),
{
}

/// The time between two points is the difference of their seconds and nanoseconds, turned round
/// where the points are. A leap second at one end counts on the side of the day on which the other
/// end lies. The time to a point that was reached by a step is that step.
pub proof fn law_calendar_differences(later: (int, int), earlier: (int, int), by: nat)
    requires
        valid_parts(later.0, later.1),
        valid_parts(earlier.0, earlier.1),
    ensures
        nanos_between(later, earlier) == -nanos_between(earlier, later),
        ({
            let difference = (later.0 * 1_000_000_000 + later.1) - (earlier.0 * 1_000_000_000
                + earlier.1);
            let past_midnight = later.0 % 86_400;
            let past_midnight_before = earlier.0 % 86_400;
            &&& later.1 < 1_000_000_000 && earlier.1 < 1_000_000_000 ==> nanos_between(
                later,
                earlier,
            ) == difference
            &&& past_midnight == past_midnight_before ==> nanos_between(later, earlier)
                == difference
            &&& earlier.1 >= 1_000_000_000 && past_midnight > past_midnight_before
                ==> nanos_between(later, earlier) == difference + 1_000_000_000
            &&& earlier.1 >= 1_000_000_000 && later.1 < 1_000_000_000 && past_midnight
                < past_midnight_before ==> nanos_between(later, earlier) == difference
        }),
        earlier.1 < 1_000_000_000 ==> nanos_between(moved_on(earlier, by), earlier) == by,
{
}

/// Whole milliseconds are what is left of nanoseconds once they are rounded towards zero.
pub proof fn law_whole_millis(nanos: int)
    ensures
        nanos >= 0 ==> whole_millis(nanos) * 1_000_000 <= nanos < (whole_millis(nanos) + 1)
            * 1_000_000,
        nanos <= 0 ==> (whole_millis(nanos) - 1) * 1_000_000 < nanos <= whole_millis(nanos)
            * 1_000_000,
{
}

/// As many of `specs` as are registrable have ids that are neither taken nor repeated, and the next
/// one, if there is one, has not.
pub proof fn law_registrable_prefix<T: ActivityId>(taken: Set<T>, specs: Seq<ActivitySpec<T>>)
    ensures
        ({
            let fits = registrable(taken, specs) as int;
            &&& fits <= specs.len()
            &&& forall|i: int| 0 <= i < fits ==> !taken.contains((#[trigger] specs[i]).id)
            &&& forall|i: int, j: int|
                0 <= i < j < fits ==> (#[trigger] specs[i]).id != (#[trigger] specs[j]).id
            &&& fits < specs.len() ==> taken.contains(specs[fits].id) || exists|i: int|
                0 <= i < fits && (#[trigger] specs[i]).id == specs[fits].id
        }),
    decreases specs.len(),
{
    if specs.len() > 0 && !taken.contains(specs[0].id) {
        let rest = specs.drop_first();
        let more = taken.insert(specs[0].id);
        law_registrable_prefix(more, rest);
        let fits = registrable(taken, specs) as int;
        assert forall|i: int| 0 <= i < fits implies !taken.contains((#[trigger] specs[i]).id) by {
            if i > 0 {
                assert(rest[i - 1] == specs[i]);
            }
        }
        assert forall|i: int, j: int| 0 <= i < j < fits implies (#[trigger] specs[i]).id != (
        #[trigger] specs[j]).id by {
            assert(rest[j - 1] == specs[j]);
            if i > 0 {
                assert(rest[i - 1] == specs[i]);
            }
        }
        if fits < specs.len() {
            assert(rest[fits - 1] == specs[fits]);
            if !more.contains(rest[fits - 1].id) {
                let i = choose|i: int|
                    0 <= i < fits - 1 && (#[trigger] rest[i]).id == rest[fits - 1].id;
                assert(specs[i + 1] == rest[i]);
            } else if !taken.contains(specs[fits].id) {
                assert(specs[0].id == specs[fits].id);
            }
        }
    }
}

/// An id is named by specs just where one of them has it, and a spec is the last of its id just where
/// none after it has the same.
pub proof fn law_names<T: ActivityId>(specs: Seq<ActivitySpec<T>>, id: T, i: int)
    ensures
        names(specs, id) <==> exists|j: int|
            0 <= j < specs.len() && (#[trigger] specs[j]).id == id,
        is_last(specs, i) <==> forall|j: int|
            i < j < specs.len() ==> (#[trigger] specs[j]).id != specs[i].id,
{
}

/// A registration adds one new activity under its own id and leaves all others alone. One whose id is
/// taken is refused and changes nothing.
pub proof fn law_register_effect<T: ActivityId, C: Clock + ?Sized>(
    before: Map<T, Activity<T, C>>,
    clock: Arc<C>,
    spec: ActivitySpec<T>,
    after: Map<T, Activity<T, C>>,
    reply: Reply<T, C>,
)
    requires
        answers(before, clock, Command::Register { spec }, after, reply),
    ensures
        before.dom().contains(spec.id) ==> after == before && (reply matches Reply::Registered(
            Err(SchedulerError::ActivityAlreadyRegistered),
        )),
        !before.dom().contains(spec.id) ==> {
            &&& after.dom() == before.dom().insert(spec.id)
            &&& after[spec.id].is_new(spec, clock)
            &&& forall|id: T| #[trigger] before.dom().contains(id) ==> after[id] == before[id]
            &&& reply matches Reply::Registered(Ok(()))
        },
{
}

/// A reset puts a new activity under the id of its spec, whether or not that is taken, and leaves all
/// others alone.
pub proof fn law_reset_effect<T: ActivityId, C: Clock + ?Sized>(
    before: Map<T, Activity<T, C>>,
    clock: Arc<C>,
    spec: ActivitySpec<T>,
    after: Map<T, Activity<T, C>>,
    reply: Reply<T, C>,
)
    requires
        answers(before, clock, Command::Reset { spec }, after, reply),
    ensures
        after.dom() == before.dom().insert(spec.id),
        after[spec.id].is_new(spec, clock),
        forall|id: T| #[trigger]
            before.dom().contains(id) && id != spec.id ==> after[id] == before[id],
        reply is Applied,
{
}

/// What [`tracks_new`] is for: one activity is new, the others stay.
pub proof fn law_tracks_new_effect<T: ActivityId, C: Clock + ?Sized>(
    before: Map<T, Activity<T, C>>,
    spec: ActivitySpec<T>,
    clock: Arc<C>,
    after: Map<T, Activity<T, C>>,
)
    requires
        tracks_new(before, spec, clock, after),
    ensures
        after.dom() == before.dom().insert(spec.id),
        after[spec.id].is_new(spec, clock),
        forall|id: T| #[trigger]
            before.dom().contains(id) && id != spec.id ==> after[id] == before[id],
{
}

/// Specs that are tracked afresh each put a new activity under their id, the last of each id
/// counting. All other activities stay, and none comes from elsewhere.
pub proof fn law_tracks_afresh_effect<T: ActivityId, C: Clock + ?Sized>(
    before: Map<T, Activity<T, C>>,
    specs: Seq<ActivitySpec<T>>,
    clock: Arc<C>,
    after: Map<T, Activity<T, C>>,
)
    requires
        tracks_afresh(before, specs, clock, after),
    ensures
        forall|id: T| #[trigger]
            before.dom().contains(id) ==> after.dom().contains(id) && (after[id] == before[id] || (
            exists|i: int| 0 <= i < specs.len() && (#[trigger] specs[i]).id == id)),
        forall|id: T| #[trigger]
            after.dom().contains(id) ==> before.dom().contains(id) || (exists|i: int|
                0 <= i < specs.len() && (#[trigger] specs[i]).id == id),
        forall|i: int|
            0 <= i < specs.len() ==> after.dom().contains((#[trigger] specs[i]).id),
        forall|i: int|
            0 <= i < specs.len() && (forall|j: int|
                i < j < specs.len() ==> (#[trigger] specs[j]).id != specs[i].id) ==> after[(
            #[trigger] specs[i]).id].is_new(specs[i], clock),
{
    assert forall|id: T| #[trigger] before.dom().contains(id) implies after.dom().contains(id) && (
    after[id] == before[id] || (exists|i: int|
        0 <= i < specs.len() && (#[trigger] specs[i]).id == id)) by {
        assert(before.contains_key(id));
        assert(after.contains_key(id) <==> before.contains_key(id) || names(specs, id));
        if !names(specs, id) {
            assert(after[id] == before[id]);
        }
    }
    assert forall|id: T| #[trigger] after.dom().contains(id) implies before.dom().contains(id) || (
    exists|i: int| 0 <= i < specs.len() && (#[trigger] specs[i]).id == id) by {
        assert(after.contains_key(id) <==> before.contains_key(id) || names(specs, id));
    }
    assert forall|i: int| 0 <= i < specs.len() implies after.dom().contains(
        (#[trigger] specs[i]).id,
    ) by {
        assert(names(specs, specs[i].id));
        assert(after.contains_key(specs[i].id) <==> before.contains_key(specs[i].id) || names(
            specs,
            specs[i].id,
        ));
    }
    assert forall|i: int|
        0 <= i < specs.len() && (forall|j: int|
            i < j < specs.len() ==> (#[trigger] specs[j]).id != specs[i].id) implies after[(
    #[trigger] specs[i]).id].is_new(specs[i], clock) by {
        assert(is_last(specs, i));
    }
}

/// A batch of registrations tracks its specs afresh up to the first whose id is taken or repeated. It
/// succeeds just where there is none such.
pub proof fn law_register_many_effect<T: ActivityId, C: Clock + ?Sized>(
    before: Map<T, Activity<T, C>>,
    clock: Arc<C>,
    specs: Vec<ActivitySpec<T>>,
    after: Map<T, Activity<T, C>>,
    reply: Reply<T, C>,
)
    requires
        answers(before, clock, Command::RegisterMany { specs }, after, reply),
    ensures
        ({
            let fits = registrable(before.dom(), specs@) as int;
            &&& tracks_afresh(before, specs@.take(fits), clock, after)
            &&& fits == specs@.len() ==> (reply matches Reply::Registered(Ok(())))
            &&& fits < specs@.len() ==> (reply matches Reply::Registered(
                Err(SchedulerError::ActivityAlreadyRegistered),
            ))
        }),
        forall|id: T| #[trigger]
            before.dom().contains(id) ==> after.dom().contains(id) && after[id] == before[id],
{
    let fits = registrable(before.dom(), specs@) as int;
    law_registrable_prefix(before.dom(), specs@);
    law_tracks_afresh_effect(before, specs@.take(fits), clock, after);
    assert forall|id: T| #[trigger] before.dom().contains(id) implies after.dom().contains(id)
        && after[id] == before[id] by {
        if after[id] != before[id] {
            let i = choose|i: int|
                0 <= i < specs@.take(fits).len() && (#[trigger] specs@.take(fits)[i]).id == id;
            assert(specs@[i].id == id);
        }
    }
}

/// A batch of resets tracks all its specs afresh.
pub proof fn law_reset_many_effect<T: ActivityId, C: Clock + ?Sized>(
    before: Map<T, Activity<T, C>>,
    clock: Arc<C>,
    specs: Vec<ActivitySpec<T>>,
    after: Map<T, Activity<T, C>>,
    reply: Reply<T, C>,
)
    requires
        answers(before, clock, Command::ResetMany { specs }, after, reply),
    ensures
        tracks_afresh(before, specs@, clock, after),
        reply is Applied,
{
}

/// A tick of a scheduler ticks each activity by its own clock. It keeps those that do not become
/// garbage, drops those that do, and adds none.
pub proof fn law_tick_all_effect<T: ActivityId, C: Clock + ?Sized>(
    before: Map<T, Activity<T, C>>,
    after: Map<T, Activity<T, C>>,
    id: T,
)
    requires
        ticks_all(before, after),
    ensures
        after.dom().contains(id) ==> before.dom().contains(id) && before[id].ticks_to(after[id])
            && !(after[id].state is Gc),
        before.dom().contains(id) && !after.dom().contains(id) ==> exists|gone: Activity<T, C>|
            #[trigger] before[id].ticks_to(gone) && gone.state is Gc,
{
    if after.contains_key(id) {
        assert(before.contains_key(id));
    }
    if before.contains_key(id) {
        assert(ticks_one(before[id], id, after));
    }
}

/// A command to tick does just that.
pub proof fn law_tick_command_effect<T: ActivityId, C: Clock + ?Sized>(
    before: Map<T, Activity<T, C>>,
    clock: Arc<C>,
    after: Map<T, Activity<T, C>>,
    reply: Reply<T, C>,
)
    requires
        answers(before, clock, Command::Tick, after, reply),
    ensures
        ticks_all(before, after),
        reply is Applied,
{
}

/// To enable or disable an activity of a scheduler changes that activity alone, and nothing where
/// the id is not tracked.
pub proof fn law_set_enabled_command_effect<T: ActivityId, C: Clock + ?Sized>(
    before: Map<T, Activity<T, C>>,
    clock: Arc<C>,
    id: T,
    enabled: bool,
    after: Map<T, Activity<T, C>>,
    reply: Reply<T, C>,
)
    requires
        answers(before, clock, Command::SetEnabled { id, enabled }, after, reply),
    ensures
        after.dom() == before.dom(),
        before.dom().contains(id) ==> after[id] == before[id].with_enabled(enabled),
        forall|other: T| #[trigger]
            before.dom().contains(other) && other != id ==> after[other] == before[other],
        reply is Applied,
{
}

/// A claim hands out each activity that is found due once, makes it run, and leaves all others
/// alone. None is added or dropped.
pub proof fn law_claim_all_effect<T: ActivityId, C: Clock + ?Sized>(
    before: Map<T, Activity<T, C>>,
    due: Seq<T>,
    after: Map<T, Activity<T, C>>,
    id: T,
)
    requires
        claims_all(before, due, after),
    ensures
        after.dom() == before.dom(),
        forall|i: int, j: int| 0 <= i < j < due.len() ==> due[i] != due[j],
        due.contains(id) ==> before.dom().contains(id) && before[id].may_be_due(true) && after[id]
            == before[id].claimed(),
        before.dom().contains(id) && !due.contains(id) ==> before[id].may_be_due(false)
            && after[id] == before[id],
{
    if before.contains_key(id) {
        assert(before[id].may_be_due(due.contains(id)));
    }
}

/// A command to claim does just that.
pub proof fn law_claim_command_effect<T: ActivityId, C: Clock + ?Sized>(
    before: Map<T, Activity<T, C>>,
    clock: Arc<C>,
    after: Map<T, Activity<T, C>>,
    reply: Reply<T, C>,
)
    requires
        answers(before, clock, Command::ClaimDue, after, reply),
    ensures
        reply matches Reply::Due(due) && claims_all(before, due@, after),
{
}

/// The acknowledgement of a run changes its activity alone: it is gone where it was to run only once
/// and is done, and else waits again. Nothing changes where the id is not tracked.
pub proof fn law_finish_one_effect<T: ActivityId, C: Clock + ?Sized>(
    before: Map<T, Activity<T, C>>,
    id: T,
    ack: AckMessage,
    after: Map<T, Activity<T, C>>,
)
    requires
        finishes_one(before, id, ack, after),
    ensures
        !before.dom().contains(id) ==> after == before,
        before.dom().contains(id) && before[id].spec.schedule is Scheduled && ack is Done
            ==> after.dom() == before.dom().remove(id),
        before.dom().contains(id) && !(before[id].spec.schedule is Scheduled && ack is Done)
            ==> after.dom() == before.dom() && before[id].finishes_to(ack, after[id]),
        forall|other: T| #[trigger]
            before.dom().contains(other) && other != id ==> after.dom().contains(other)
                && after[other] == before[other],
{
    if before.dom().contains(id) {
        if before[id].completes(ack) {
            assert(after.dom() == before.dom().remove(id));
        } else {
            assert(after.dom() == before.dom());
        }
    }
}

/// A command to acknowledge does just that.
pub proof fn law_finish_command_effect<T: ActivityId, C: Clock + ?Sized>(
    before: Map<T, Activity<T, C>>,
    clock: Arc<C>,
    id: T,
    ack: AckMessage,
    after: Map<T, Activity<T, C>>,
    reply: Reply<T, C>,
)
    requires
        answers(before, clock, Command::Finish { id, ack }, after, reply),
    ensures
        finishes_one(before, id, ack, after),
        reply is Applied,
{
}

/// A snapshot holds every activity as it is, each once, and no other. It changes nothing.
pub proof fn law_snapshot_effect<T: ActivityId, C: Clock + ?Sized>(
    before: Map<T, Activity<T, C>>,
    clock: Arc<C>,
    after: Map<T, Activity<T, C>>,
    reply: Reply<T, C>,
)
    requires
        answers(before, clock, Command::Snapshot, after, reply),
    ensures
        after == before,
        reply matches Reply::Activities(activities) && lists(before, activities@),
{
}

/// What [`lists`] is for: the same activities under the same ids, none twice and none missing.
pub proof fn law_lists_effect<T: ActivityId, C: Clock + ?Sized>(
    by_id: Map<T, Activity<T, C>>,
    activities: Seq<Activity<T, C>>,
)
    requires
        lists(by_id, activities),
    ensures
        forall|i: int|
            0 <= i < activities.len() ==> by_id.dom().contains((#[trigger] activities[i]).spec.id)
                && by_id[activities[i].spec.id] == activities[i],
        forall|i: int, j: int|
            0 <= i < j < activities.len() ==> (#[trigger] activities[i]).spec.id != (
            #[trigger] activities[j]).spec.id,
        forall|id: T| #[trigger]
            by_id.dom().contains(id) ==> exists|i: int|
                0 <= i < activities.len() && (#[trigger] activities[i]) == by_id[id],
{
    assert forall|id: T| #[trigger] by_id.dom().contains(id) implies exists|i: int|
        0 <= i < activities.len() && (#[trigger] activities[i]) == by_id[id] by {
        assert(by_id.contains_key(id));
        let i = choose|i: int|
            0 <= i < activities.len() && (#[trigger] activities[i]).spec.id == id;
        assert(activities[i] == by_id[id]);
    }
}

/// A scheduler is sound just where ids can be used as keys, and every activity has its own id, a
/// schedule that can be followed, the clock of the scheduler, and a run ahead or under way.
pub proof fn law_soundness<T: ActivityId, C: Clock + ?Sized>(
    by_id: Map<T, Activity<T, C>>,
    clock: Arc<C>,
)
    ensures
        is_sound(by_id, clock) <==> {
            &&& obeys_key_model::<T>()
            &&& forall|id: T| #[trigger]
                by_id.dom().contains(id) ==> {
                    &&& by_id[id].spec.id == id
                    &&& by_id[id].spec.schedule.is_valid()
                    &&& by_id[id].clock == clock
                    &&& by_id[id].state.is_live()
                }
        },
{
    if is_sound(by_id, clock) {
        assert forall|id: T| #[trigger] by_id.dom().contains(id) implies {
            &&& by_id[id].spec.id == id
            &&& by_id[id].spec.schedule.is_valid()
            &&& by_id[id].clock == clock
            &&& by_id[id].state.is_live()
        } by {
            assert(by_id.contains_key(id));
            assert(may_track(by_id[id], id, clock));
        }
    } else if obeys_key_model::<T>() {
        let id = choose|id: T| #[trigger] by_id.contains_key(id) && !may_track(by_id[id], id, clock);
        assert(by_id.dom().contains(id));
    }
}

/// What a scheduler can be told: to track schedules that can be followed, and to tick where there is
/// room. A spec that would be refused for its id may have any schedule.
pub proof fn law_what_is_accepted<T: ActivityId, C: Clock + ?Sized>(
    by_id: Map<T, Activity<T, C>>,
    cmd: Command<T>,
)
    ensures
        accepts(by_id, cmd) ==> can_follow(by_id, cmd),
        cmd is Tick || cmd is SetEnabled || cmd is ClaimDue || cmd is Finish || cmd is Snapshot
            ==> can_follow(by_id, cmd),
        !(cmd is Tick) && can_follow(by_id, cmd) ==> accepts(by_id, cmd),
        cmd is Tick ==> (accepts(by_id, cmd) <==> has_room(by_id)),
        cmd matches Command::Register { spec } ==> (can_follow(by_id, cmd)
            <==> by_id.dom().contains(spec.id) || spec.schedule.is_valid()),
        cmd matches Command::Reset { spec } ==> (can_follow(by_id, cmd)
            <==> spec.schedule.is_valid()),
        cmd matches Command::RegisterMany { specs } ==> (all_valid(specs@) ==> can_follow(
            by_id,
            cmd,
        )) && (can_follow(by_id, cmd) <==> can_register(by_id, specs@)),
        cmd matches Command::ResetMany { specs } ==> (can_follow(by_id, cmd) <==> all_valid(
            specs@,
        )),
{
    if let Command::RegisterMany { specs } = cmd {
        lemma_registrable_bound(by_id.dom(), specs@);
    }
}

/// All schedules can be followed just where each can, and a batch can be registered just where each
/// spec that would be tracked can.
pub proof fn law_valid_batches<T: ActivityId, C: Clock + ?Sized>(
    by_id: Map<T, Activity<T, C>>,
    specs: Seq<ActivitySpec<T>>,
)
    ensures
        all_valid(specs) <==> forall|i: int|
            0 <= i < specs.len() ==> (#[trigger] specs[i]).schedule.is_valid(),
        can_register(by_id, specs) <==> forall|i: int|
            0 <= i < registrable(by_id.dom(), specs) ==> (
            #[trigger] specs[i]).schedule.is_valid(),
{
}

/// A scheduler has room just where each of its activities has, and can tick at any moment just where
/// each that waits can.
pub proof fn law_room_for_all<T: ActivityId, C: Clock + ?Sized>(by_id: Map<T, Activity<T, C>>)
    ensures
        has_room(by_id) <==> forall|id: T| #[trigger]
            by_id.dom().contains(id) ==> by_id[id].has_room(),
        can_tick(by_id) <==> forall|id: T| #[trigger]
            by_id.dom().contains(id) && (by_id[id].state is Idle || by_id[id].state is Snoozed)
                ==> by_id[id].duration_delta@ + MAX_MOMENT_NANOS <= MAX_DURATION_NANOS,
        can_tick(by_id) ==> has_room(by_id),
{
    if forall|id: T| #[trigger] by_id.dom().contains(id) ==> by_id[id].has_room() {
        assert forall|id: T| #[trigger] by_id.contains_key(id) implies by_id[id].has_room() by {
            assert(by_id.dom().contains(id));
        }
    }
    if has_room(by_id) {
        assert forall|id: T| #[trigger] by_id.dom().contains(id) implies by_id[id].has_room() by {
            assert(by_id.contains_key(id));
        }
    }
    if can_tick(by_id) {
        assert forall|id: T| #[trigger]
            by_id.dom().contains(id) && (by_id[id].state is Idle
                || by_id[id].state is Snoozed) implies by_id[id].duration_delta@ + MAX_MOMENT_NANOS
            <= MAX_DURATION_NANOS by {
            assert(by_id.contains_key(id));
        }
    }
    if forall|id: T| #[trigger]
        by_id.dom().contains(id) && (by_id[id].state is Idle || by_id[id].state is Snoozed)
            ==> by_id[id].duration_delta@ + MAX_MOMENT_NANOS <= MAX_DURATION_NANOS {
        assert forall|id: T| #[trigger]
            by_id.contains_key(id) && by_id[id].state.waits() implies by_id[id].has_headroom() by {
            assert(by_id.dom().contains(id));
        }
    }
}

/// A scheduler that is not stopped answers every command, and one that is answers none and changes
/// nothing. No command touches anything but the activities.
pub proof fn law_served_effect<T: ActivityId, C: Clock + ?Sized>(
    before: Scheduler<T, C>,
    cmd: Command<T>,
    after: Scheduler<T, C>,
    reply: Option<Reply<T, C>>,
)
    requires
        after.served(before, cmd, reply),
    ensures
        after.clock() == before.clock(),
        after.capacity() == before.capacity(),
        after.is_stopped() == before.is_stopped(),
        before.is_stopped() ==> reply is None && after@ == before@,
        !before.is_stopped() ==> (reply matches Some(given) && answers(
            before@,
            before.clock(),
            cmd,
            after@,
            given,
        )),
{
}

/// What stays of a scheduler whose activities change.
pub proof fn law_same_but_activities<T: ActivityId, C: Clock + ?Sized>(
    before: Scheduler<T, C>,
    after: Scheduler<T, C>,
)
    ensures
        after.same_but_activities(before) <==> after.clock() == before.clock() && after.capacity()
            == before.capacity() && after.is_stopped() == before.is_stopped(),
        before.well_formed() <==> is_sound(before@, before.clock()),
{
}

/// A driver polls when its interval is over, and only then. Told to stop, it waits five seconds for
/// runs that are under way, aborts those that outlast this, and stops when none is left. What does
/// not concern it leaves it where it is.
pub proof fn law_driver_table(
    phase: DriverPhase,
    event: DriverEvent,
    next: DriverPhase,
    action: DriverAction,
)
    requires
        proceeds(phase, event, next, action),
    ensures
        event is Aborted || phase is Stopped ==> next is Stopped && action is Stop,
        phase is Ready && event is Started ==> next is Polling && action is Wait,
        phase is Ready && event is Cancelled ==> next is Stopped && action is Stop,
        phase is Polling && event is Ticked ==> next is Polling && action is Poll,
        phase is Polling ==> (event matches DriverEvent::Cancelled { in_flight } ==> if in_flight
            > 0 {
            &&& next is Draining
            &&& action matches DriverAction::Drain { grace } && grace@ == 5_000_000_000
        } else {
            next is Stopped && action is Stop
        }),
        phase is Draining || phase is Aborting ==> (event matches DriverEvent::RunEnded {
            in_flight,
        } ==> if in_flight > 0 {
            next == phase && action is Wait
        } else {
            next is Stopped && action is Stop
        }),
        phase is Draining ==> (event matches DriverEvent::GraceExpired { in_flight } ==> if in_flight
            > 0 {
            next is Aborting && action is AbortRuns
        } else {
            next is Stopped && action is Stop
        }),
        phase is Ready && !(event is Started || event is Cancelled || event is Aborted) ==> next
            == phase && action is Wait,
        phase is Polling && !(event is Ticked || event is Cancelled || event is Aborted) ==> next
            == phase && action is Wait,
        phase is Draining && !(event is RunEnded || event is GraceExpired || event is Aborted)
            ==> next == phase && action is Wait,
        phase is Aborting && !(event is RunEnded || event is Aborted) ==> next == phase
            && action is Wait,
{
}

/// Whatever happens to a running ritualist goes through its driver and leaves its set-up alone. Its
/// scheduler is stopped just when its driver is at an end.
pub proof fn law_ritualist_goes_on<T: ActivityId, C: Clock + ?Sized>(
    before: RunningRitualist<T, C>,
    event: DriverEvent,
    after: RunningRitualist<T, C>,
    action: DriverAction,
)
    requires
        after.went_on(before, event, action),
    ensures
        proceeds(before.driver.phase, event, after.driver.phase, action),
        after.driver.buffer_size == before.driver.buffer_size,
        after.driver.poll_interval == before.driver.poll_interval,
        after.handle.scheduler.clock() == before.handle.scheduler.clock(),
        after.handle.scheduler.capacity() == before.handle.scheduler.capacity(),
        is_sound(after.handle@, after.handle.scheduler.clock()),
        after.handle.scheduler.is_stopped() <==> after.driver.phase is Stopped,
        !(after.driver.phase is Ready),
{
}

/// A ritualist that is ready to run takes registrations, and its driver has not started. One that
/// runs has a driver that has.
pub proof fn law_ritualist_phases<T: ActivityId, C: Clock + ?Sized>(
    ready: Ritualist<T, C>,
    running: RunningRitualist<T, C>,
)
    ensures
        ready.well_formed() <==> is_sound(
            ready.handle.scheduler@,
            ready.handle.scheduler.clock(),
        ) && !ready.handle.scheduler.is_stopped() && ready.driver.phase is Ready,
        running.well_formed() <==> is_sound(
            running.handle.scheduler@,
            running.handle.scheduler.clock(),
        ) && (running.handle.scheduler.is_stopped() <==> running.driver.phase is Stopped) && !(
        running.driver.phase is Ready),
        ready.handle@ == ready.handle.scheduler@,
        running.handle@ == running.handle.scheduler@,
{
}

/// The defaults are 256 messages and half a second, and a channel holds an eighth of what can be
/// counted.
pub proof fn law_defaults<T: ActivityId, C: Clock + ?Sized>(builder: RitualistBuilder<T, C>)
    requires
        builder.has_defaults(),
    ensures
        builder.buffer_size == 256,
        builder.poll_interval@ == 500_000_000,
        max_buffer() == usize::MAX / 8,
        0 < builder.buffer_size <= max_buffer(),
{
}

} // verus!
