//! What holds of activities and schedulers across several operations.

use crate::ack::AckMessage;
use crate::activation_target::ActivationTarget;
use crate::activity::{Activity, ActivityId, ActivityState};
use crate::activity_spec::{ActivitySchedule, ActivitySpec};
use crate::clock::{Clock, SystemClock, TestState};
use crate::driver::{proceeds, DriverAction, DriverEvent, DriverPhase};
use crate::schedule::{all_valid, answers, can_follow, claims_all, finishes_one, is_last, is_sound};
use crate::schedule::{lemma_registrable_bound, lists, may_track, names, registrable};
use crate::schedule::{ticks_all, ticks_one, tracks_afresh, tracks_new};
use crate::schedule::{Command, Reply, Scheduler, SchedulerError};
use crate::time::{lemma_moment_bound, saturating_difference, Duration, Moment};
use crate::time::{MAX_DURATION_NANOS, MAX_MOMENT_NANOS};
use crate::utc::{lemma_moved_on_additive, no_later, UtcTime};
use crate::RunningRitualist;
use std::sync::Arc;
use vstd::prelude::*;

verus! {

broadcast use crate::time::group_time;

/// The activity after a tick at each of `readings` in turn.
pub open spec fn ticked_through<T: ActivityId, C: Clock + ?Sized>(
    activity: Activity<T, C>,
    readings: Seq<(Moment, UtcTime)>,
) -> Activity<T, C>
    decreases readings.len(),
{
    if readings.len() == 0 {
        activity
    } else {
        ticked_through(activity, readings.drop_last()).ticked(readings.last().0, readings.last().1)
    }
}

/// Whether the counted time of the activity is no more than its clock has shown since its origin.
pub open spec fn counts_real_time<T: ActivityId, C: Clock + ?Sized>(
    activity: Activity<T, C>,
) -> bool {
    activity.duration_delta@ <= activity.last_tick@ <= MAX_MOMENT_NANOS
}

/// An activity that is disabled and enabled again is what it was.
pub proof fn law_disable_then_enable_restores<T: ActivityId, C: Clock + ?Sized>(
    activity: Activity<T, C>,
)
    requires
        !(activity.state is Disabled),
    ensures
        activity.with_enabled(false).with_enabled(true) == activity,
{
}

/// To enable or disable an activity twice is the same as once, unless it is enabled while it is
/// paused within a pause, as no scheduler ever has it.
pub proof fn law_set_enabled_idempotent<T: ActivityId, C: Clock + ?Sized>(
    activity: Activity<T, C>,
    enabled: bool,
)
    requires
        enabled ==> (activity.state matches ActivityState::Disabled(prev_state)
            ==> !(*prev_state is Disabled)),
    ensures
        activity.with_enabled(enabled).with_enabled(enabled) == activity.with_enabled(enabled),
{
}

/// However often an activity is ticked while it is disabled, unless it becomes garbage it goes on
/// where it left off once it is enabled again: only the time of its last tick has moved.
pub proof fn law_pause_keeps_place<T: ActivityId, C: Clock + ?Sized>(
    activity: Activity<T, C>,
    readings: Seq<(Moment, UtcTime)>,
)
    requires
        !(activity.state is Disabled),
    ensures
        ({
            let paused = ticked_through(activity.with_enabled(false), readings);
            &&& paused.state is Disabled || paused.state is Gc
            &&& paused.state is Disabled ==> paused.with_enabled(true) == (Activity {
                last_tick: paused.last_tick,
                ..activity
            })
        }),
    decreases readings.len(),
{
    if readings.len() > 0 {
        law_pause_keeps_place(activity, readings.drop_last());
    }
}

/// A disabled activity is not due, whatever the time.
pub proof fn law_disabled_is_not_due<T: ActivityId, C: Clock + ?Sized>(
    activity: Activity<T, C>,
    now_utc: UtcTime,
)
    ensures
        !activity.with_enabled(false).due(now_utc),
{
}

/// Time counts only while an activity waits for its target.
pub proof fn law_only_waiting_counts<T: ActivityId, C: Clock + ?Sized>(
    activity: Activity<T, C>,
    now: Moment,
    now_utc: UtcTime,
)
    requires
        !activity.state.waits(),
    ensures
        activity.ticked(now, now_utc).duration_delta == activity.duration_delta,
{
}

/// For an activity that waits, any number of ticks on a clock that does not go back do what the last
/// of them alone does: how often the scheduler polls makes no difference to the time that counts.
pub proof fn law_ticks_add_up<T: ActivityId, C: Clock + ?Sized>(
    activity: Activity<T, C>,
    readings: Seq<(Moment, UtcTime)>,
)
    requires
        activity.state.waits(),
        readings.len() > 0,
        activity.last_tick@ <= readings[0].0@,
        forall|i: int, j: int|
            0 <= i < j < readings.len() ==> (#[trigger] readings[i]).0@ <= (
            #[trigger] readings[j]).0@,
        activity.duration_delta@ + activity.since_last_tick(readings.last().0)
            <= MAX_DURATION_NANOS,
    ensures
        ticked_through(activity, readings) == activity.ticked(
            readings.last().0,
            readings.last().1,
        ),
    decreases readings.len(),
{
    let before = readings.drop_last();
    if before.len() > 0 {
        assert(before.last() == readings[readings.len() - 2]);
        assert(readings.last() == readings[readings.len() - 1]);
        law_ticks_add_up(activity, before);
    } else {
        assert(ticked_through(activity, before) == activity);
    }
}

/// An activity that waits for an elapsed time is due after a tick just when the time counted before
/// and the time since the last tick together reach it.
pub proof fn law_interval_due_when_elapsed<T: ActivityId, C: Clock + ?Sized>(
    activity: Activity<T, C>,
    target: Duration,
    now: Moment,
    now_utc: UtcTime,
)
    requires
        activity.state.waits(),
        activity.activation_target == ActivationTarget::Duration(target),
        activity.duration_delta@ + activity.since_last_tick(now) <= MAX_DURATION_NANOS,
    ensures
        activity.ticked(now, now_utc).due(now_utc) <==> activity.duration_delta@
            + activity.since_last_tick(now) >= target@,
{
}

/// An activity that waits for its date is due just when that date has come.
pub proof fn law_date_due_when_reached<T: ActivityId, C: Clock + ?Sized>(
    activity: Activity<T, C>,
    date: UtcTime,
    now_utc: UtcTime,
)
    requires
        activity.spec.schedule == (ActivitySchedule::Scheduled { date }),
        activity.spec.schedule.admits(activity.activation_target),
        activity.state.waits(),
    ensures
        activity.due(now_utc) <==> no_later(date@, now_utc@),
{
}

/// An activity with a random interval is not due while less than `min` has counted, and due once
/// `max` has.
pub proof fn law_random_interval_bounds<T: ActivityId, C: Clock + ?Sized>(
    activity: Activity<T, C>,
    min: Duration,
    max: Duration,
    now_utc: UtcTime,
)
    requires
        activity.spec.schedule == (ActivitySchedule::RandomInterval { min, max }),
        activity.activation_target matches ActivationTarget::Duration(drawn) && min@ <= drawn@
            < max@,
        activity.state is Idle || activity.state is Snoozed,
    ensures
        activity.duration_delta@ < min@ ==> !activity.due(now_utc),
        activity.duration_delta@ >= max@ ==> activity.due(now_utc),
{
}

/// What can happen to an activity between two looks at whether it is due.
pub enum Happening {
    /// A tick at these readings.
    Tick(Moment, UtcTime),
    /// It is enabled, or disabled.
    Switch(bool),
}

/// The activity after all of `happenings` in turn.
pub open spec fn lived_through<T: ActivityId, C: Clock + ?Sized>(
    activity: Activity<T, C>,
    happenings: Seq<Happening>,
) -> Activity<T, C>
    decreases happenings.len(),
{
    if happenings.len() == 0 {
        activity
    } else {
        let before = lived_through(activity, happenings.drop_last());
        match happenings.last() {
            Happening::Tick(now, now_utc) => before.ticked(now, now_utc),
            Happening::Switch(enabled) => before.with_enabled(enabled),
        }
    }
}

/// Whether an activity in this state is running, paused or not.
pub open spec fn under_way(state: ActivityState) -> bool {
    state is Running || state == ActivityState::Disabled(Box::new(ActivityState::Running))
}

/// Whether an activity in this state became garbage, paused or not.
pub open spec fn thrown_away(state: ActivityState) -> bool {
    state is Gc || state == ActivityState::Disabled(Box::new(ActivityState::Gc))
}

/// An activity that was claimed is not due again, however often it is ticked, disabled and enabled,
/// until its run is acknowledged. It stays under way, unless it is a one-shot activity that becomes
/// garbage while it is paused.
pub proof fn law_claimed_once<T: ActivityId, C: Clock + ?Sized>(
    activity: Activity<T, C>,
    happenings: Seq<Happening>,
    now_utc: UtcTime,
)
    ensures
        ({
            let later = lived_through(activity.claimed(), happenings);
            &&& !later.due(now_utc)
            &&& later.spec == activity.spec
            &&& under_way(later.state) || (activity.spec.schedule is Scheduled && thrown_away(
                later.state,
            ))
        }),
    decreases happenings.len(),
{
    if happenings.len() > 0 {
        law_claimed_once(activity, happenings.drop_last(), now_utc);
    }
}

/// After an acknowledgement other than a snooze, a one-shot activity is completed, and any other
/// starts a new cycle of its schedule with no time counted.
pub proof fn law_done_reschedules_or_completes<T: ActivityId, C: Clock + ?Sized>(
    activity: Activity<T, C>,
    after: Activity<T, C>,
)
    requires
        activity.finishes_to(AckMessage::Done, after),
    ensures
        after.state is Completed <==> activity.spec.schedule is Scheduled,
        !(activity.spec.schedule is Scheduled) ==> {
            &&& after.state is Idle
            &&& after.duration_delta@ == 0
            &&& activity.spec.schedule.admits(after.activation_target)
        },
        after.spec == activity.spec,
{
}

/// A snooze keeps even a one-shot activity alive, and it is due just when the length of the snooze
/// has gone by since the last tick.
pub proof fn law_snooze_defers<T: ActivityId, C: Clock + ?Sized>(
    activity: Activity<T, C>,
    length: Duration,
    after: Activity<T, C>,
    now: Moment,
    now_utc: UtcTime,
)
    requires
        activity.finishes_to(AckMessage::Snooze(length), after),
        now.in_range(),
    ensures
        after.state == ActivityState::Snoozed(length),
        after.ticked(now, now_utc).due(now_utc) <==> activity.since_last_tick(now) >= length@,
{
}

/// Only a one-shot activity becomes garbage in a tick, and only while it is paused and its target is
/// reached.
pub proof fn law_only_expired_is_garbage<T: ActivityId, C: Clock + ?Sized>(
    activity: Activity<T, C>,
    now: Moment,
    now_utc: UtcTime,
)
    requires
        !(activity.state is Gc),
    ensures
        activity.ticked(now, now_utc).state is Gc <==> {
            &&& activity.spec.schedule is Scheduled
            &&& activity.state is Disabled
            &&& activity.at_target(now_utc)
        },
{
}

/// An activity that waits is due at once after it got an immediate target.
pub proof fn law_immediate_is_due<T: ActivityId, C: Clock + ?Sized>(
    activity: Activity<T, C>,
    set_at: UtcTime,
    now_utc: UtcTime,
)
    requires
        activity.state.waits(),
        no_later(set_at@, now_utc@),
    ensures
        activity.immediate(set_at).due(now_utc),
{
}

/// On a clock that does not go back, the counted time of an activity never outgrows what the clock
/// has shown, whatever is done to it, so that there is always room for another tick.
pub proof fn law_room_to_tick<T: ActivityId, C: Clock + ?Sized>(
    activity: Activity<T, C>,
    now: Moment,
    now_utc: UtcTime,
    target: ActivationTarget,
)
    requires
        counts_real_time(activity),
        activity.last_tick@ <= now@ <= MAX_MOMENT_NANOS,
    ensures
        activity.has_headroom(),
        activity.has_room(),
        counts_real_time(
            Activity::created(activity.spec, activity.clock, target, now, now_utc),
        ),
        counts_real_time(activity.ticked(now, now_utc)),
        counts_real_time(activity.claimed()),
        forall|ack: AckMessage|
            counts_real_time(#[trigger] activity.finished(ack, target, now_utc)),
        forall|enabled: bool| counts_real_time(#[trigger] activity.with_enabled(enabled)),
        counts_real_time(activity.immediate(now_utc)),
{
}

/// Whatever a scheduler is told to do, as long as the schedules in it can be followed, it keeps its
/// invariant: each activity is tracked under its own id, has a schedule that can be followed, reads
/// the scheduler's clock, and still has a run ahead or under way. So none that is completed or
/// garbage is ever kept.
pub proof fn law_commands_keep_the_invariant<T: ActivityId, C: Clock + ?Sized>(
    before: Map<T, Activity<T, C>>,
    clock: Arc<C>,
    cmd: Command<T>,
    after: Map<T, Activity<T, C>>,
    reply: Reply<T, C>,
)
    requires
        is_sound(before, clock),
        can_follow(before, cmd),
        answers(before, clock, cmd, after, reply),
    ensures
        is_sound(after, clock),
        forall|id: T| #[trigger]
            after.contains_key(id) ==> !(after[id].state is Completed) && !(after[id].state is Gc),
{
    assert forall|id: T| #[trigger] after.contains_key(id) implies may_track(
        after[id],
        id,
        clock,
    ) by {
        match cmd {
            Command::RegisterMany { specs } => {
                let fits = registrable(before.dom(), specs@);
                lemma_registrable_bound(before.dom(), specs@);
                lemma_afresh_may_track(before, specs@.take(fits as int), clock, after, id);
            },
            Command::ResetMany { specs } => {
                lemma_afresh_may_track(before, specs@, clock, after, id);
            },
            Command::Register { spec } => {
                assert(id == spec.id || before.contains_key(id));
            },
            Command::Reset { spec } => {
                assert(id == spec.id || before.contains_key(id));
            },
            _ => {
                assert(before.contains_key(id));
            },
        }
    }
}

/// After specs that can be followed are tracked afresh, what is tracked under `id` may be.
proof fn lemma_afresh_may_track<T: ActivityId, C: Clock + ?Sized>(
    before: Map<T, Activity<T, C>>,
    specs: Seq<ActivitySpec<T>>,
    clock: Arc<C>,
    after: Map<T, Activity<T, C>>,
    id: T,
)
    requires
        is_sound(before, clock),
        all_valid(specs),
        tracks_afresh(before, specs, clock, after),
        after.contains_key(id),
    ensures
        may_track(after[id], id, clock),
{
    if names(specs, id) {
        let i = choose|i: int| 0 <= i < specs.len() && (#[trigger] specs[i]).id == id;
        let last = lemma_last_of(specs, i);
        assert(after[specs[last].id].is_new(specs[last], clock));
    } else {
        assert(before.contains_key(id));
    }
}

/// Of the specs with the id of the `i`th, one is the last.
proof fn lemma_last_of<T: ActivityId>(specs: Seq<ActivitySpec<T>>, i: int) -> (last: int)
    requires
        0 <= i < specs.len(),
    ensures
        i <= last < specs.len(),
        specs[last].id == specs[i].id,
        is_last(specs, last),
    decreases specs.len() - i,
{
    if is_last(specs, i) {
        i
    } else {
        let j = choose|j: int| i < j < specs.len() && (#[trigger] specs[j]).id == specs[i].id;
        lemma_last_of(specs, j)
    }
}

/// Whether `cmds` are answered with `replies` one at a time and in order, where the scheduler tracks
/// `maps[i]` before the `i`th of them and `maps[i + 1]` after it.
pub open spec fn answers_in_order<T: ActivityId, C: Clock + ?Sized>(
    maps: Seq<Map<T, Activity<T, C>>>,
    clock: Arc<C>,
    cmds: Seq<Command<T>>,
    replies: Seq<Reply<T, C>>,
) -> bool {
    &&& maps.len() == cmds.len() + 1
    &&& replies.len() == cmds.len()
    &&& forall|i: int|
        0 <= i < cmds.len() ==> answers(
            maps[i],
            clock,
            #[trigger] cmds[i],
            maps[i + 1],
            replies[i],
        )
}

/// Commands that are sent to a new scheduler get a reply each, and are answered one at a time, in the
/// order in which they are sent, from a scheduler that tracks nothing: `schedulers[i]` is the
/// scheduler before the `i`th command, and each step is one of [`Scheduler::send`], or of
/// [`Scheduler::step`] on a message.
pub proof fn law_commands_answered_in_order<T: ActivityId, C: Clock + ?Sized>(
    schedulers: Seq<Scheduler<T, C>>,
    cmds: Seq<Command<T>>,
    replies: Seq<Option<Reply<T, C>>>,
)
    requires
        schedulers.len() == cmds.len() + 1,
        replies.len() == cmds.len(),
        schedulers[0]@ == Map::<T, Activity<T, C>>::empty(),
        !schedulers[0].is_stopped(),
        forall|i: int|
            0 <= i < cmds.len() ==> schedulers[i + 1].served(
                schedulers[i],
                #[trigger] cmds[i],
                replies[i],
            ),
    ensures
        forall|i: int| 0 <= i < replies.len() ==> (#[trigger] replies[i]) is Some,
        schedulers.map_values(|scheduler: Scheduler<T, C>| scheduler@)[0] == Map::<
            T,
            Activity<T, C>,
        >::empty(),
        answers_in_order(
            schedulers.map_values(|scheduler: Scheduler<T, C>| scheduler@),
            schedulers[0].clock(),
            cmds,
            replies.map_values(|reply: Option<Reply<T, C>>| reply->0),
        ),
{
    assert forall|i: int| 0 <= i < cmds.len() implies (#[trigger] replies[i]) is Some by {
        lemma_still_serving(schedulers, cmds, replies, i);
        assert(schedulers[i + 1].served(schedulers[i], cmds[i], replies[i]));
    }
    let maps = schedulers.map_values(|scheduler: Scheduler<T, C>| scheduler@);
    let given = replies.map_values(|reply: Option<Reply<T, C>>| reply->0);
    assert forall|i: int| 0 <= i < cmds.len() implies answers(
        maps[i],
        schedulers[0].clock(),
        #[trigger] cmds[i],
        maps[i + 1],
        given[i],
    ) by {
        lemma_still_serving(schedulers, cmds, replies, i);
        assert(replies[i] is Some);
    }
}

/// No command stops a scheduler or changes its clock.
proof fn lemma_still_serving<T: ActivityId, C: Clock + ?Sized>(
    schedulers: Seq<Scheduler<T, C>>,
    cmds: Seq<Command<T>>,
    replies: Seq<Option<Reply<T, C>>>,
    i: int,
)
    requires
        schedulers.len() == cmds.len() + 1,
        0 <= i <= cmds.len(),
        !schedulers[0].is_stopped(),
        forall|j: int|
            0 <= j < cmds.len() ==> schedulers[j + 1].served(
                schedulers[j],
                #[trigger] cmds[j],
                replies[j],
            ),
    ensures
        !schedulers[i].is_stopped(),
        schedulers[i].clock() == schedulers[0].clock(),
    decreases i,
{
    if i > 0 {
        lemma_still_serving(schedulers, cmds, replies, i - 1);
        assert(schedulers[i - 1 + 1].served(schedulers[i - 1], cmds[i - 1], replies[i - 1]));
    }
}

/// A scheduler keeps its invariant through any run of commands whose schedules can be followed.
pub proof fn law_runs_keep_the_invariant<T: ActivityId, C: Clock + ?Sized>(
    maps: Seq<Map<T, Activity<T, C>>>,
    clock: Arc<C>,
    cmds: Seq<Command<T>>,
    replies: Seq<Reply<T, C>>,
    i: int,
)
    requires
        answers_in_order(maps, clock, cmds, replies),
        is_sound(maps[0], clock),
        forall|j: int| 0 <= j < cmds.len() ==> can_follow(maps[j], #[trigger] cmds[j]),
        0 <= i <= cmds.len(),
    ensures
        is_sound(maps[i], clock),
    decreases i,
{
    if i > 0 {
        law_runs_keep_the_invariant(maps, clock, cmds, replies, i - 1);
        assert(can_follow(maps[i - 1], cmds[i - 1]));
        law_commands_keep_the_invariant(
            maps[i - 1],
            clock,
            cmds[i - 1],
            maps[i - 1 + 1],
            replies[i - 1],
        );
    }
}

/// A snapshot of a scheduler that keeps its invariant shows no activity that is completed or garbage,
/// none that is paused within a pause, and no two with the same id.
pub proof fn law_snapshot_shows_live_activities<T: ActivityId, C: Clock + ?Sized>(
    by_id: Map<T, Activity<T, C>>,
    clock: Arc<C>,
    activities: Seq<Activity<T, C>>,
)
    requires
        is_sound(by_id, clock),
        lists(by_id, activities),
    ensures
        forall|i: int| 0 <= i < activities.len() ==> (#[trigger] activities[i]).state.is_live(),
        forall|i: int, j: int|
            0 <= i < j < activities.len() ==> (#[trigger] activities[i]).spec.id != (
            #[trigger] activities[j]).spec.id,
{
    assert forall|i: int| 0 <= i < activities.len() implies (
    #[trigger] activities[i]).state.is_live() by {
        assert(may_track(activities[i], activities[i].spec.id, clock));
    }
}

/// What is claimed or copied right after a tick sees that tick applied.
pub proof fn law_tick_is_seen_by_the_next<T: ActivityId, C: Clock + ?Sized>(
    maps: Seq<Map<T, Activity<T, C>>>,
    clock: Arc<C>,
    cmds: Seq<Command<T>>,
    replies: Seq<Reply<T, C>>,
    i: int,
)
    requires
        answers_in_order(maps, clock, cmds, replies),
        0 <= i,
        i + 1 < cmds.len(),
        cmds[i] is Tick,
    ensures
        ticks_all(maps[i], maps[i + 1]),
        cmds[i + 1] is ClaimDue ==> (replies[i + 1] matches Reply::Due(due) && claims_all(
            maps[i + 1],
            due@,
            maps[i + 2],
        )),
        cmds[i + 1] is Snapshot ==> (replies[i + 1] matches Reply::Activities(activities) && lists(
            maps[i + 1],
            activities@,
        )),
{
    assert(answers(maps[i], clock, cmds[i], maps[i + 1], replies[i]));
    assert(answers(maps[i + 1], clock, cmds[i + 1], maps[i + 1 + 1], replies[i + 1]));
}

/// Whether `cmd` neither acknowledges a run of `id` nor registers or resets an activity of that id.
pub open spec fn leaves_under_way<T: ActivityId>(cmd: Command<T>, id: T) -> bool {
    match cmd {
        Command::Register { spec } => spec.id != id,
        Command::RegisterMany { specs } => !names(specs@, id),
        Command::Reset { spec } => spec.id != id,
        Command::ResetMany { specs } => !names(specs@, id),
        Command::Finish { id: finished, .. } => finished != id,
        _ => true,
    }
}

/// Through any run of commands that neither acknowledges a run that is under way nor registers or
/// resets its activity, that activity is not claimed again. It stays under way, or is gone.
pub proof fn law_under_way_is_not_claimed<T: ActivityId, C: Clock + ?Sized>(
    maps: Seq<Map<T, Activity<T, C>>>,
    clock: Arc<C>,
    cmds: Seq<Command<T>>,
    replies: Seq<Reply<T, C>>,
    id: T,
    i: int,
)
    requires
        answers_in_order(maps, clock, cmds, replies),
        maps[0].contains_key(id) ==> under_way(maps[0][id].state),
        forall|j: int| 0 <= j < cmds.len() ==> leaves_under_way(#[trigger] cmds[j], id),
        0 <= i < cmds.len(),
    ensures
        replies[i] matches Reply::Due(due) ==> !due@.contains(id),
        maps[i + 1].contains_key(id) ==> maps[i].contains_key(id) && under_way(
            maps[i + 1][id].state,
        ),
    decreases i,
{
    if i > 0 {
        law_under_way_is_not_claimed(maps, clock, cmds, replies, id, i - 1);
    }
    let before = maps[i];
    let after = maps[i + 1];
    assert(leaves_under_way(cmds[i], id));
    assert(answers(before, clock, cmds[i], after, replies[i]));
    match cmds[i] {
        Command::RegisterMany { specs } => {
            let fits = registrable(before.dom(), specs@);
            lemma_registrable_bound(before.dom(), specs@);
            let taken = specs@.take(fits as int);
            if names(taken, id) {
                let j = choose|j: int| 0 <= j < taken.len() && (#[trigger] taken[j]).id == id;
                assert(specs@[j].id == id);
            }
            assert(after.contains_key(id) <==> before.contains_key(id));
        },
        Command::ResetMany { specs } => {
            assert(after.contains_key(id) <==> before.contains_key(id));
        },
        Command::Tick => {
            if before.contains_key(id) {
                assert(ticks_one(before[id], id, after));
            }
        },
        Command::ClaimDue => {
            if before.contains_key(id) {
                assert(before[id].may_be_due(replies[i]->Due_0@.contains(id)));
            }
            assert(after.dom().contains(id) <==> before.dom().contains(id));
        },
        _ => {},
    }
}

/// All of `specs` can be registered just when their ids differ and none of them is taken.
pub proof fn law_registrable_means_new<T: ActivityId>(
    taken: Set<T>,
    specs: Seq<ActivitySpec<T>>,
)
    ensures
        registrable(taken, specs) == specs.len() <==> {
            &&& forall|i: int| 0 <= i < specs.len() ==> !taken.contains((#[trigger] specs[i]).id)
            &&& forall|i: int, j: int|
                0 <= i < j < specs.len() ==> (#[trigger] specs[i]).id != (#[trigger] specs[j]).id
        },
    decreases specs.len(),
{
    if specs.len() > 0 {
        let first = specs[0];
        let rest = specs.drop_first();
        let now_taken = taken.insert(first.id);
        law_registrable_means_new(now_taken, rest);
        let untaken = forall|i: int|
            0 <= i < specs.len() ==> !taken.contains((#[trigger] specs[i]).id);
        let distinct = forall|i: int, j: int|
            0 <= i < j < specs.len() ==> (#[trigger] specs[i]).id != (#[trigger] specs[j]).id;
        let rest_untaken = forall|i: int|
            0 <= i < rest.len() ==> !now_taken.contains((#[trigger] rest[i]).id);
        let rest_distinct = forall|i: int, j: int|
            0 <= i < j < rest.len() ==> (#[trigger] rest[i]).id != (#[trigger] rest[j]).id;
        if untaken && distinct {
            assert forall|i: int| 0 <= i < rest.len() implies !now_taken.contains(
                (#[trigger] rest[i]).id,
            ) by {
                assert(rest[i] == specs[i + 1]);
            }
            assert forall|i: int, j: int| 0 <= i < j < rest.len() implies (#[trigger] rest[i]).id
                != (#[trigger] rest[j]).id by {
                assert(rest[i] == specs[i + 1] && rest[j] == specs[j + 1]);
            }
        }
        if !taken.contains(first.id) && rest_untaken && rest_distinct {
            assert forall|i: int| 0 <= i < specs.len() implies !taken.contains(
                (#[trigger] specs[i]).id,
            ) by {
                if i > 0 {
                    assert(specs[i] == rest[i - 1]);
                }
            }
            assert forall|i: int, j: int| 0 <= i < j < specs.len() implies (#[trigger] specs[i]).id
                != (#[trigger] specs[j]).id by {
                assert(specs[j] == rest[j - 1]);
                if i > 0 {
                    assert(specs[i] == rest[i - 1]);
                }
            }
        }
        if registrable(taken, specs) == specs.len() {
            assert(!taken.contains(first.id));
        }
        lemma_registrable_bound(now_taken, rest);
    }
}

/// An activity that was claimed is claimed by no later poll before its run is acknowledged.
pub proof fn law_no_double_claim<T: ActivityId, C: Clock + ?Sized>(
    before: Map<T, Activity<T, C>>,
    due: Seq<T>,
    claimed: Map<T, Activity<T, C>>,
    ticked: Map<T, Activity<T, C>>,
    due_again: Seq<T>,
    after: Map<T, Activity<T, C>>,
)
    requires
        claims_all(before, due, claimed),
        ticks_all(claimed, ticked),
        claims_all(ticked, due_again, after),
    ensures
        forall|id: T| #[trigger] due.contains(id) ==> {
            &&& !due_again.contains(id)
            &&& after.contains_key(id)
            &&& after[id].state is Running
        },
{
    assert forall|id: T| #[trigger] due.contains(id) implies {
        &&& !due_again.contains(id)
        &&& after.contains_key(id)
        &&& after[id].state is Running
    } by {
        assert(before.contains_key(id));
        assert(claimed.contains_key(id));
        assert(ticks_one(claimed[id], id, ticked));
        assert(ticked.contains_key(id));
        assert(after.dom().contains(id));
    }
}

/// A poll hands out no activity that is disabled or running.
pub proof fn law_only_waiting_is_claimed<T: ActivityId, C: Clock + ?Sized>(
    before: Map<T, Activity<T, C>>,
    due: Seq<T>,
    after: Map<T, Activity<T, C>>,
    id: T,
)
    requires
        claims_all(before, due, after),
        due.contains(id),
    ensures
        before.contains_key(id),
        before[id].state.waits(),
        exists|now_utc: UtcTime| #[trigger]
            before[id].due(now_utc) && before[id].may_hold_against(now_utc),
{
    assert(before.contains_key(id));
    let now_utc = choose|now_utc: UtcTime|
        #![trigger before[id].at_target(now_utc)]
        before[id].may_hold_against(now_utc) && before[id].at_target(now_utc);
    assert(before[id].due(now_utc));
}

/// An activity that is due, whatever its clock reads, is handed out by the next claim and is then
/// running.
pub proof fn law_due_is_claimed<T: ActivityId, C: Clock + ?Sized>(
    before: Map<T, Activity<T, C>>,
    due: Seq<T>,
    after: Map<T, Activity<T, C>>,
    id: T,
)
    requires
        claims_all(before, due, after),
        before.contains_key(id),
        forall|now_utc: UtcTime|
            before[id].may_hold_against(now_utc) ==> #[trigger] before[id].due(now_utc),
        before[id].state.waits(),
    ensures
        due.contains(id),
        after[id] == before[id].claimed(),
{
    if !due.contains(id) {
        let now_utc = choose|now_utc: UtcTime|
            #![trigger before[id].at_target(now_utc)]
            before[id].may_hold_against(now_utc) && !before[id].at_target(now_utc);
        assert(!before[id].due(now_utc));
    }
}

/// An activity that was registered with a fixed interval is handed out by the first poll just when
/// its clock then shows a time that is at least the interval after its registration.
pub proof fn law_first_run_after_the_interval<T: ActivityId, C: Clock + ?Sized>(
    before: Map<T, Activity<T, C>>,
    clock: Arc<C>,
    spec: ActivitySpec<T>,
    interval: Duration,
    registered: Map<T, Activity<T, C>>,
    ticked: Map<T, Activity<T, C>>,
    due: Seq<T>,
    after: Map<T, Activity<T, C>>,
)
    requires
        spec.schedule == (ActivitySchedule::FixedInterval { duration: interval }),
        tracks_new(before, spec, clock, registered),
        ticks_all(registered, ticked),
        claims_all(ticked, due, after),
    ensures
        exists|now: Moment| #[trigger]
            clock.may_read(now) && (due.contains(spec.id) <==> saturating_difference(
                now@,
                registered[spec.id].last_tick@,
            ) >= interval@),
{
    let id = spec.id;
    let activity = registered[id];
    assert(registered.contains_key(id));
    assert(ticks_one(activity, id, ticked));
    let then = choose|then: Activity<T, C>|
        {
            &&& #[trigger] activity.ticks_to(then)
            &&& ticked.contains_key(id) <==> !(then.state is Gc)
            &&& ticked.contains_key(id) ==> ticked[id] == then
        };
    let (now, now_utc) = choose|now: Moment, now_utc: UtcTime|
        {
            &&& activity.clock.may_read(now)
            &&& (activity.expires() && activity.activation_target is Date
                ==> activity.clock.may_read_utc(now_utc))
            &&& then == #[trigger] activity.ticked(now, now_utc)
        };
    assert(ticked.contains_key(id));
    assert(clock.may_read(now));
    assert(now@ <= u128::MAX) by {
        lemma_moment_bound(now);
    }
    assert(ticked[id].duration_delta@ == activity.since_last_tick(now));
}

/// To disable an activity of a scheduler that was not, and to enable it again, leaves the scheduler
/// as it was.
pub proof fn law_pause_and_resume_is_nothing<T: ActivityId, C: Clock + ?Sized>(
    before: Map<T, Activity<T, C>>,
    clock: Arc<C>,
    id: T,
    paused: Map<T, Activity<T, C>>,
    first: Reply<T, C>,
    after: Map<T, Activity<T, C>>,
    second: Reply<T, C>,
)
    requires
        before.contains_key(id) ==> !(before[id].state is Disabled),
        answers(before, clock, Command::SetEnabled { id, enabled: false }, paused, first),
        answers(paused, clock, Command::SetEnabled { id, enabled: true }, after, second),
    ensures
        after == before,
{
}

/// Nothing that is done to one activity touches another.
pub proof fn law_others_untouched<T: ActivityId, C: Clock + ?Sized>(
    before: Map<T, Activity<T, C>>,
    clock: Arc<C>,
    cmd: Command<T>,
    after: Map<T, Activity<T, C>>,
    reply: Reply<T, C>,
    id: T,
    other: T,
)
    requires
        answers(before, clock, cmd, after, reply),
        other != id,
        match cmd {
            Command::Register { spec } => spec.id == id,
            Command::Reset { spec } => spec.id == id,
            Command::SetEnabled { id: named, .. } => named == id,
            Command::Finish { id: named, .. } => named == id,
            _ => false,
        },
    ensures
        after.contains_key(other) <==> before.contains_key(other),
        before.contains_key(other) ==> after[other] == before[other],
{
}

/// An activity that was registered shows in the next snapshot as newly created: idle, with no time
/// counted, and with a target that its schedule admits.
pub proof fn law_registered_shows_in_snapshot<T: ActivityId, C: Clock + ?Sized>(
    before: Map<T, Activity<T, C>>,
    clock: Arc<C>,
    spec: ActivitySpec<T>,
    after: Map<T, Activity<T, C>>,
    activities: Seq<Activity<T, C>>,
)
    requires
        tracks_new(before, spec, clock, after),
        lists(after, activities),
    ensures
        exists|i: int|
            0 <= i < activities.len() && (#[trigger] activities[i]).is_new(spec, clock)
                && activities[i].state is Idle && activities[i].duration_delta@ == 0,
{
    assert(after.contains_key(spec.id));
    let i = choose|i: int|
        0 <= i < activities.len() && (#[trigger] activities[i]).spec.id == spec.id;
    assert(activities[i].is_new(spec, clock));
}

/// A refused registration leaves all activities as they were, while a reset in its place tracks the
/// activity as newly created.
pub proof fn law_register_refuses_where_reset_replaces<T: ActivityId, C: Clock + ?Sized>(
    before: Map<T, Activity<T, C>>,
    clock: Arc<C>,
    spec: ActivitySpec<T>,
    registered: Map<T, Activity<T, C>>,
    refusal: Reply<T, C>,
    replaced: Map<T, Activity<T, C>>,
    applied: Reply<T, C>,
)
    requires
        before.contains_key(spec.id),
        answers(before, clock, Command::Register { spec }, registered, refusal),
        answers(before, clock, Command::Reset { spec }, replaced, applied),
    ensures
        registered == before,
        refusal matches Reply::Registered(Err(SchedulerError::ActivityAlreadyRegistered)),
        replaced.dom() == before.dom(),
        replaced[spec.id].is_new(spec, clock),
{
}

/// A run that is acknowledged with anything but a snooze removes a one-shot activity; all others,
/// and a one-shot activity that is snoozed, stay.
pub proof fn law_one_shot_runs_once<T: ActivityId, C: Clock + ?Sized>(
    before: Map<T, Activity<T, C>>,
    id: T,
    ack: AckMessage,
    after: Map<T, Activity<T, C>>,
)
    requires
        before.contains_key(id),
        finishes_one(before, id, ack, after),
    ensures
        after.contains_key(id) <==> !(before[id].spec.schedule is Scheduled && ack is Done),
        after.contains_key(id) ==> after[id].state.waits() && after[id].spec == before[id].spec,
{
}

/// A tick removes no activity but one-shot activities that are paused, and these only at their
/// target.
pub proof fn law_tick_drops_only_expired<T: ActivityId, C: Clock + ?Sized>(
    before: Map<T, Activity<T, C>>,
    clock: Arc<C>,
    after: Map<T, Activity<T, C>>,
    id: T,
)
    requires
        is_sound(before, clock),
        ticks_all(before, after),
        before.contains_key(id),
    ensures
        !after.contains_key(id) ==> before[id].expires() && before[id].may_be_at_target(true),
{
    assert(ticks_one(before[id], id, after));
    if !after.contains_key(id) {
        assert(may_track(before[id], id, clock));
        let ticked = choose|ticked: Activity<T, C>|
            {
                &&& #[trigger] before[id].ticks_to(ticked)
                &&& after.contains_key(id) <==> !(ticked.state is Gc)
                &&& after.contains_key(id) ==> after[id] == ticked
            };
        let (now, now_utc) = choose|now: Moment, now_utc: UtcTime|
            {
                &&& before[id].clock.may_read(now)
                &&& (before[id].expires() && before[id].activation_target is Date
                    ==> before[id].clock.may_read_utc(now_utc))
                &&& ticked == #[trigger] before[id].ticked(now, now_utc)
            };
        assert(before[id].at_target(now_utc));
        assert(before[id].may_hold_against(now_utc));
    }
}

/// The two readings of a test clock move together, and to move them twice is to move them by both
/// spans at once.
pub proof fn law_test_clock_advances_together(
    start: TestState,
    between: TestState,
    first: nat,
    end: TestState,
    second: nat,
)
    requires
        start.utc.valid(),
        between.after(start, first),
        end.after(between, second),
    ensures
        end.after(start, first + second),
        end.mono@ - start.mono@ == first + second,
{
    lemma_moved_on_additive(start.utc@, first, second);
}

/// The system's clock never goes back where the time that has gone by since its origin does not
/// shrink: with more time gone by it shows no earlier moment.
pub proof fn law_system_clock_follows_elapsed_time(first: nat, second: nat)
    requires
        first <= second,
    ensures
        SystemClock::shows(first) <= SystemClock::shows(second),
        SystemClock::shows(second) <= MAX_MOMENT_NANOS,
{
}

/// Progress is full just when an elapsed-time target is reached, and nothing right after a run was
/// claimed, where anything has to elapse at all.
pub proof fn law_interval_progress<T: ActivityId, C: Clock + ?Sized>(
    activity: Activity<T, C>,
    target: Duration,
    now_utc: UtcTime,
)
    requires
        activity.activation_target == ActivationTarget::Duration(target),
    ensures
        ({
            let (part, whole) = activity.progress_fraction(now_utc);
            part == whole <==> activity.at_target(now_utc)
        }),
        target@ > 0 ==> activity.claimed().progress_fraction(now_utc).0 == 0,
{
}

/// Progress towards a date is full once that date has come, where neither the date nor the time of
/// creation nor the present lies inside a leap second and the date was still to come on creation.
pub proof fn law_date_progress<T: ActivityId, C: Clock + ?Sized>(
    activity: Activity<T, C>,
    date: UtcTime,
    now_utc: UtcTime,
)
    requires
        activity.activation_target == ActivationTarget::Date(date),
        no_later(activity.created_at@, date@),
        activity.at_target(now_utc),
        activity.created_at.valid() && activity.created_at@.1 < 1_000_000_000,
        date.valid() && date@.1 < 1_000_000_000,
        now_utc.valid() && now_utc@.1 < 1_000_000_000,
    ensures
        ({
            let (part, whole) = activity.progress_fraction(now_utc);
            part == whole
        }),
{
}

/// How far a driver is on its way to its end.
pub open spec fn stage(phase: DriverPhase) -> nat {
    match phase {
        DriverPhase::Ready => 0,
        DriverPhase::Polling => 1,
        DriverPhase::Draining => 2,
        DriverPhase::Aborting => 3,
        DriverPhase::Stopped => 4,
    }
}

/// A driver never goes back: once it was told to stop it polls no more, and once it is at an end it
/// stays there.
pub proof fn law_driver_never_goes_back(
    phase: DriverPhase,
    event: DriverEvent,
    next: DriverPhase,
    action: DriverAction,
)
    requires
        proceeds(phase, event, next, action),
    ensures
        stage(phase) <= stage(next),
        action is Poll ==> phase is Polling && next is Polling && event is Ticked,
        event is Cancelled ==> !(next is Polling) && !(next is Ready),
        next is Stopped <==> action is Stop,
{
}

/// A driver that was told to stop while runs were under way comes to its end as soon as the last of
/// them has ended, aborts those that outlast the grace period, and waits for no others.
pub proof fn law_drain_ends(
    phase: DriverPhase,
    event: DriverEvent,
    next: DriverPhase,
    action: DriverAction,
)
    requires
        phase is Draining || phase is Aborting,
        proceeds(phase, event, next, action),
    ensures
        event matches DriverEvent::RunEnded { in_flight } ==> (next is Stopped <==> in_flight == 0),
        phase is Draining && event is GraceExpired ==> next is Stopped || action is AbortRuns,
        action is AbortRuns ==> phase is Draining && event is GraceExpired && next is Aborting,
{
}

/// Once a ritualist is stopped, it stays so whatever happens, and has nothing left to run.
pub proof fn law_stopped_is_final<T: ActivityId, C: Clock + ?Sized>(
    before: RunningRitualist<T, C>,
    event: DriverEvent,
    after: RunningRitualist<T, C>,
    action: DriverAction,
)
    requires
        before.well_formed(),
        before.handle.scheduler.is_stopped(),
        after.went_on(before, event, action),
    ensures
        after.handle.scheduler.is_stopped(),
        after.driver.phase is Stopped,
        action is Stop,
{
}

} // verus!
