//! The scheduler: all activities by their ids, and the commands that change them.

use crate::ack::AckMessage;
use crate::activity::{Activity, ActivityId, ActivityState};
use crate::activity_spec::ActivitySpec;
use crate::clock::Clock;
use std::collections::HashMap;
use std::sync::Arc;
use vstd::prelude::*;
use vstd::std_specs::hash::obeys_key_model;
use vstd::std_specs::iter::IteratorSpec;

verus! {

broadcast use vstd::std_specs::hash::group_hash_axioms;

/// Why a scheduler refuses an activity.
#[derive(Debug, Clone, Copy, PartialEq, Eq)]
#[non_exhaustive]
pub enum SchedulerError {
    /// An activity of that id is tracked already.
    ActivityAlreadyRegistered,
    /// The scheduler is stopped.
    Stopped,
}

impl SchedulerError {
    /// The error in words.
    pub fn message(&self) -> (text: &'static str)
        ensures
            text@ == match *self {
                SchedulerError::ActivityAlreadyRegistered => {
                    "this activity has been registered, maybe you want reset()"@
                },
                SchedulerError::Stopped => "the scheduler has been stopped"@,
            },
    {
        match self {
            SchedulerError::ActivityAlreadyRegistered => {
                "this activity has been registered, maybe you want reset()"
            },
            SchedulerError::Stopped => "the scheduler has been stopped",
        }
    }
}

/// What a scheduler can be told to do.
#[derive(Debug)]
pub enum Command<T: ActivityId> {
    /// Track a new activity.
    Register { spec: ActivitySpec<T> },
    /// Track new activities, up to the first whose id is taken.
    RegisterMany { specs: Vec<ActivitySpec<T>> },
    /// Track an activity afresh, whether or not its id is taken.
    Reset { spec: ActivitySpec<T> },
    /// Track activities afresh, whether or not their ids are taken.
    ResetMany { specs: Vec<ActivitySpec<T>> },
    /// Advance the time of all activities.
    Tick,
    /// Enable or disable an activity.
    SetEnabled { id: T, enabled: bool },
    /// Claim all activities that are due.
    ClaimDue,
    /// Acknowledge a run.
    Finish { id: T, ack: AckMessage },
    /// Copy all activities.
    Snapshot,
}

/// What a scheduler answers.
pub enum Reply<T: ActivityId, C: Clock + ?Sized = dyn Clock> {
    /// To [`Command::Register`] and [`Command::RegisterMany`].
    Registered(Result<(), SchedulerError>),
    /// To [`Command::ClaimDue`]: the ids of the activities to run.
    Due(Vec<T>),
    /// To [`Command::Snapshot`].
    Activities(Vec<Activity<T, C>>),
    /// To all other commands.
    Applied,
}

/// How many of `specs`, taken in order, have an id that is neither in `taken` nor that of one
/// before them. The first that has not ends the count.
pub open spec fn registrable<T: ActivityId>(taken: Set<T>, specs: Seq<ActivitySpec<T>>) -> nat
    decreases specs.len(),
{
    if specs.len() == 0 || taken.contains(specs[0].id) {
        0
    } else {
        1 + registrable(taken.insert(specs[0].id), specs.drop_first())
    }
}

/// No more specs can be registered than there are.
pub proof fn lemma_registrable_bound<T: ActivityId>(taken: Set<T>, specs: Seq<ActivitySpec<T>>)
    ensures
        registrable(taken, specs) <= specs.len(),
    decreases specs.len(),
{
    if specs.len() > 0 && !taken.contains(specs[0].id) {
        lemma_registrable_bound(taken.insert(specs[0].id), specs.drop_first());
    }
}

/// Whether `id` is that of one of `specs`.
pub open spec fn names<T: ActivityId>(specs: Seq<ActivitySpec<T>>, id: T) -> bool {
    exists|i: int| 0 <= i < specs.len() && (#[trigger] specs[i]).id == id
}

/// Whether the `i`th of `specs` is the last one with its id.
pub open spec fn is_last<T: ActivityId>(specs: Seq<ActivitySpec<T>>, i: int) -> bool {
    forall|j: int| i < j < specs.len() ==> (#[trigger] specs[j]).id != specs[i].id
}

/// Whether `after` tracks what `before` does, but for the activity of `spec`, which it tracks as
/// newly created on `clock`.
pub open spec fn tracks_new<T: ActivityId, C: Clock + ?Sized>(
    before: Map<T, Activity<T, C>>,
    spec: ActivitySpec<T>,
    clock: Arc<C>,
    after: Map<T, Activity<T, C>>,
) -> bool {
    &&& after == before.insert(spec.id, after[spec.id])
    &&& after[spec.id].is_new(spec, clock)
}

/// Whether `after` tracks what `before` does, but for the activities of `specs`, which it tracks as
/// newly created on `clock`. Of several specs with one id, the last counts.
pub open spec fn tracks_afresh<T: ActivityId, C: Clock + ?Sized>(
    before: Map<T, Activity<T, C>>,
    specs: Seq<ActivitySpec<T>>,
    clock: Arc<C>,
    after: Map<T, Activity<T, C>>,
) -> bool {
    &&& forall|id: T| #[trigger]
        after.contains_key(id) <==> before.contains_key(id) || names(specs, id)
    &&& forall|id: T| #[trigger]
        before.contains_key(id) && !names(specs, id) ==> after[id] == before[id]
    &&& forall|i: int|
        0 <= i < specs.len() && is_last(specs, i) ==> after[(#[trigger] specs[i]).id].is_new(
            specs[i],
            clock,
        )
}

/// To track `specs` afresh and then one more is to track them all afresh.
proof fn lemma_tracks_one_more<T: ActivityId, C: Clock + ?Sized>(
    before: Map<T, Activity<T, C>>,
    specs: Seq<ActivitySpec<T>>,
    clock: Arc<C>,
    between: Map<T, Activity<T, C>>,
    spec: ActivitySpec<T>,
    after: Map<T, Activity<T, C>>,
)
    requires
        tracks_afresh(before, specs, clock, between),
        tracks_new(between, spec, clock, after),
    ensures
        tracks_afresh(before, specs.push(spec), clock, after),
{
    let all = specs.push(spec);
    assert(all[specs.len() as int] == spec);
    assert forall|id: T| names(all, id) <==> names(specs, id) || id == spec.id by {
        if names(specs, id) {
            let i = choose|i: int| 0 <= i < specs.len() && (#[trigger] specs[i]).id == id;
            assert(all[i].id == id);
        }
        if names(all, id) {
            let i = choose|i: int| 0 <= i < all.len() && (#[trigger] all[i]).id == id;
            if i < specs.len() {
                assert(specs[i].id == id);
            }
        }
    }
    assert forall|id: T| #[trigger]
        after.contains_key(id) <==> before.contains_key(id) || names(all, id) by {
        assert(between.contains_key(id) <==> before.contains_key(id) || names(specs, id));
    }
    assert forall|id: T| #[trigger]
        before.contains_key(id) && !names(all, id) implies after[id] == before[id] by {
        assert(between.contains_key(id));
    }
    assert forall|i: int| 0 <= i < all.len() && is_last(all, i) implies after[(
    #[trigger] all[i]).id].is_new(all[i], clock) by {
        if i < specs.len() {
            assert(all[specs.len() as int].id != all[i].id);
            assert(specs[i] == all[i]);
            assert forall|j: int| i < j < specs.len() implies (#[trigger] specs[j]).id
                != specs[i].id by {
                assert(all[j].id != all[i].id);
            }
            assert(is_last(specs, i));
            assert(names(specs, specs[i].id));
            assert(between.contains_key(specs[i].id));
        }
    }
}

/// Whether a tick of `activity` may lead to what `after` has under `id`: nothing where it becomes
/// garbage, else the ticked activity.
pub open spec fn ticks_one<T: ActivityId, C: Clock + ?Sized>(
    activity: Activity<T, C>,
    id: T,
    after: Map<T, Activity<T, C>>,
) -> bool {
    exists|ticked: Activity<T, C>|
        {
            &&& #[trigger] activity.ticks_to(ticked)
            &&& after.contains_key(id) <==> !(ticked.state is Gc)
            &&& after.contains_key(id) ==> after[id] == ticked
        }
}

/// Whether a tick of all activities may turn `before` into `after`: those that become garbage are
/// gone, the others are ticked.
pub open spec fn ticks_all<T: ActivityId, C: Clock + ?Sized>(
    before: Map<T, Activity<T, C>>,
    after: Map<T, Activity<T, C>>,
) -> bool {
    &&& forall|id: T| #[trigger] after.contains_key(id) ==> before.contains_key(id)
    &&& forall|id: T| #[trigger]
        before.contains_key(id) ==> ticks_one(before[id], id, after)
}

/// Whether a claim of all due activities may turn `before` into `after` and give the ids `due`:
/// each of these once, in any order.
pub open spec fn claims_all<T: ActivityId, C: Clock + ?Sized>(
    before: Map<T, Activity<T, C>>,
    due: Seq<T>,
    after: Map<T, Activity<T, C>>,
) -> bool {
    &&& due.no_duplicates()
    &&& after.dom() == before.dom()
    &&& forall|id: T| #[trigger] due.contains(id) ==> before.contains_key(id)
    &&& forall|id: T| #[trigger]
        before.contains_key(id) ==> before[id].may_be_due(due.contains(id)) && after[id] == if due.contains(
        id) {
            before[id].claimed()
        } else {
            before[id]
        }
}

/// Whether an acknowledgement of a run of `id` may turn `before` into `after`: an activity that is
/// completed by it is gone, one that is not tracked is none.
pub open spec fn finishes_one<T: ActivityId, C: Clock + ?Sized>(
    before: Map<T, Activity<T, C>>,
    id: T,
    ack: AckMessage,
    after: Map<T, Activity<T, C>>,
) -> bool {
    if !before.contains_key(id) {
        after == before
    } else if before[id].completes(ack) {
        after == before.remove(id)
    } else {
        after == before.insert(id, after[id]) && before[id].finishes_to(ack, after[id])
    }
}

/// Whether `activities` holds each activity of `by_id` once, in any order.
pub open spec fn lists<T: ActivityId, C: Clock + ?Sized>(
    by_id: Map<T, Activity<T, C>>,
    activities: Seq<Activity<T, C>>,
) -> bool {
    &&& forall|i: int|
        0 <= i < activities.len() ==> by_id.contains_key((#[trigger] activities[i]).spec.id)
            && by_id[activities[i].spec.id] == activities[i]
    &&& forall|i: int, j: int|
        0 <= i < j < activities.len() ==> (#[trigger] activities[i]).spec.id != (
        #[trigger] activities[j]).spec.id
    &&& forall|id: T| #[trigger]
        by_id.contains_key(id) ==> exists|i: int|
            0 <= i < activities.len() && (#[trigger] activities[i]).spec.id == id
}

/// Whether `cmd`, sent to a scheduler that tracks `before` on `clock`, may make it track `after` and
/// answer with `reply`.
pub open spec fn answers<T: ActivityId, C: Clock + ?Sized>(
    before: Map<T, Activity<T, C>>,
    clock: Arc<C>,
    cmd: Command<T>,
    after: Map<T, Activity<T, C>>,
    reply: Reply<T, C>,
) -> bool {
    match cmd {
        Command::Register { spec } => if before.contains_key(spec.id) {
            &&& after == before
            &&& reply matches Reply::Registered(Err(SchedulerError::ActivityAlreadyRegistered))
        } else {
            &&& tracks_new(before, spec, clock, after)
            &&& reply matches Reply::Registered(Ok(()))
        },
        Command::RegisterMany { specs } => {
            let fits = registrable(before.dom(), specs@);
            &&& tracks_afresh(before, specs@.take(fits as int), clock, after)
            &&& if fits == specs@.len() {
                reply matches Reply::Registered(Ok(()))
            } else {
                reply matches Reply::Registered(Err(SchedulerError::ActivityAlreadyRegistered))
            }
        },
        Command::Reset { spec } => {
            &&& tracks_new(before, spec, clock, after)
            &&& reply is Applied
        },
        Command::ResetMany { specs } => {
            &&& tracks_afresh(before, specs@, clock, after)
            &&& reply is Applied
        },
        Command::Tick => {
            &&& ticks_all(before, after)
            &&& reply is Applied
        },
        Command::SetEnabled { id, enabled } => {
            &&& after == if before.contains_key(id) {
                before.insert(id, before[id].with_enabled(enabled))
            } else {
                before
            }
            &&& reply is Applied
        },
        Command::ClaimDue => {
            reply matches Reply::Due(due) && claims_all(before, due@, after)
        },
        Command::Finish { id, ack } => {
            &&& finishes_one(before, id, ack, after)
            &&& reply is Applied
        },
        Command::Snapshot => {
            &&& after == before
            &&& reply matches Reply::Activities(activities) && lists(before, activities@)
        },
    }
}

/// Whether a scheduler on `clock` may track `activity` under `id`.
pub open spec fn may_track<T: ActivityId, C: Clock + ?Sized>(
    activity: Activity<T, C>,
    id: T,
    clock: Arc<C>,
) -> bool {
    &&& activity.spec.id == id
    &&& activity.spec.is_valid()
    &&& activity.state.is_live()
    &&& activity.clock == clock
}

/// The invariant of a scheduler on `clock`: ids can be told apart by `==` and hashed, and every
/// activity is tracked under its own id, has a schedule that can be followed, still has a run ahead
/// or under way, and reads the scheduler's clock.
pub open spec fn is_sound<T: ActivityId, C: Clock + ?Sized>(
    by_id: Map<T, Activity<T, C>>,
    clock: Arc<C>,
) -> bool {
    &&& obeys_key_model::<T>()
    &&& forall|id: T| #[trigger] by_id.contains_key(id) ==> may_track(by_id[id], id, clock)
}

/// A scheduler that was sound still is where nothing but the activity `id` differs, and that one may
/// be tracked.
proof fn lemma_still_sound<T: ActivityId, C: Clock + ?Sized>(
    before: Map<T, Activity<T, C>>,
    id: T,
    after: Map<T, Activity<T, C>>,
    clock: Arc<C>,
)
    requires
        is_sound(before, clock),
        forall|other: T| #[trigger]
            after.contains_key(other) && other != id ==> before.contains_key(other) && after[other]
                == before[other],
        after.contains_key(id) ==> may_track(after[id], id, clock),
    ensures
        is_sound(after, clock),
{
    assert forall|other: T| #[trigger] after.contains_key(other) implies may_track(
        after[other],
        other,
        clock,
    ) by {
        if other != id {
            assert(before.contains_key(other));
        }
    }
}

/// An id that is among `ids` has a place there.
proof fn lemma_index_of<T: ActivityId>(ids: Seq<T>, id: T) -> (j: int)
    requires
        ids.to_set().contains(id),
    ensures
        0 <= j < ids.len(),
        ids[j] == id,
{
    choose|j: int| 0 <= j < ids.len() && ids[j] == id
}

/// Whether all activities have room for a tick, whatever their clock may read.
pub open spec fn has_room<T: ActivityId, C: Clock + ?Sized>(
    by_id: Map<T, Activity<T, C>>,
) -> bool {
    forall|id: T| #[trigger] by_id.contains_key(id) ==> by_id[id].has_room()
}

/// Whether all activities can be ticked at any moment.
pub open spec fn can_tick<T: ActivityId, C: Clock + ?Sized>(
    by_id: Map<T, Activity<T, C>>,
) -> bool {
    forall|id: T| #[trigger]
        by_id.contains_key(id) && by_id[id].state.waits() ==> by_id[id].has_headroom()
}

/// Whether all schedules that a scheduler which tracks `by_id` would track by `cmd` can be followed.
pub open spec fn can_follow<T: ActivityId, C: Clock + ?Sized>(
    by_id: Map<T, Activity<T, C>>,
    cmd: Command<T>,
) -> bool {
    match cmd {
        Command::Register { spec } => by_id.contains_key(spec.id) || spec.is_valid(),
        Command::RegisterMany { specs } => can_register(by_id, specs@),
        Command::Reset { spec } => spec.is_valid(),
        Command::ResetMany { specs } => all_valid(specs@),
        _ => true,
    }
}

/// Whether a scheduler that tracks `by_id` can carry out `cmd`: schedules to be tracked can be
/// followed, and time to be advanced has room.
pub open spec fn accepts<T: ActivityId, C: Clock + ?Sized>(
    by_id: Map<T, Activity<T, C>>,
    cmd: Command<T>,
) -> bool {
    can_follow(by_id, cmd) && (cmd is Tick ==> has_room(by_id))
}

/// Whether the schedules of all `specs` can be followed.
pub open spec fn all_valid<T: ActivityId>(specs: Seq<ActivitySpec<T>>) -> bool {
    forall|i: int| 0 <= i < specs.len() ==> (#[trigger] specs[i]).is_valid()
}

/// Whether the schedules of those `specs` that are [`registrable`] can be followed.
pub open spec fn can_register<T: ActivityId, C: Clock + ?Sized>(
    by_id: Map<T, Activity<T, C>>,
    specs: Seq<ActivitySpec<T>>,
) -> bool {
    forall|i: int|
        0 <= i < registrable(by_id.dom(), specs) ==> (#[trigger] specs[i]).is_valid()
}

/// The activities of a scheduler. The view is the map from ids to activities.
pub struct SchedulerActor<T: ActivityId, C: Clock + ?Sized = dyn Clock> {
    activities: HashMap<T, Activity<T, C>>,
    clock: Arc<C>,
}

impl<T: ActivityId, C: Clock + ?Sized> View for SchedulerActor<T, C> {
    type V = Map<T, Activity<T, C>>;

    closed spec fn view(&self) -> Map<T, Activity<T, C>> {
        self.activities@
    }
}

impl<T: ActivityId, C: Clock + ?Sized> SchedulerActor<T, C> {
    /// The clock that all activities read.
    pub closed spec fn clock(&self) -> Arc<C> {
        self.clock
    }

    /// The scheduler's invariant.
    pub open spec fn well_formed(&self) -> bool {
        is_sound(self@, self.clock())
    }

    /// A scheduler that tracks nothing yet.
    pub fn new(clock: Arc<C>) -> (actor: Self)
        requires
            obeys_key_model::<T>(),
        ensures
            actor.well_formed(),
            actor@ == Map::<T, Activity<T, C>>::empty(),
            actor.clock() == clock,
    {
        SchedulerActor { activities: HashMap::new(), clock }
    }

    /// Tracks a new activity unless its id is taken.
    pub fn register(&mut self, spec: ActivitySpec<T>) -> (registered: Result<(), SchedulerError>)
        requires
            old(self).well_formed(),
            old(self)@.contains_key(spec.id) || spec.is_valid(),
        ensures
            final(self).well_formed(),
            final(self).clock() == old(self).clock(),
            registered is Ok <==> !old(self)@.contains_key(spec.id),
            registered matches Err(e) ==> e is ActivityAlreadyRegistered,
            registered is Ok ==> tracks_new(
                old(self)@,
                spec,
                old(self).clock(),
                final(self)@,
            ),
            registered is Err ==> final(self)@ == old(self)@,
    {
        if self.activities.contains_key(&spec.id) {
            Err(SchedulerError::ActivityAlreadyRegistered)
        } else {
            self.reset(spec);
            Ok(())
        }
    }

    /// Tracks an activity afresh, whether or not its id is taken.
    pub fn reset(&mut self, spec: ActivitySpec<T>)
        requires
            old(self).well_formed(),
            spec.is_valid(),
        ensures
            final(self).well_formed(),
            final(self).clock() == old(self).clock(),
            tracks_new(old(self)@, spec, old(self).clock(), final(self)@),
    {
        let id = spec.id;
        let activity = Activity::new(spec, self.clock.clone());
        self.activities.insert(id, activity);
        proof {
            lemma_still_sound(old(self)@, id, self@, self.clock());
        }
    }

    /// Tracks new activities in order, up to the first whose id is taken.
    pub fn register_many(&mut self, specs: Vec<ActivitySpec<T>>) -> (registered: Result<
        (),
        SchedulerError,
    >)
        requires
            old(self).well_formed(),
            can_register(old(self)@, specs@),
        ensures
            final(self).well_formed(),
            final(self).clock() == old(self).clock(),
            registered is Ok <==> registrable(old(self)@.dom(), specs@) == specs@.len(),
            registered matches Err(e) ==> e is ActivityAlreadyRegistered,
            tracks_afresh(
                old(self)@,
                specs@.take(registrable(old(self)@.dom(), specs@) as int),
                old(self).clock(),
                final(self)@,
            ),
    {
        let ghost total = registrable(old(self)@.dom(), specs@);
        let mut i: usize = 0;
        assert(specs@.skip(0) == specs@);
        while i < specs.len()
            invariant
                i <= specs.len(),
                self.well_formed(),
                self.clock() == old(self).clock(),
                total == i + registrable(self@.dom(), specs@.skip(i as int)),
                forall|j: int| 0 <= j < total ==> (#[trigger] specs@[j]).is_valid(),
                tracks_afresh(old(self)@, specs@.take(i as int), old(self).clock(), self@),
                total == registrable(old(self)@.dom(), specs@),
            decreases specs.len() - i,
        {
            let spec = specs[i].clone();
            let ghost between = self@;
            assert(specs@.skip(i as int)[0] == spec);
            assert(specs@.skip(i as int).drop_first() == specs@.skip(i + 1));
            if self.activities.contains_key(&spec.id) {
                return Err(SchedulerError::ActivityAlreadyRegistered);
            }
            self.reset(spec);
            proof {
                assert(self@.dom() == between.dom().insert(spec.id));
                assert(specs@.take(i + 1) == specs@.take(i as int).push(spec));
                lemma_tracks_one_more(
                    old(self)@,
                    specs@.take(i as int),
                    old(self).clock(),
                    between,
                    spec,
                    self@,
                );
            }
            i += 1;
        }
        Ok(())
    }

    /// Tracks activities afresh, whether or not their ids are taken.
    pub fn reset_many(&mut self, specs: Vec<ActivitySpec<T>>)
        requires
            old(self).well_formed(),
            all_valid(specs@),
        ensures
            final(self).well_formed(),
            final(self).clock() == old(self).clock(),
            tracks_afresh(old(self)@, specs@, old(self).clock(), final(self)@),
    {
        let mut i: usize = 0;
        while i < specs.len()
            invariant
                i <= specs.len(),
                self.well_formed(),
                self.clock() == old(self).clock(),
                all_valid(specs@),
                tracks_afresh(old(self)@, specs@.take(i as int), old(self).clock(), self@),
            decreases specs.len() - i,
        {
            let spec = specs[i].clone();
            let ghost between = self@;
            self.reset(spec);
            proof {
                assert(specs@.take(i + 1) == specs@.take(i as int).push(spec));
                lemma_tracks_one_more(
                    old(self)@,
                    specs@.take(i as int),
                    old(self).clock(),
                    between,
                    spec,
                    self@,
                );
            }
            i += 1;
        }
        assert(specs@.take(specs@.len() as int) == specs@);
    }

    /// The ids of all activities.
    fn ids(&self) -> (ids: Vec<T>)
        requires
            obeys_key_model::<T>(),
        ensures
            ids@.no_duplicates(),
            ids@.to_set() == self@.dom(),
    {
        let mut ids: Vec<T> = Vec::new();
        let ghost keys = self.activities.keys().remaining();
        for id in iter: self.activities.keys()
            invariant
                iter.seq() == keys,
                ids@ == keys.unref().take(iter.index()),
        {
            ids.push(*id);
        }
        assert(ids@ == keys.unref());
        ids
    }

    /// Enables or disables the activity `id`, if it is tracked.
    pub fn set_enabled(&mut self, id: T, enabled: bool)
        requires
            old(self).well_formed(),
        ensures
            final(self).well_formed(),
            final(self).clock() == old(self).clock(),
            final(self)@ == if old(self)@.contains_key(id) {
                old(self)@.insert(id, old(self)@[id].with_enabled(enabled))
            } else {
                old(self)@
            },
    {
        if let Some(mut activity) = self.activities.remove(&id) {
            activity.set_enabled(enabled);
            self.activities.insert(id, activity);
            proof {
                assert(old(self)@.remove(id).insert(id, activity) == old(self)@.insert(
                    id,
                    activity,
                ));
                lemma_still_sound(old(self)@, id, self@, self.clock());
            }
        } else {
            assert(old(self)@.remove(id) == old(self)@);
        }
    }

    /// Applies the acknowledgement of a run of the activity `id`, if it is tracked.
    pub fn finish(&mut self, id: T, ack: AckMessage)
        requires
            old(self).well_formed(),
        ensures
            final(self).well_formed(),
            final(self).clock() == old(self).clock(),
            finishes_one(old(self)@, id, ack, final(self)@),
    {
        if let Some(mut activity) = self.activities.remove(&id) {
            assert(old(self)@.contains_key(id));
            activity.finish(ack);
            if !matches!(activity.state, ActivityState::Completed) {
                self.activities.insert(id, activity);
                assert(old(self)@.remove(id).insert(id, activity) == old(self)@.insert(
                    id,
                    activity,
                ));
            }
            proof {
                lemma_still_sound(old(self)@, id, self@, self.clock());
            }
        } else {
            assert(old(self)@.remove(id) == old(self)@);
        }
    }

    /// Advances the time of all activities, and drops those that become garbage.
    pub fn tick(&mut self)
        requires
            old(self).well_formed(),
            has_room(old(self)@),
        ensures
            final(self).well_formed(),
            final(self).clock() == old(self).clock(),
            ticks_all(old(self)@, final(self)@),
    {
        let ids = self.ids();
        let mut i: usize = 0;
        while i < ids.len()
            invariant
                i <= ids.len(),
                ids@.no_duplicates(),
                ids@.to_set() == old(self)@.dom(),
                old(self).well_formed(),
                has_room(old(self)@),
                self.well_formed(),
                self.clock() == old(self).clock(),
                forall|id: T| #[trigger] self@.contains_key(id) ==> old(self)@.contains_key(id),
                forall|j: int|
                    i <= j < ids.len() ==> self@.contains_key(#[trigger] ids@[j])
                        && self@[ids@[j]] == old(self)@[ids@[j]],
                forall|j: int|
                    0 <= j < i ==> ticks_one(old(self)@[#[trigger] ids@[j]], ids@[j], self@),
            decreases ids.len() - i,
        {
            let id = ids[i];
            let ghost between = self@;
            assert(ids@.to_set().contains(ids@[i as int]));
            if let Some(mut activity) = self.activities.remove(&id) {
                activity.tick();
                if !matches!(activity.state, ActivityState::Gc) {
                    self.activities.insert(id, activity);
                }
                proof {
                    assert(old(self)@[id].ticks_to(activity));
                    assert forall|j: int| 0 <= j < i implies ticks_one(
                        old(self)@[#[trigger] ids@[j]],
                        ids@[j],
                        self@,
                    ) by {
                        assert(ids@[j] != id);
                        assert(ticks_one(old(self)@[ids@[j]], ids@[j], between));
                    }
                    lemma_still_sound(between, id, self@, self.clock());
                }
            }
            i += 1;
        }
        proof {
            assert forall|id: T| #[trigger] old(self)@.contains_key(id) implies ticks_one(
                old(self)@[id],
                id,
                self@,
            ) by {
                lemma_index_of(ids@, id);
            }
        }
    }

    /// Claims all activities that are due, and gives their ids in no particular order.
    pub fn claim_due(&mut self) -> (due: Vec<T>)
        requires
            old(self).well_formed(),
        ensures
            final(self).well_formed(),
            final(self).clock() == old(self).clock(),
            claims_all(old(self)@, due@, final(self)@),
    {
        let ids = self.ids();
        let mut due: Vec<T> = Vec::new();
        let mut i: usize = 0;
        while i < ids.len()
            invariant
                i <= ids.len(),
                ids@.no_duplicates(),
                ids@.to_set() == old(self)@.dom(),
                old(self).well_formed(),
                self.well_formed(),
                self.clock() == old(self).clock(),
                self@.dom() == old(self)@.dom(),
                due@.no_duplicates(),
                forall|id: T| #[trigger] due@.contains(id) ==> ids@.take(i as int).contains(id),
                forall|j: int|
                    i <= j < ids.len() ==> self@[#[trigger] ids@[j]] == old(self)@[ids@[j]],
                forall|j: int|
                    0 <= j < i ==> old(self)@[#[trigger] ids@[j]].may_be_due(
                        due@.contains(ids@[j]),
                    ) && self@[ids@[j]] == if due@.contains(ids@[j]) {
                        old(self)@[ids@[j]].claimed()
                    } else {
                        old(self)@[ids@[j]]
                    },
            decreases ids.len() - i,
        {
            let id = ids[i];
            let ghost between = self@;
            let ghost due_so_far = due@;
            assert(ids@.to_set().contains(ids@[i as int]));
            assert(!due@.contains(id));
            assert(ids@.take(i + 1) == ids@.take(i as int).push(id));
            if let Some(mut activity) = self.activities.remove(&id) {
                if let Some(claimed) = activity.claim_if_due() {
                    due.push(claimed);
                }
                self.activities.insert(id, activity);
                proof {
                    assert forall|other: T| #[trigger]
                        due@.contains(other) <==> due_so_far.contains(other) || (
                        due@ != due_so_far && other == id) by {
                        if due@ != due_so_far {
                            assert(due@ == due_so_far.push(id));
                            assert(due@[due_so_far.len() as int] == id);
                            if due_so_far.contains(other) {
                                let k = choose|k: int|
                                    0 <= k < due_so_far.len() && due_so_far[k] == other;
                                assert(due@[k] == other);
                            }
                        }
                    }
                    assert(ids@.take(i + 1)[i as int] == id);
                    assert forall|other: T| #[trigger] due@.contains(other) implies ids@.take(
                        i + 1,
                    ).contains(other) by {
                        if other != id {
                            let k = choose|k: int|
                                0 <= k < i && ids@.take(i as int)[k] == other;
                            assert(ids@.take(i + 1)[k] == other);
                        }
                    }
                    assert(self@.dom() == between.dom());
                    lemma_still_sound(between, id, self@, self.clock());
                }
            }
            i += 1;
        }
        proof {
            assert(ids@.take(ids@.len() as int) == ids@);
            assert forall|id: T| #[trigger] due@.contains(id) implies old(self)@.contains_key(
                id,
            ) by {
                assert(ids@.to_set().contains(id));
            }
            assert forall|id: T| #[trigger] old(self)@.contains_key(id) implies old(
                self,
            )@[id].may_be_due(due@.contains(id)) && self@[id] == if due@.contains(id) {
                old(self)@[id].claimed()
            } else {
                old(self)@[id]
            } by {
                lemma_index_of(ids@, id);
            }
        }
        due
    }

    /// Copies all activities, in no particular order.
    pub fn snapshot(&self) -> (activities: Vec<Activity<T, C>>)
        requires
            self.well_formed(),
        ensures
            lists(self@, activities@),
    {
        let ids = self.ids();
        let mut activities: Vec<Activity<T, C>> = Vec::new();
        let mut i: usize = 0;
        while i < ids.len()
            invariant
                i <= ids.len(),
                ids@.no_duplicates(),
                ids@.to_set() == self@.dom(),
                self.well_formed(),
                activities.len() == i,
                forall|j: int|
                    0 <= j < i ==> (#[trigger] activities@[j]).spec.id == ids@[j]
                        && activities@[j] == self@[ids@[j]],
            decreases ids.len() - i,
        {
            assert(ids@.to_set().contains(ids@[i as int]));
            if let Some(activity) = self.activities.get(&ids[i]) {
                activities.push(activity.clone());
            }
            i += 1;
        }
        proof {
            assert forall|j: int| 0 <= j < activities.len() implies self@.contains_key(
                (#[trigger] activities@[j]).spec.id,
            ) by {
                assert(ids@.to_set().contains(ids@[j]));
            }
            assert forall|id: T| #[trigger] self@.contains_key(id) implies exists|j: int|
                0 <= j < activities.len() && (#[trigger] activities@[j]).spec.id == id by {
                let j = lemma_index_of(ids@, id);
                assert(activities@[j].spec.id == id);
            }
        }
        activities
    }

    /// Tells whether [`tick`](SchedulerActor::tick) can be called whatever the clock shows.
    pub fn ready_to_tick(&self) -> (ready: bool)
        requires
            self.well_formed(),
        ensures
            ready == can_tick(self@),
            ready ==> has_room(self@),
    {
        let ids = self.ids();
        let mut i: usize = 0;
        while i < ids.len()
            invariant
                i <= ids.len(),
                ids@.to_set() == self@.dom(),
                self.well_formed(),
                forall|j: int|
                    0 <= j < i && self@[#[trigger] ids@[j]].state.waits()
                        ==> self@[ids@[j]].has_headroom(),
            decreases ids.len() - i,
        {
            assert(ids@.to_set().contains(ids@[i as int]));
            if let Some(activity) = self.activities.get(&ids[i]) {
                if activity.state.is_scheduled() && !activity.can_tick() {
                    assert(self@.contains_key(ids@[i as int]));
                    return false;
                }
            }
            i += 1;
        }
        proof {
            assert forall|id: T| #[trigger]
                self@.contains_key(id) && self@[id].state.waits() implies self@[id].has_headroom() by {
                lemma_index_of(ids@, id);
            }
        }
        true
    }

    /// Carries out a command.
    pub fn send(&mut self, cmd: Command<T>) -> (reply: Reply<T, C>)
        requires
            old(self).well_formed(),
            accepts(old(self)@, cmd),
        ensures
            final(self).well_formed(),
            final(self).clock() == old(self).clock(),
            answers(old(self)@, old(self).clock(), cmd, final(self)@, reply),
    {
        match cmd {
            Command::Register { spec } => Reply::Registered(self.register(spec)),
            Command::RegisterMany { specs } => Reply::Registered(self.register_many(specs)),
            Command::Reset { spec } => {
                self.reset(spec);
                Reply::Applied
            },
            Command::ResetMany { specs } => {
                self.reset_many(specs);
                Reply::Applied
            },
            Command::Tick => {
                self.tick();
                Reply::Applied
            },
            Command::SetEnabled { id, enabled } => {
                self.set_enabled(id, enabled);
                Reply::Applied
            },
            Command::ClaimDue => Reply::Due(self.claim_due()),
            Command::Finish { id, ack } => {
                self.finish(id, ack);
                Reply::Applied
            },
            Command::Snapshot => Reply::Activities(self.snapshot()),
        }
    }
}

/// What reaches the loop that serves a scheduler.
pub enum Inbox<T: ActivityId> {
    /// The scheduler is told to stop.
    Cancelled,
    /// Nobody is left to send commands.
    Closed,
    /// A command.
    Message(Command<T>),
}

/// The largest number of messages that a channel can hold back.
pub open spec fn max_buffer() -> int {
    usize::MAX as int / 8
}

/// A scheduler and whether it still takes commands. Once it is stopped, commands are dropped.
pub struct Scheduler<T: ActivityId, C: Clock + ?Sized = dyn Clock> {
    actor: SchedulerActor<T, C>,
    buffer_size: usize,
    stopped: bool,
}

/// A scheduler that reads `clock` and tracks nothing yet, whose commands go through a channel that
/// holds back up to `buffer` of them.
pub fn spawn_scheduler<T: ActivityId, C: Clock + ?Sized>(
    buffer: usize,
    clock: Arc<C>,
) -> (scheduler: Scheduler<T, C>)
    requires
        obeys_key_model::<T>(),
        0 < buffer <= max_buffer(),
    ensures
        scheduler.well_formed(),
        !scheduler.is_stopped(),
        scheduler@ == Map::<T, Activity<T, C>>::empty(),
        scheduler.clock() == clock,
        scheduler.capacity() == buffer,
{
    Scheduler { actor: SchedulerActor::new(clock), buffer_size: buffer, stopped: false }
}

impl<T: ActivityId, C: Clock + ?Sized> View for Scheduler<T, C> {
    type V = Map<T, Activity<T, C>>;

    closed spec fn view(&self) -> Map<T, Activity<T, C>> {
        self.actor@
    }
}

impl<T: ActivityId, C: Clock + ?Sized> Scheduler<T, C> {
    /// The clock that all activities read.
    pub closed spec fn clock(&self) -> Arc<C> {
        self.actor.clock()
    }

    /// How many commands its channel holds back.
    pub closed spec fn capacity(&self) -> nat {
        self.buffer_size as nat
    }

    /// Whether it drops all further commands.
    pub closed spec fn is_stopped(&self) -> bool {
        self.stopped
    }

    /// The scheduler's invariant.
    pub open spec fn well_formed(&self) -> bool {
        is_sound(self@, self.clock())
    }

    /// Whether nothing but the activities differs from `before`.
    pub open spec fn same_but_activities(&self, before: Self) -> bool {
        &&& self.clock() == before.clock()
        &&& self.capacity() == before.capacity()
        &&& self.is_stopped() == before.is_stopped()
    }

    /// Whether the scheduler came from `before` by `cmd`, and answered with `reply`: as
    /// [`answers`] says, or not at all and unchanged where it was stopped.
    pub open spec fn served(
        &self,
        before: Self,
        cmd: Command<T>,
        reply: Option<Reply<T, C>>,
    ) -> bool {
        &&& self.same_but_activities(before)
        &&& reply is Some <==> !before.is_stopped()
        &&& reply matches Some(r) ==> answers(before@, before.clock(), cmd, self@, r)
        &&& reply is None ==> self@ == before@
    }

    /// Carries out a command, or drops it without a reply where the scheduler is stopped.
    pub fn send(&mut self, cmd: Command<T>) -> (reply: Option<Reply<T, C>>)
        requires
            old(self).well_formed(),
            !old(self).is_stopped() ==> accepts(old(self)@, cmd),
        ensures
            final(self).well_formed(),
            final(self).served(*old(self), cmd, reply),
    {
        if self.stopped {
            None
        } else {
            Some(self.actor.send(cmd))
        }
    }

    /// Serves what reaches the scheduler's loop. Without a reply, the loop is over: the scheduler
    /// was told to stop, or nobody is left to send commands, or it was stopped before.
    pub fn step(&mut self, inbox: Inbox<T>) -> (reply: Option<Reply<T, C>>)
        requires
            old(self).well_formed(),
            !old(self).is_stopped() ==> (inbox matches Inbox::Message(cmd) ==> accepts(
                old(self)@,
                cmd,
            )),
        ensures
            final(self).well_formed(),
            final(self).clock() == old(self).clock(),
            final(self).capacity() == old(self).capacity(),
            inbox matches Inbox::Message(cmd) ==> final(self).served(*old(self), cmd, reply),
            !(inbox is Message) ==> reply is None && final(self)@ == old(self)@,
            final(self).is_stopped() <==> reply is None,
    {
        match inbox {
            Inbox::Message(cmd) => self.send(cmd),
            Inbox::Cancelled | Inbox::Closed => {
                self.shutdown();
                None
            },
        }
    }

    /// Stops the scheduler: all further commands are dropped.
    pub fn shutdown(&mut self)
        requires
            old(self).well_formed(),
        ensures
            final(self).well_formed(),
            final(self).is_stopped(),
            final(self)@ == old(self)@,
            final(self).clock() == old(self).clock(),
            final(self).capacity() == old(self).capacity(),
    {
        self.stopped = true;
    }

    /// Tells whether the scheduler is stopped.
    pub fn stopped(&self) -> (stopped: bool)
        ensures
            stopped == self.is_stopped(),
    {
        self.stopped
    }

    /// How many commands its channel holds back.
    pub fn buffer_size(&self) -> (buffer_size: usize)
        ensures
            buffer_size == self.capacity(),
    {
        self.buffer_size
    }

    /// Tells whether [`tick`](Scheduler::tick) can be called whatever the clock shows.
    pub fn ready_to_tick(&self) -> (ready: bool)
        requires
            self.well_formed(),
        ensures
            ready == can_tick(self@),
            ready ==> has_room(self@),
    {
        self.actor.ready_to_tick()
    }

    /// Tracks a new activity unless its id is taken or the scheduler is stopped.
    pub fn register(&mut self, spec: ActivitySpec<T>) -> (registered: Result<(), SchedulerError>)
        requires
            old(self).well_formed(),
            !old(self).is_stopped() ==> old(self)@.contains_key(spec.id) || spec.is_valid(),
        ensures
            final(self).well_formed(),
            final(self).same_but_activities(*old(self)),
            registered is Ok <==> !old(self).is_stopped() && !old(self)@.contains_key(spec.id),
            registered matches Err(e) ==> e == if old(self).is_stopped() {
                SchedulerError::Stopped
            } else {
                SchedulerError::ActivityAlreadyRegistered
            },
            registered is Ok ==> tracks_new(
                old(self)@,
                spec,
                old(self).clock(),
                final(self)@,
            ),
            registered is Err ==> final(self)@ == old(self)@,
    {
        match self.send(Command::Register { spec }) {
            Some(Reply::Registered(registered)) => registered,
            _ => Err(SchedulerError::Stopped),
        }
    }

    /// Tracks new activities in order, up to the first whose id is taken; none where the scheduler
    /// is stopped.
    pub fn register_many(&mut self, specs: Vec<ActivitySpec<T>>) -> (registered: Result<
        (),
        SchedulerError,
    >)
        requires
            old(self).well_formed(),
            !old(self).is_stopped() ==> can_register(old(self)@, specs@),
        ensures
            final(self).well_formed(),
            final(self).same_but_activities(*old(self)),
            registered is Ok <==> !old(self).is_stopped() && registrable(old(self)@.dom(), specs@)
                == specs@.len(),
            registered matches Err(e) ==> e == if old(self).is_stopped() {
                SchedulerError::Stopped
            } else {
                SchedulerError::ActivityAlreadyRegistered
            },
            old(self).is_stopped() ==> final(self)@ == old(self)@,
            !old(self).is_stopped() ==> tracks_afresh(
                old(self)@,
                specs@.take(registrable(old(self)@.dom(), specs@) as int),
                old(self).clock(),
                final(self)@,
            ),
    {
        match self.send(Command::RegisterMany { specs }) {
            Some(Reply::Registered(registered)) => registered,
            _ => Err(SchedulerError::Stopped),
        }
    }

    /// Tracks an activity afresh, whether or not its id is taken.
    pub fn reset(&mut self, spec: ActivitySpec<T>)
        requires
            old(self).well_formed(),
            !old(self).is_stopped() ==> spec.is_valid(),
        ensures
            final(self).well_formed(),
            final(self).same_but_activities(*old(self)),
            !old(self).is_stopped() ==> tracks_new(
                old(self)@,
                spec,
                old(self).clock(),
                final(self)@,
            ),
            old(self).is_stopped() ==> final(self)@ == old(self)@,
    {
        self.send(Command::Reset { spec });
    }

    /// Tracks activities afresh, whether or not their ids are taken.
    pub fn reset_many(&mut self, specs: Vec<ActivitySpec<T>>)
        requires
            old(self).well_formed(),
            !old(self).is_stopped() ==> all_valid(specs@),
        ensures
            final(self).well_formed(),
            final(self).same_but_activities(*old(self)),
            !old(self).is_stopped() ==> tracks_afresh(
                old(self)@,
                specs@,
                old(self).clock(),
                final(self)@,
            ),
            old(self).is_stopped() ==> final(self)@ == old(self)@,
    {
        self.send(Command::ResetMany { specs });
    }

    /// Advances the time of all activities, and drops those that become garbage.
    pub fn tick(&mut self)
        requires
            old(self).well_formed(),
            !old(self).is_stopped() ==> has_room(old(self)@),
        ensures
            final(self).well_formed(),
            final(self).same_but_activities(*old(self)),
            !old(self).is_stopped() ==> ticks_all(old(self)@, final(self)@),
            old(self).is_stopped() ==> final(self)@ == old(self)@,
    {
        self.send(Command::Tick);
    }

    /// Enables or disables the activity `id`, if it is tracked.
    pub fn set_enabled(&mut self, id: T, enabled: bool)
        requires
            old(self).well_formed(),
        ensures
            final(self).well_formed(),
            final(self).same_but_activities(*old(self)),
            final(self)@ == if !old(self).is_stopped() && old(self)@.contains_key(id) {
                old(self)@.insert(id, old(self)@[id].with_enabled(enabled))
            } else {
                old(self)@
            },
    {
        self.send(Command::SetEnabled { id, enabled });
    }

    /// Claims all activities that are due, and gives their ids in no particular order; none where
    /// the scheduler is stopped.
    pub fn claim_due(&mut self) -> (due: Vec<T>)
        requires
            old(self).well_formed(),
        ensures
            final(self).well_formed(),
            final(self).same_but_activities(*old(self)),
            !old(self).is_stopped() ==> claims_all(old(self)@, due@, final(self)@),
            old(self).is_stopped() ==> due@.len() == 0 && final(self)@ == old(self)@,
    {
        match self.send(Command::ClaimDue) {
            Some(Reply::Due(due)) => due,
            _ => Vec::new(),
        }
    }

    /// Applies the acknowledgement of a run of the activity `id`, if it is tracked.
    pub fn finish(&mut self, id: T, ack: AckMessage)
        requires
            old(self).well_formed(),
        ensures
            final(self).well_formed(),
            final(self).same_but_activities(*old(self)),
            !old(self).is_stopped() ==> finishes_one(old(self)@, id, ack, final(self)@),
            old(self).is_stopped() ==> final(self)@ == old(self)@,
    {
        self.send(Command::Finish { id, ack });
    }

    /// Copies all activities, in no particular order; none where the scheduler is stopped.
    pub fn snapshot(&self) -> (activities: Vec<Activity<T, C>>)
        requires
            self.well_formed(),
        ensures
            !self.is_stopped() ==> lists(self@, activities@),
            self.is_stopped() ==> activities@.len() == 0,
    {
        if self.stopped {
            Vec::new()
        } else {
            self.actor.snapshot()
        }
    }
}

} // verus!
