//! What an activity is and when it runs.

use crate::activation_target::ActivationTarget;
use crate::activity::ActivityId;
use crate::time::Duration;
use crate::utc::UtcTime;
use rand::Rng;
use vstd::prelude::*;

verus! {

/// `rand::Rng::random_range` on the thread's generator: a span of at least `min` and less than
/// `max`, both given in seconds and nanoseconds. Which one is left to chance; that it lies in the
/// range and is given in whole seconds and less than a second's worth of nanoseconds is claimed.
#[verifier::external_body]
fn rand_duration_between(min: (u64, u32), max: (u64, u32)) -> (drawn: (u64, u32))
    requires
        min.1 < 1_000_000_000,
        max.1 < 1_000_000_000,
        min.0 < max.0 || (min.0 == max.0 && min.1 < max.1),
    ensures
        drawn.1 < 1_000_000_000,
        min.0 < drawn.0 || (min.0 == drawn.0 && min.1 <= drawn.1),
        drawn.0 < max.0 || (drawn.0 == max.0 && drawn.1 < max.1),
{
    let low = std::time::Duration::new(min.0, min.1);
    let high = std::time::Duration::new(max.0, max.1);
    let drawn = rand::rng().random_range(low..high);
    (drawn.as_secs(), drawn.subsec_nanos())
}

/// Whether `rand::Rng::random_range` may draw the span `drawn` from `min` up to but not at `max`.
pub closed spec fn may_be_drawn(min: nat, max: nat, drawn: nat) -> bool {
    exists|low: (u64, u32), high: (u64, u32), between: (u64, u32)|
        {
            &&& #[trigger] call_ensures(rand_duration_between, (low, high), between)
            &&& min == low.0 * 1_000_000_000 + low.1
            &&& max == high.0 * 1_000_000_000 + high.1
            &&& drawn == between.0 * 1_000_000_000 + between.1
        }
}

/// A random span rests on a draw from the very range that was asked for.
proof fn law_draws_rest_on_rand(min: nat, max: nat, drawn: nat)
    requires
        may_be_drawn(min, max, drawn),
    ensures
        exists|low: (u64, u32), high: (u64, u32), between: (u64, u32)|
            {
                &&& #[trigger] call_ensures(rand_duration_between, (low, high), between)
                &&& low.0 * 1_000_000_000 + low.1 == min
                &&& high.0 * 1_000_000_000 + high.1 == max
                &&& between.0 * 1_000_000_000 + between.1 == drawn
            },
{
}

/// A random span of at least `min` and less than `max`.
pub fn random_duration(min: &Duration, max: &Duration) -> (drawn: Duration)
    requires
        min@ < max@,
    ensures
        min@ <= drawn@ < max@,
        may_be_drawn(min@, max@, drawn@),
{
    let low = (min.as_secs(), min.subsec_nanos());
    let high = (max.as_secs(), max.subsec_nanos());
    let between = rand_duration_between(low, high);
    assert(call_ensures(rand_duration_between, (low, high), between));
    Duration::new(between.0, between.1)
}

/// When an activity runs.
#[derive(Debug, Clone, Copy, PartialEq, Eq, Hash)]
pub enum ActivitySchedule {
    /// Every `duration`, counted from the last acknowledged run.
    FixedInterval { duration: Duration },
    /// After a random time of at least `min` and less than `max`, drawn anew for each cycle.
    RandomInterval { min: Duration, max: Duration },
    /// Once, at `date`.
    Scheduled { date: UtcTime },
}

impl ActivitySchedule {
    /// Whether the schedule can be followed: a random interval needs `min` less than `max`.
    pub open spec fn is_valid(self) -> bool {
        self matches ActivitySchedule::RandomInterval { min, max } ==> min@ < max@
    }

    /// Whether `target` is one that a cycle of this schedule may wait for.
    pub open spec fn admits(self, target: ActivationTarget) -> bool {
        match self {
            ActivitySchedule::FixedInterval { duration } => target == ActivationTarget::Duration(
                duration,
            ),
            ActivitySchedule::RandomInterval { min, max } => target matches
                ActivationTarget::Duration(drawn) && min@ <= drawn@ < max@ && may_be_drawn(
                min@,
                max@,
                drawn@,
            ),
            ActivitySchedule::Scheduled { date } => target == ActivationTarget::Date(date),
        }
    }
}

/// An activity and its schedule.
#[derive(Debug)]
pub struct ActivitySpec<T: ActivityId> {
    /// Identifies the activity. No two activities of a scheduler share an id.
    pub id: T,
    /// When the activity should run.
    pub schedule: ActivitySchedule,
}

impl<T: ActivityId> ActivitySpec<T> {
    /// Whether the activity can be registered.
    pub open spec fn is_valid(self) -> bool {
        self.schedule.is_valid()
    }

    /// Tells whether the schedule can be followed.
    pub fn validate(&self) -> (checked: Result<(), ActivitySpecError>)
        ensures
            checked is Ok <==> self.is_valid(),
            checked matches Err(e) ==> e is IntervalRangeOverflow,
            checked is Err <==> (self.schedule matches ActivitySchedule::RandomInterval {
                min,
                max,
            } && min@ >= max@),
    {
        if let ActivitySchedule::RandomInterval { min, max } = self.schedule {
            if min.at_least(&max) {
                return Err(ActivitySpecError::IntervalRangeOverflow);
            }
        }
        Ok(())
    }
}

impl<T: ActivityId> Clone for ActivitySpec<T> {
    fn clone(&self) -> (copy: ActivitySpec<T>)
        ensures
            copy == *self,
    {
        ActivitySpec { id: self.id, schedule: self.schedule }
    }
}

/// Why an activity cannot be registered as specified.
#[derive(Debug, Clone, Copy, PartialEq, Eq)]
#[non_exhaustive]
pub enum ActivitySpecError {
    /// A random interval whose `min` is not less than its `max`.
    IntervalRangeOverflow,
}

impl ActivitySpecError {
    /// The error in words.
    pub fn message(&self) -> (text: &'static str)
        ensures
            text@ == "random interval is invalid: min must be less than max"@,
    {
        match self {
            ActivitySpecError::IntervalRangeOverflow => {
                "random interval is invalid: min must be less than max"
            },
        }
    }
}

} // verus!
