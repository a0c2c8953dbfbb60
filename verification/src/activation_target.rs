//! What an activity waits for.

use crate::activity_spec::{random_duration, ActivitySchedule};
use crate::time::Duration;
use crate::utc::UtcTime;
use vstd::prelude::*;

verus! {

/// What has to be reached before an activity fires.
#[derive(Debug, Clone, Copy, PartialEq, Eq)]
pub enum ActivationTarget {
    /// This much elapsed time.
    Duration(Duration),
    /// This point in wall-clock time.
    Date(UtcTime),
}

impl ActivationTarget {
    /// A target for the next cycle of `schedule`. For a random interval it is drawn afresh on each
    /// call, from `min` up to but not at `max`.
    pub fn from(schedule: ActivitySchedule) -> (target: ActivationTarget)
        requires
            schedule.is_valid(),
        ensures
            schedule.admits(target),
    {
        match schedule {
            ActivitySchedule::FixedInterval { duration } => ActivationTarget::Duration(duration),
            ActivitySchedule::RandomInterval { min, max } => ActivationTarget::Duration(
                random_duration(&min, &max),
            ),
            ActivitySchedule::Scheduled { date } => ActivationTarget::Date(date),
        }
    }
}

} // verus!
