//! What can go wrong when an activity is registered.

use crate::activity_spec::ActivitySpecError;
use crate::schedule::SchedulerError;
use vstd::prelude::*;

verus! {

/// Why an activity was not registered.
#[derive(Debug, Clone, Copy, PartialEq, Eq)]
#[non_exhaustive]
pub enum RitualistError {
    /// Its schedule cannot be followed.
    ActivitySpecError(ActivitySpecError),
    /// The scheduler refused it.
    ScheulerError(SchedulerError),
}

impl RitualistError {
    /// The error in words.
    pub fn message(&self) -> (text: &'static str)
        ensures
            text@ == match *self {
                RitualistError::ActivitySpecError(_) => {
                    "An error with the validation of the ActivitySpec."@
                },
                RitualistError::ScheulerError(_) => "An error happend in the scheulder."@,
            },
    {
        match self {
            RitualistError::ActivitySpecError(_) => {
                "An error with the validation of the ActivitySpec."
            },
            RitualistError::ScheulerError(_) => "An error happend in the scheulder.",
        }
    }
}

} // verus!
