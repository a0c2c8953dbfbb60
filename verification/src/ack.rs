//! What a consumer reports back after a run.

use crate::time::Duration;
use vstd::prelude::*;

verus! {

/// The acknowledgement of a run.
#[derive(Debug, Clone, Copy, PartialEq, Eq)]
pub enum AckMessage {
    /// The run succeeded: reschedule the activity, or complete it where it runs only once.
    Done,
    /// Run again after this long instead of on the normal schedule.
    Snooze(Duration),
}

} // verus!
