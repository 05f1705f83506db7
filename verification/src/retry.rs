//! What to do after a failed model call.
use vstd::prelude::*;

verus! {

/// Decision of a plugin after an API or network error.
pub enum RetryAction {
    /// Retry the operation after the given delay.
    RetryAfter(std::time::Duration),
    /// Do not retry, bubble up the error.
    GiveUp,
}

impl RetryAction {
    /// Whether this answer decides the outcome (a retry); giving up defers
    /// to the next plugin.
    pub fn is_retry(&self) -> (r: bool)
        ensures
            r == (*self is RetryAfter),
    {
        match self {
            RetryAction::RetryAfter(_) => true,
            RetryAction::GiveUp => false,
        }
    }
}

} // verus!
