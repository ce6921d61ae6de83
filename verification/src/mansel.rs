//! Readiness of a background task's output.
use vstd::prelude::*;

verus! {

/// The state of a background task: its output, or not finished yet.
pub enum Poll<T> {
    Ready(T),
    Pending,
}

impl<T> Poll<T> {
    /// True when the task has not produced its output yet.
    pub fn is_pending(&self) -> (res: bool)
        ensures
            res <==> self is Pending,
    {
        match self {
            Poll::Pending => true,
            Poll::Ready(_) => false,
        }
    }

    /// The output of a finished task. Asking a pending task for its output
    /// is a caller error, ruled out by the precondition.
    pub fn take_ready(self) -> (res: T)
        requires
            self is Ready,
        ensures
            self == Poll::Ready(res),
    {
        match self {
            Poll::Ready(a) => a,
            Poll::Pending => vstd::pervasive::unreached(),
        }
    }
}

} // verus!
