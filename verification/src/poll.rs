//! The outcome of polling a suspendable computation, and the scheduler's
//! error taxonomy.

use vstd::prelude::*;

verus! {

/// Outcome of one poll of a suspendable computation: either the computation
/// finished and produced its output, or it asks to be polled again later.
pub enum Poll<T> {
    Ready(T),
    Pending,
}

/// Why a driving entry point gave up on a root computation.
pub enum RunError {
    /// The root was still pending while the ready queue was empty: no task
    /// could ever make further progress, so the root can never complete.
    NeverCompleted,
    /// The injected budget of drain passes was exhausted while work was
    /// still pending.  The busy-polling loop would otherwise be allowed to
    /// spin; the budget makes that spin observable and bounded.
    PassBudgetExhausted,
}

/// Violation of the one-shot result-channel protocol.
pub enum JoinError {
    /// The handle's value was already taken by an earlier poll: a join
    /// handle is not re-awaitable after it has produced its value.
    AlreadyConsumed,
}

impl<T> Poll<T> {
    /// True exactly when the poll reported completion.
    pub fn is_ready(&self) -> (r: bool)
        ensures
            r <==> self is Ready,
    {
        match self {
            Poll::Ready(_) => true,
            Poll::Pending => false,
        }
    }

    /// True exactly when the poll asked to be tried again.
    pub fn is_pending(&self) -> (r: bool)
        ensures
            r <==> self is Pending,
    {
        match self {
            Poll::Ready(_) => false,
            Poll::Pending => true,
        }
    }
}

} // verus!
