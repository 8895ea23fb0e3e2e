//! The resumption token.
//!
//! This scheduler's driving loops re-poll every pending task on every drain
//! pass (a busy-poll design), so progress never depends on `wake` being
//! called: the token's `wake` is a deliberate no-op.  The runtime still
//! keeps the single optional registered-waker slot that the wake-driven
//! strategy would use: `Runtime::register_waker` fills it and `spawn` takes
//! and invokes the registered token when new work arrives.

use vstd::prelude::*;

verus! {

/// An opaque, clonable resumption token.
#[derive(Clone, Copy, PartialEq, Eq, Structural)]
pub struct Waker {
    /// Identity of the registration this token came from; carried only so
    /// that distinct registrations are distinguishable values.
    pub id: u64,
}

impl Waker {
    /// Make a token.
    pub fn new(id: u64) -> (w: Waker)
        ensures
            w.id == id,
    {
        Waker { id }
    }

    /// Signal "reconsider me".  Under the busy-poll driving loops every
    /// pending task is reconsidered on every pass unconditionally, so this
    /// is a deliberate no-op; correctness never depends on it being called.
    pub fn wake(&self) {
    }
}

} // verus!
