//! The suspension primitive: a value that is pending until a deadline on the
//! scheduler's clock has passed.

use vstd::prelude::*;
use crate::poll::Poll;
use crate::task::Pollable;

verus! {

/// Saturating addition on clock values.  Deadline arithmetic saturates
/// rather than wraps: a duration too large to represent yields the greatest
/// representable time, so the sleep is "effectively never" ready instead of
/// instantly ready.
pub open spec fn sat_add(a: u64, b: u64) -> u64 {
    if a + b > u64::MAX {
        u64::MAX
    } else {
        (a + b) as u64
    }
}

/// A suspension that is pending strictly before its deadline and ready at or
/// after it.  Immutable once constructed; polling has no side effect.
pub struct Sleep {
    pub deadline: u64,
}

/// Construct a suspension that becomes ready once `duration` clock units
/// have elapsed from `now`, the time of construction.  The deadline
/// saturates on overflow (it never wraps to "already ready").
pub fn sleep(now: u64, duration: u64) -> (s: Sleep)
    ensures
        s.deadline == sat_add(now, duration),
        forall|t: u64| s.ready_at(t) <==> t >= sat_add(now, duration),
{
    Sleep { deadline: now.saturating_add(duration) }
}

impl Pollable for Sleep {
    type Output = ();

    open spec fn ready_at(&self, now: u64) -> bool {
        now >= self.deadline
    }

    open spec fn value_at(&self, now: u64) -> () {
        ()
    }

    open spec fn step(&self, now: u64) -> Sleep {
        Sleep { deadline: self.deadline }
    }

    fn poll(&mut self, now: u64) -> (r: Poll<()>) {
        if now >= self.deadline {
            Poll::Ready(())
        } else {
            Poll::Pending
        }
    }
}

} // verus!
