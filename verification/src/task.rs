//! The pollable-task capability: the single `poll` operation every
//! suspendable computation exposes, together with its mathematical model.

use vstd::prelude::*;
use crate::poll::Poll;
use crate::sleep::Sleep;

verus! {

/// A suspendable computation.
///
/// The three spec functions are the computation's mathematical model, and
/// `poll` is held to it: a poll performed at time `now` completes exactly
/// when `ready_at(now)` holds, in which case it produces `value_at(now)`;
/// otherwise it reports pending and the state advances to `step(now)`.
///
/// A completed computation is destroyed by its owner immediately after the
/// poll that reported completion, so nothing is stated about the state left
/// behind by a completing poll.
pub trait Pollable: Sized {
    type Output;

    /// Whether a poll performed at time `now` reports completion.
    spec fn ready_at(&self, now: u64) -> bool;

    /// The output produced by a completing poll at time `now`.
    spec fn value_at(&self, now: u64) -> Self::Output;

    /// The state after a poll at time `now` that reported pending.
    spec fn step(&self, now: u64) -> Self;

    /// Advance the computation once at time `now`.
    fn poll(&mut self, now: u64) -> (r: Poll<Self::Output>)
        ensures
            old(self).ready_at(now) ==> r == Poll::Ready(old(self).value_at(now)),
            !old(self).ready_at(now) ==> r is Pending && *final(self) == old(self).step(now),
    ;
}

/// A computation that reports pending for exactly `remaining - 1` polls and
/// completes on poll number `remaining`, producing `value`; independent of
/// the clock.
pub struct CountDown {
    pub remaining: u64,
    pub value: u64,
}

impl CountDown {
    /// A task that completes on exactly its `polls`-th poll with `value`.
    pub fn new(polls: u64, value: u64) -> (t: CountDown)
        requires
            polls >= 1,
        ensures
            t.remaining == polls,
            t.value == value,
    {
        CountDown { remaining: polls, value }
    }
}

impl Pollable for CountDown {
    type Output = u64;

    open spec fn ready_at(&self, now: u64) -> bool {
        self.remaining <= 1
    }

    open spec fn value_at(&self, now: u64) -> u64 {
        self.value
    }

    open spec fn step(&self, now: u64) -> CountDown {
        CountDown { remaining: (self.remaining - 1) as u64, value: self.value }
    }

    fn poll(&mut self, now: u64) -> (r: Poll<u64>) {
        if self.remaining <= 1 {
            Poll::Ready(self.value)
        } else {
            self.remaining = self.remaining - 1;
            Poll::Pending
        }
    }
}

/// A computation that sleeps until its suspension's deadline and then
/// produces `value`: the shape "sleep for a while, then yield a result".
pub struct Delayed {
    pub sleep: Sleep,
    pub value: u64,
}

impl Delayed {
    /// A task that is pending strictly before the deadline of `sleep` and
    /// produces `value` at or after it.
    pub fn new(sleep: Sleep, value: u64) -> (t: Delayed)
        ensures
            t.sleep == sleep,
            t.value == value,
    {
        Delayed { sleep, value }
    }
}

impl Pollable for Delayed {
    type Output = u64;

    open spec fn ready_at(&self, now: u64) -> bool {
        self.sleep.ready_at(now)
    }

    open spec fn value_at(&self, now: u64) -> u64 {
        self.value
    }

    open spec fn step(&self, now: u64) -> Delayed {
        Delayed { sleep: self.sleep.step(now), value: self.value }
    }

    fn poll(&mut self, now: u64) -> (r: Poll<u64>) {
        match self.sleep.poll(now) {
            Poll::Ready(_) => Poll::Ready(self.value),
            Poll::Pending => Poll::Pending,
        }
    }
}

/// A computation that never reports ready: a root that can only end in the
/// fatal never-completed condition.
pub struct Never {
}

impl Never {
    /// A computation that is pending on every poll.
    pub fn new() -> (t: Never) {
        Never {  }
    }
}

impl Pollable for Never {
    type Output = u64;

    open spec fn ready_at(&self, now: u64) -> bool {
        false
    }

    open spec fn value_at(&self, now: u64) -> u64 {
        0
    }

    open spec fn step(&self, now: u64) -> Never {
        Never {  }
    }

    fn poll(&mut self, now: u64) -> (r: Poll<u64>) {
        Poll::Pending
    }
}

/// One member of a join-all combinator: still running, or already finished
/// with its output remembered until every member has finished.
pub enum JoinArm<P: Pollable> {
    Running(P),
    Finished(P::Output),
}

impl<P: Pollable> JoinArm<P> {
    /// Whether a poll of the combinator at `now` leaves this member finished.
    pub open spec fn done_at(&self, now: u64) -> bool {
        match self {
            JoinArm::Running(p) => p.ready_at(now),
            JoinArm::Finished(_) => true,
        }
    }

    /// The member's output, once it is done.
    pub open spec fn output_at(&self, now: u64) -> P::Output {
        match self {
            JoinArm::Running(p) => p.value_at(now),
            JoinArm::Finished(v) => *v,
        }
    }

    /// The member's state after a poll of the combinator at `now`.
    pub open spec fn step_at(&self, now: u64) -> JoinArm<P> {
        match self {
            JoinArm::Running(p) => if p.ready_at(now) {
                JoinArm::Finished(p.value_at(now))
            } else {
                JoinArm::Running(p.step(now))
            },
            JoinArm::Finished(v) => JoinArm::Finished(*v),
        }
    }
}

/// The join-all combinator over two suspendable computations: each poll
/// advances every still-running member once, and the combinator completes
/// only when every member has completed, yielding their outputs as a pair in
/// declaration order.  There is no partial-failure short-circuit: members
/// cannot fail, only stay pending.
pub struct Join2<A: Pollable, B: Pollable> {
    pub a: JoinArm<A>,
    pub b: JoinArm<B>,
}

/// The join-all combinator over the computations `a` and `b`.
pub fn join2<A: Pollable, B: Pollable>(a: A, b: B) -> (j: Join2<A, B>)
    ensures
        j.a == JoinArm::Running(a),
        j.b == JoinArm::Running(b),
{
    Join2 { a: JoinArm::Running(a), b: JoinArm::Running(b) }
}

impl<A: Pollable, B: Pollable> Pollable for Join2<A, B> where
    A::Output: Copy,
    B::Output: Copy,
 {
    type Output = (A::Output, B::Output);

    open spec fn ready_at(&self, now: u64) -> bool {
        self.a.done_at(now) && self.b.done_at(now)
    }

    open spec fn value_at(&self, now: u64) -> (A::Output, B::Output) {
        (self.a.output_at(now), self.b.output_at(now))
    }

    open spec fn step(&self, now: u64) -> Join2<A, B> {
        Join2 { a: self.a.step_at(now), b: self.b.step_at(now) }
    }

    fn poll(&mut self, now: u64) -> (r: Poll<(A::Output, B::Output)>) {
        let va = match &mut self.a {
            JoinArm::Running(p) => {
                match p.poll(now) {
                    Poll::Ready(v) => Some(v),
                    Poll::Pending => None,
                }
            },
            JoinArm::Finished(v) => Some(*v),
        };
        if let Some(v) = va {
            self.a = JoinArm::Finished(v);
        }
        let vb = match &mut self.b {
            JoinArm::Running(p) => {
                match p.poll(now) {
                    Poll::Ready(v) => Some(v),
                    Poll::Pending => None,
                }
            },
            JoinArm::Finished(v) => Some(*v),
        };
        if let Some(v) = vb {
            self.b = JoinArm::Finished(v);
        }
        match (&self.a, &self.b) {
            (JoinArm::Finished(x), JoinArm::Finished(y)) => Poll::Ready((*x, *y)),
            _ => Poll::Pending,
        }
    }
}

} // verus!
