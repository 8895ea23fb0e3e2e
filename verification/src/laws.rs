//! The scheduler's general laws, stated and proved against the models that
//! the executable functions' contracts use.

use vstd::prelude::*;
use crate::poll::{Poll, JoinError, RunError};
use crate::runtime::{
    block_state, pass_queue, pass_slots, run_state, take_result, Entry, Slot,
    lemma_pass_slots_at, lemma_pass_slots_len,
};
use crate::sleep::{sat_add, Sleep};
use crate::task::{CountDown, Join2, JoinArm, Pollable};

verus! {

/// Sleep correctness: a suspension whose deadline was computed at `start`
/// for duration `d` reports pending for every poll strictly before the
/// deadline and ready for every poll at or after it; when the deadline
/// computation overflows it saturates, so the suspension is ready only at
/// the greatest representable time, never instantly.
pub proof fn lemma_sleep_correctness(s: Sleep, start: u64, d: u64, t: u64)
    requires
        s.deadline == sat_add(start, d),
    ensures
        s.ready_at(t) <==> t >= sat_add(start, d),
        start + d <= u64::MAX ==> (s.ready_at(t) <==> t >= start + d),
        start + d > u64::MAX ==> (s.ready_at(t) <==> t == u64::MAX),
{
}

/// Join-all completeness: the combinator over two computations completes
/// exactly when every member has completed — never before — and it yields
/// both outputs as a pair in declaration order.
pub proof fn lemma_join_all_completeness<A: Pollable, B: Pollable>(j: Join2<A, B>, now: u64) where
    A::Output: Copy,
    B::Output: Copy,

    ensures
        j.ready_at(now) <==> (j.a.done_at(now) && j.b.done_at(now)),
        j.value_at(now) == (j.a.output_at(now), j.b.output_at(now)),
        forall|a: A, b: B|
            #[trigger] (Join2 { a: JoinArm::Running(a), b: JoinArm::Running(b) }).ready_at(now)
                <==> a.ready_at(now) && b.ready_at(now),
{
}

/// Starvation is fatal: a root that is pending while the ready queue is
/// empty can never complete, and the driving loop decides exactly that —
/// it returns the never-completed failure rather than blocking silently,
/// whatever pass budget it was given.
pub proof fn lemma_starvation_detected<R: Pollable, T: Pollable>(
    root: R,
    slots: Seq<Slot<T::Output>>,
    now: u64,
    tick: u64,
    fuel: u64,
)
    requires
        !root.ready_at(now),
    ensures
        block_state(root, Seq::<Entry<T>>::empty(), slots, now, tick, fuel).0 == Err::<
            R::Output,
            RunError,
        >(RunError::NeverCompleted),
{
}

/// Single delivery: during a drain pass at time `now`, the result slot of a
/// task that completes is written with exactly that task's output; the first
/// poll of its handle then consumes that exact value, and every later poll
/// reports the double-consumption error.  While the task is still pending
/// its slot stays unwritten and the handle reports pending.
pub proof fn lemma_single_delivery<T: Pollable>(
    q: Seq<Entry<T>>,
    now: u64,
    slots: Seq<Slot<T::Output>>,
    j: int,
)
    requires
        0 <= j < q.len(),
        forall|a: int| 0 <= a < q.len() ==> (#[trigger] q[a]).slot < slots.len(),
        forall|a: int, b: int| 0 <= a < b < q.len() ==> q[a].slot != q[b].slot,
        forall|a: int| 0 <= a < q.len() ==> slots[(#[trigger] q[a]).slot as int] is Empty,
    ensures
        !q[j].task.ready_at(now) ==> take_result(
            pass_slots(q, now, slots),
            q[j].slot as int,
        ).0 == Ok::<Poll<T::Output>, JoinError>(Poll::Pending),
        q[j].task.ready_at(now) ==> take_result(pass_slots(q, now, slots), q[j].slot as int).0
            == Ok::<Poll<T::Output>, JoinError>(Poll::Ready(q[j].task.value_at(now))),
        q[j].task.ready_at(now) ==> take_result(
            take_result(pass_slots(q, now, slots), q[j].slot as int).1,
            q[j].slot as int,
        ).0 == Err::<Poll<T::Output>, JoinError>(JoinError::AlreadyConsumed),
{
    lemma_pass_slots_len(q, now, slots);
    lemma_pass_slots_at(q, now, slots, j);
}

/// No entry completing means no slot written: a drain pass over a queue in
/// which every task stays pending leaves the result slots untouched.
pub proof fn lemma_pass_all_pending_slots<T: Pollable>(
    q: Seq<Entry<T>>,
    now: u64,
    slots: Seq<Slot<T::Output>>,
)
    requires
        forall|i: int| 0 <= i < q.len() ==> !(#[trigger] q[i]).task.ready_at(now),
    ensures
        pass_slots(q, now, slots) == slots,
    decreases q.len(),
{
    if q.len() > 0 {
        let q1 = q.drop_last();
        assert forall|i: int| 0 <= i < q1.len() implies !(#[trigger] q1[i]).task.ready_at(now) by {
            assert(q1[i] == q[i]);
        }
        lemma_pass_all_pending_slots(q1, now, slots);
    }
}

/// One drain pass over a queue of countdown tasks that all still need at
/// least two polls: every entry survives, in its original position, one poll
/// closer to completion, and no result slot is written.
pub proof fn lemma_pass_countdown_pending(
    q: Seq<Entry<CountDown>>,
    now: u64,
    slots: Seq<Slot<u64>>,
)
    requires
        forall|i: int| 0 <= i < q.len() ==> (#[trigger] q[i]).task.remaining >= 2,
    ensures
        pass_queue(q, now).len() == q.len(),
        forall|i: int|
            0 <= i < q.len() ==> #[trigger] pass_queue(q, now)[i] == (Entry {
                task: CountDown { remaining: (q[i].task.remaining - 1) as u64, value: q[i].task.value },
                slot: q[i].slot,
            }),
        pass_slots(q, now, slots) == slots,
    decreases q.len(),
{
    assert forall|i: int| 0 <= i < q.len() implies !(#[trigger] q[i]).task.ready_at(now) by {}
    lemma_pass_all_pending_slots(q, now, slots);
    if q.len() > 0 {
        let q1 = q.drop_last();
        assert forall|i: int| 0 <= i < q1.len() implies (#[trigger] q1[i]).task.remaining >= 2 by {
            assert(q1[i] == q[i]);
        }
        lemma_pass_countdown_pending(q1, now, slots);
    }
}

/// One drain pass over a queue of countdown tasks that all complete on their
/// next poll: the queue drains completely and every task's slot is written
/// with exactly that task's value.
pub proof fn lemma_pass_countdown_ready(q: Seq<Entry<CountDown>>, now: u64, slots: Seq<Slot<u64>>)
    requires
        forall|i: int| 0 <= i < q.len() ==> (#[trigger] q[i]).task.remaining <= 1,
        forall|a: int| 0 <= a < q.len() ==> (#[trigger] q[a]).slot < slots.len(),
        forall|a: int, b: int| 0 <= a < b < q.len() ==> q[a].slot != q[b].slot,
    ensures
        pass_queue(q, now).len() == 0,
        pass_slots(q, now, slots).len() == slots.len(),
        forall|i: int|
            0 <= i < q.len() ==> pass_slots(q, now, slots)[(#[trigger] q[i]).slot as int]
                == Slot::Filled(q[i].task.value),
    decreases q.len(),
{
    lemma_pass_slots_len(q, now, slots);
    if q.len() > 0 {
        let q1 = q.drop_last();
        assert forall|i: int|
            0 <= i < q1.len() implies (#[trigger] q1[i]).task.remaining <= 1 && q1[i].slot
            < slots.len() by {
            assert(q1[i] == q[i]);
        }
        lemma_pass_countdown_ready(q1, now, slots);
    }
    assert forall|i: int|
        0 <= i < q.len() implies pass_slots(q, now, slots)[(#[trigger] q[i]).slot as int]
        == Slot::Filled(q[i].task.value) by {
        lemma_pass_slots_at(q, now, slots, i);
    }
}

/// FIFO fairness: over a queue of tasks spawned in order, each completing
/// after exactly `k` polls, every drain pass before the `k`-th polls the
/// whole queue once in spawn order and keeps every task, in spawn order, one
/// poll closer to completion; the `k`-th pass completes them all, writing
/// each task's own value to its own slot; and later passes change nothing.
pub proof fn lemma_fifo_fairness(
    q: Seq<Entry<CountDown>>,
    slots: Seq<Slot<u64>>,
    now: u64,
    tick: u64,
    k: u64,
    m: u64,
)
    requires
        k >= 1,
        forall|i: int| 0 <= i < q.len() ==> (#[trigger] q[i]).task.remaining == k,
        forall|a: int| 0 <= a < q.len() ==> (#[trigger] q[a]).slot < slots.len(),
        forall|a: int, b: int| 0 <= a < b < q.len() ==> q[a].slot != q[b].slot,
        forall|a: int| 0 <= a < q.len() ==> slots[(#[trigger] q[a]).slot as int] is Empty,
    ensures
        m < k ==> run_state(q, slots, now, tick, m).0.len() == q.len(),
        m < k ==> forall|i: int|
            0 <= i < q.len() ==> #[trigger] run_state(q, slots, now, tick, m).0[i] == (Entry {
                task: CountDown { remaining: (k - m) as u64, value: q[i].task.value },
                slot: q[i].slot,
            }),
        m < k ==> run_state(q, slots, now, tick, m).1 == slots,
        m >= k ==> run_state(q, slots, now, tick, m).0.len() == 0,
        m >= k ==> forall|i: int|
            0 <= i < q.len() ==> run_state(q, slots, now, tick, m).1[(#[trigger] q[i]).slot
                as int] == Slot::Filled(q[i].task.value),
    decreases m,
{
    if q.len() == 0 {
    } else if m == 0 {
    } else {
        let n1 = sat_add(now, tick);
        if k == 1 {
            lemma_pass_countdown_ready(q, n1, slots);
            let q1 = pass_queue(q, n1);
            let s1 = pass_slots(q, n1, slots);
            assert(run_state(q, slots, now, tick, m) == run_state(
                q1,
                s1,
                n1,
                tick,
                (m - 1) as u64,
            ));
            assert(run_state(q1, s1, n1, tick, (m - 1) as u64) == (q1, s1, n1));
        } else {
            lemma_pass_countdown_pending(q, n1, slots);
            let q1 = pass_queue(q, n1);
            assert forall|i: int|
                0 <= i < q1.len() implies (#[trigger] q1[i]).task.remaining == (k - 1) as u64
                && q1[i].slot < slots.len() && q1[i].task.value == q[i].task.value && q1[i].slot
                == q[i].slot by {}
            assert forall|a: int, b: int| 0 <= a < b < q1.len() implies q1[a].slot
                != q1[b].slot by {}
            assert forall|a: int|
                0 <= a < q1.len() implies slots[(#[trigger] q1[a]).slot as int] is Empty by {}
            lemma_fifo_fairness(q1, slots, n1, tick, (k - 1) as u64, (m - 1) as u64);
            assert(run_state(q, slots, now, tick, m) == run_state(
                q1,
                slots,
                n1,
                tick,
                (m - 1) as u64,
            ));
            if m >= k {
                assert forall|i: int|
                    0 <= i < q.len() implies run_state(q, slots, now, tick, m).1[(
                #[trigger] q[i]).slot as int] == Slot::Filled(q[i].task.value) by {
                    assert(q1[i].slot == q[i].slot && q1[i].task.value == q[i].task.value);
                }
            }
        }
    }
}

} // verus!
