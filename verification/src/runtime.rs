//! The executor: a FIFO ready queue of spawned tasks, a one-shot result
//! slot per task, a simulated clock, and the driving loops.

use vstd::prelude::*;
use std::collections::VecDeque;
use crate::poll::{Poll, RunError, JoinError};
use crate::sleep::{sat_add, sleep, Sleep};
use crate::task::Pollable;
use crate::waker::Waker;

verus! {

/// A one-shot result channel: written exactly once when the owning task
/// completes, read exactly once by the task's join handle.
pub enum Slot<V> {
    /// Nothing written yet: the task is still queued.
    Empty,
    /// The task completed with this output; not yet consumed.
    Filled(V),
    /// The output was consumed; any further read is an error.
    Taken,
}

impl<V> Slot<V> {
    /// The value held by a filled slot.
    pub open spec fn value(self) -> V
        recommends
            self is Filled,
    {
        match self {
            Slot::Filled(v) => v,
            _ => arbitrary(),
        }
    }
}

/// A queued task together with the index of its result slot.
pub struct Entry<T> {
    pub task: T,
    pub slot: usize,
}

/// The value a join handle resolves to once its task's output is available.
/// Obtained from `spawn`; consumed through `Runtime::poll_join`.
pub struct JoinHandle {
    pub slot: usize,
}

/// The executor.  Owns the ready queue (FIFO: pushed at the back, polled
/// from the front), one result slot per task ever spawned, the single
/// optional registered resumption token, and the simulated clock, which
/// advances by `tick` at the start of every drain pass.
pub struct Runtime<T: Pollable> {
    pub queue: VecDeque<Entry<T>>,
    pub slots: Vec<Slot<T::Output>>,
    pub waker: Option<Waker>,
    pub now: u64,
    pub tick: u64,
}

impl<T: Pollable> Runtime<T> {
    /// Well-formedness: every queued task owns a distinct result slot, the
    /// slot exists, and it is still unwritten.  Constructors establish this
    /// and every method preserves it.
    pub open spec fn wf(&self) -> bool {
        &&& forall|i: int|
            0 <= i < self.queue@.len() ==> (#[trigger] self.queue@[i]).slot < self.slots@.len()
        &&& forall|i: int, j: int|
            0 <= i < j < self.queue@.len() ==> self.queue@[i].slot != self.queue@[j].slot
        &&& forall|i: int|
            0 <= i < self.queue@.len()
                ==> self.slots@[(#[trigger] self.queue@[i]).slot as int] is Empty
    }

    /// A fresh executor: empty queue, no slots, no registered waker, the
    /// clock at zero advancing one unit per drain pass.
    pub fn new() -> (rt: Self)
        ensures
            rt.wf(),
            rt.queue@ =~= Seq::<Entry<T>>::empty(),
            rt.slots@ =~= Seq::<Slot<T::Output>>::empty(),
            rt.waker is None,
            rt.now == 0,
            rt.tick == 1,
    {
        Runtime {
            queue: VecDeque::new(),
            slots: Vec::new(),
            waker: None,
            now: 0,
            tick: 1,
        }
    }

    /// Current value of the simulated clock.
    pub fn now(&self) -> (t: u64)
        ensures
            t == self.now,
    {
        self.now
    }

    /// How far the clock advances at the start of each drain pass.
    pub fn set_tick(&mut self, tick: u64)
        ensures
            *final(self) == (Runtime { tick, ..*old(self) }),
    {
        self.tick = tick;
    }

    /// Register the single external resumption token; `spawn` takes and
    /// invokes it when new work arrives.
    pub fn register_waker(&mut self, w: Waker)
        ensures
            *final(self) == (Runtime { waker: Some(w), ..*old(self) }),
    {
        self.waker = Some(w);
    }

    /// Whether a resumption token is currently registered.
    pub fn waker_registered(&self) -> (r: bool)
        ensures
            r <==> self.waker is Some,
    {
        match &self.waker {
            Some(_) => true,
            None => false,
        }
    }

    /// Enqueue a task at the back of the ready queue, paired with a fresh,
    /// unwritten result slot; the returned handle resolves to the task's
    /// output.  Returns immediately.  If a resumption token was registered,
    /// it is taken and invoked.
    pub fn spawn(&mut self, task: T) -> (h: JoinHandle)
        requires
            old(self).wf(),
        ensures
            final(self).wf(),
            h.slot == old(self).slots@.len(),
            final(self).slots@ == old(self).slots@.push(Slot::Empty),
            final(self).queue@ == old(self).queue@.push(Entry { task, slot: h.slot }),
            final(self).waker is None,
            final(self).now == old(self).now,
            final(self).tick == old(self).tick,
    {
        let slot = self.slots.len();
        self.slots.push(Slot::Empty);
        self.queue.push_back(Entry { task, slot });
        if let Some(w) = self.waker.take() {
            w.wake();
        }
        JoinHandle { slot }
    }

    /// Poll a join handle's one-shot result channel: pending while the task
    /// is still queued, ready with the task's exact output on the first poll
    /// after completion, and the double-consumption error on every poll
    /// after that.
    pub fn poll_join(&mut self, h: &JoinHandle) -> (r: Result<Poll<T::Output>, JoinError>)
        requires
            h.slot < old(self).slots@.len(),
        ensures
            (r, final(self).slots@) == take_result(old(self).slots@, h.slot as int),
            final(self).queue@ == old(self).queue@,
            final(self).waker == old(self).waker,
            final(self).now == old(self).now,
            final(self).tick == old(self).tick,
            old(self).wf() ==> final(self).wf(),
    {
        let filled = match &self.slots[h.slot] {
            Slot::Empty => {
                return Ok(Poll::Pending);
            },
            Slot::Filled(_) => true,
            Slot::Taken => false,
        };
        if !filled {
            return Err(JoinError::AlreadyConsumed);
        }
        let mut taken = Slot::Taken;
        let cell = &mut self.slots[h.slot];
        core::mem::swap(cell, &mut taken);
        match taken {
            Slot::Filled(v) => Ok(Poll::Ready(v)),
            _ => {
                proof {
                    assert(false);
                }
                Err(JoinError::AlreadyConsumed)
            },
        }
    }
}

/// The ready queue left by one drain pass at time `now` over the queue `q`:
/// each entry is polled exactly once, in queue (FIFO) order; completed
/// entries are discarded and still-pending ones are re-enqueued at the back,
/// so the survivors keep their relative order and none is polled twice in
/// the same pass.
pub open spec fn pass_queue<T: Pollable>(q: Seq<Entry<T>>, now: u64) -> Seq<Entry<T>>
    decreases q.len(),
{
    if q.len() == 0 {
        Seq::empty()
    } else {
        let prior = pass_queue(q.drop_last(), now);
        let e = q.last();
        if e.task.ready_at(now) {
            prior
        } else {
            prior.push(Entry { task: e.task.step(now), slot: e.slot })
        }
    }
}

/// The result slots left by one drain pass at time `now`: the slot of every
/// entry that completed is written (exactly once) with that task's output;
/// every other slot is untouched.
pub open spec fn pass_slots<T: Pollable>(
    q: Seq<Entry<T>>,
    now: u64,
    slots: Seq<Slot<T::Output>>,
) -> Seq<Slot<T::Output>>
    decreases q.len(),
{
    if q.len() == 0 {
        slots
    } else {
        let prior = pass_slots(q.drop_last(), now, slots);
        let e = q.last();
        if e.task.ready_at(now) {
            prior.update(e.slot as int, Slot::Filled(e.task.value_at(now)))
        } else {
            prior
        }
    }
}

/// A drain pass never changes how many slots there are.
pub proof fn lemma_pass_slots_len<T: Pollable>(
    q: Seq<Entry<T>>,
    now: u64,
    slots: Seq<Slot<T::Output>>,
)
    requires
        forall|i: int| 0 <= i < q.len() ==> (#[trigger] q[i]).slot < slots.len(),
    ensures
        pass_slots(q, now, slots).len() == slots.len(),
    decreases q.len(),
{
    if q.len() > 0 {
        lemma_pass_slots_len(q.drop_last(), now, slots);
    }
}

/// Every survivor of a drain pass is some pending entry of the old queue,
/// advanced one step, under its own slot.
pub proof fn lemma_pass_queue_sources<T: Pollable>(q: Seq<Entry<T>>, now: u64)
    ensures
        forall|k: int|
            0 <= k < pass_queue(q, now).len() ==> exists|j: int|
                0 <= j < q.len() && !q[j].task.ready_at(now) && (#[trigger] pass_queue(q, now)[k])
                    == (Entry { task: q[j].task.step(now), slot: q[j].slot }),
    decreases q.len(),
{
    if q.len() > 0 {
        lemma_pass_queue_sources(q.drop_last(), now);
        let pq = pass_queue(q, now);
        let prior = pass_queue(q.drop_last(), now);
        assert forall|k: int| 0 <= k < pq.len() implies exists|j: int|
            0 <= j < q.len() && !q[j].task.ready_at(now) && (#[trigger] pq[k]) == (Entry {
                task: q[j].task.step(now),
                slot: q[j].slot,
            }) by {
            if k < prior.len() {
                let j = choose|j: int|
                    0 <= j < q.drop_last().len() && !q.drop_last()[j].task.ready_at(now) && prior[k]
                        == (Entry {
                        task: q.drop_last()[j].task.step(now),
                        slot: q.drop_last()[j].slot,
                    });
                assert(q[j] == q.drop_last()[j]);
            } else {
                let j = q.len() - 1;
                assert(pq[k] == (Entry { task: q[j].task.step(now), slot: q[j].slot }));
            }
        }
    }
}

/// A slot owned by no entry of the queue is untouched by a drain pass.
pub proof fn lemma_pass_slots_untouched<T: Pollable>(
    q: Seq<Entry<T>>,
    now: u64,
    slots: Seq<Slot<T::Output>>,
    s: int,
)
    requires
        forall|j: int| 0 <= j < q.len() ==> (#[trigger] q[j]).slot != s,
        0 <= s < slots.len(),
        forall|j: int| 0 <= j < q.len() ==> (#[trigger] q[j]).slot < slots.len(),
    ensures
        pass_slots(q, now, slots)[s] == slots[s],
    decreases q.len(),
{
    if q.len() > 0 {
        let q1 = q.drop_last();
        assert forall|j: int| 0 <= j < q1.len() implies (#[trigger] q1[j]).slot != s && q1[j].slot
            < slots.len() by {
            assert(q1[j] == q[j]);
        }
        lemma_pass_slots_untouched(q1, now, slots, s);
        lemma_pass_slots_len(q1, now, slots);
        assert(q.last().slot != s);
    }
}

/// Single delivery at the level of one pass: the slot of an entry that
/// completes is written with exactly that task's output, and the slot of an
/// entry that stays pending is untouched.
pub proof fn lemma_pass_slots_at<T: Pollable>(
    q: Seq<Entry<T>>,
    now: u64,
    slots: Seq<Slot<T::Output>>,
    j: int,
)
    requires
        0 <= j < q.len(),
        forall|a: int, b: int| 0 <= a < b < q.len() ==> q[a].slot != q[b].slot,
        forall|a: int| 0 <= a < q.len() ==> (#[trigger] q[a]).slot < slots.len(),
    ensures
        q[j].task.ready_at(now) ==> pass_slots(q, now, slots)[q[j].slot as int] == Slot::Filled(
            q[j].task.value_at(now),
        ),
        !q[j].task.ready_at(now) ==> pass_slots(q, now, slots)[q[j].slot as int] == slots[q[j].slot
            as int],
    decreases q.len(),
{
    lemma_pass_slots_len(q.drop_last(), now, slots);
    if j == q.len() - 1 {
        if !q[j].task.ready_at(now) {
            assert forall|a: int| 0 <= a < q.drop_last().len() implies (#[trigger] q.drop_last()[a]).slot != q[j].slot as int by {
                assert(q[a] == q.drop_last()[a]);
            }
            lemma_pass_slots_untouched(q.drop_last(), now, slots, q[j].slot as int);
        }
    } else {
        lemma_pass_slots_at(q.drop_last(), now, slots, j);
        assert(q[j] == q.drop_last()[j]);
        assert(q.last().slot != q[j].slot);
    }
}

/// A drain pass preserves the executor's well-formedness: the survivors'
/// slots still exist, are still pairwise distinct, and are still unwritten.
pub proof fn lemma_pass_preserves_wf<T: Pollable>(
    q: Seq<Entry<T>>,
    now: u64,
    slots: Seq<Slot<T::Output>>,
)
    requires
        forall|a: int| 0 <= a < q.len() ==> (#[trigger] q[a]).slot < slots.len(),
        forall|a: int, b: int| 0 <= a < b < q.len() ==> q[a].slot != q[b].slot,
        forall|a: int| 0 <= a < q.len() ==> slots[(#[trigger] q[a]).slot as int] is Empty,
    ensures
        forall|k: int|
            0 <= k < pass_queue(q, now).len() ==> (#[trigger] pass_queue(q, now)[k]).slot
                < pass_slots(q, now, slots).len(),
        forall|k: int, l: int|
            0 <= k < l < pass_queue(q, now).len() ==> pass_queue(q, now)[k].slot != pass_queue(
                q,
                now,
            )[l].slot,
        forall|k: int|
            0 <= k < pass_queue(q, now).len() ==> pass_slots(q, now, slots)[(#[trigger] pass_queue(
                q,
                now,
            )[k]).slot as int] is Empty,
{
    let pq = pass_queue(q, now);
    let ps = pass_slots(q, now, slots);
    lemma_pass_slots_len(q, now, slots);
    lemma_pass_queue_sources(q, now);
    assert forall|k: int| 0 <= k < pq.len() implies (#[trigger] pq[k]).slot < ps.len() by {
        let j = choose|j: int|
            0 <= j < q.len() && !q[j].task.ready_at(now) && pq[k] == (Entry {
                task: q[j].task.step(now),
                slot: q[j].slot,
            });
    }
    assert forall|k: int, l: int| 0 <= k < l < pq.len() implies pq[k].slot != pq[l].slot by {
        lemma_pass_queue_distinct(q, now);
    }
    assert forall|k: int| 0 <= k < pq.len() implies ps[(#[trigger] pq[k]).slot as int]
        is Empty by {
        let j = choose|j: int|
            0 <= j < q.len() && !q[j].task.ready_at(now) && pq[k] == (Entry {
                task: q[j].task.step(now),
                slot: q[j].slot,
            });
        lemma_pass_slots_at(q, now, slots, j);
    }
}

/// Distinct source slots give distinct survivor slots: a drain pass never
/// duplicates an entry.
pub proof fn lemma_pass_queue_distinct<T: Pollable>(q: Seq<Entry<T>>, now: u64)
    requires
        forall|a: int, b: int| 0 <= a < b < q.len() ==> q[a].slot != q[b].slot,
    ensures
        forall|k: int, l: int|
            0 <= k < l < pass_queue(q, now).len() ==> pass_queue(q, now)[k].slot != pass_queue(
                q,
                now,
            )[l].slot,
    decreases q.len(),
{
    if q.len() > 0 {
        let q1 = q.drop_last();
        assert forall|a: int, b: int| 0 <= a < b < q1.len() implies q1[a].slot != q1[b].slot by {
            assert(q1[a] == q[a] && q1[b] == q[b]);
        }
        lemma_pass_queue_distinct(q1, now);
        lemma_pass_queue_sources(q1, now);
        let pq = pass_queue(q, now);
        let prior = pass_queue(q1, now);
        assert forall|k: int, l: int| 0 <= k < l < pq.len() implies pq[k].slot != pq[l].slot by {
            if l < prior.len() {
            } else {
                let j = choose|j: int|
                    0 <= j < q1.len() && !q1[j].task.ready_at(now) && (#[trigger] prior[k]) == (
                    Entry { task: q1[j].task.step(now), slot: q1[j].slot });
                assert(q[j] == q1[j]);
                assert(pq[l].slot == q.last().slot);
            }
        }
    }
}

impl<T: Pollable> Runtime<T> {
    /// One drain pass: advance the clock by one tick (saturating), then poll
    /// the entire current contents of the ready queue once, front to back.
    /// An entry that completes has its output written to its result slot and
    /// is discarded; an entry still pending is re-enqueued at the back, so it
    /// is not polled again until the next pass.
    pub fn drain_pass(&mut self)
        requires
            old(self).wf(),
        ensures
            final(self).wf(),
            final(self).now == sat_add(old(self).now, old(self).tick),
            final(self).queue@ == pass_queue(old(self).queue@, final(self).now),
            final(self).slots@ == pass_slots(old(self).queue@, final(self).now, old(self).slots@),
            final(self).waker == old(self).waker,
            final(self).tick == old(self).tick,
    {
        self.now = self.now.saturating_add(self.tick);
        let n = self.now;
        let count = self.queue.len();
        let ghost q0 = self.queue@;
        let ghost s0 = self.slots@;
        let mut i: usize = 0;
        while i < count
            invariant
                i <= count,
                count == q0.len(),
                forall|j: int| 0 <= j < q0.len() ==> (#[trigger] q0[j]).slot < s0.len(),
                self.slots@.len() == s0.len(),
                self.now == n,
                self.tick == old(self).tick,
                self.waker == old(self).waker,
                self.queue@ == q0.skip(i as int) + pass_queue(q0.take(i as int), n),
                self.slots@ == pass_slots(q0.take(i as int), n, s0),
            decreases count - i,
        {
            proof {
                assert(q0.skip(i as int).len() > 0);
                assert(self.queue@[0] == q0[i as int]);
            }
            let popped = self.queue.pop_front();
            let mut entry = match popped {
                Some(e) => e,
                None => {
                    proof {
                        assert(false);
                    }
                    return ;
                },
            };
            proof {
                assert(entry == q0[i as int]);
                assert(self.queue@ =~= q0.skip(i as int + 1) + pass_queue(q0.take(i as int), n));
            }
            let r = entry.task.poll(n);
            proof {
                assert(q0.take(i as int + 1).drop_last() =~= q0.take(i as int));
                assert(q0.take(i as int + 1).last() == q0[i as int]);
            }
            match r {
                Poll::Ready(v) => {
                    self.slots.set(entry.slot, Slot::Filled(v));
                },
                Poll::Pending => {
                    self.queue.push_back(entry);
                },
            }
            i = i + 1;
        }
        proof {
            assert(q0.take(count as int) =~= q0);
            assert(q0.skip(count as int) + pass_queue(q0, n) =~= pass_queue(q0, n));
            lemma_pass_preserves_wf(q0, n, s0);
        }
    }
}

/// The executor state (queue, slots, clock) left by up to `fuel` drain
/// passes: passes repeat until the queue is empty or the budget runs out.
pub open spec fn run_state<T: Pollable>(
    q: Seq<Entry<T>>,
    slots: Seq<Slot<T::Output>>,
    now: u64,
    tick: u64,
    fuel: u64,
) -> (Seq<Entry<T>>, Seq<Slot<T::Output>>, u64)
    decreases fuel,
{
    if q.len() == 0 || fuel == 0 {
        (q, slots, now)
    } else {
        let n1 = sat_add(now, tick);
        run_state(pass_queue(q, n1), pass_slots(q, n1, slots), n1, tick, (fuel - 1) as u64)
    }
}

/// What `block_on` decides and leaves behind, given the root computation and
/// the executor state: the root is polled first; while it is pending, an
/// empty ready queue is the fatal never-completed condition, and otherwise
/// one drain pass runs and the loop repeats, bounded by `fuel` passes.
pub open spec fn block_state<R: Pollable, T: Pollable>(
    root: R,
    q: Seq<Entry<T>>,
    slots: Seq<Slot<T::Output>>,
    now: u64,
    tick: u64,
    fuel: u64,
) -> (Result<R::Output, RunError>, Seq<Entry<T>>, Seq<Slot<T::Output>>, u64)
    decreases fuel,
{
    if root.ready_at(now) {
        (Ok(root.value_at(now)), q, slots, now)
    } else if q.len() == 0 {
        (Err(RunError::NeverCompleted), q, slots, now)
    } else if fuel == 0 {
        (Err(RunError::PassBudgetExhausted), q, slots, now)
    } else {
        let n1 = sat_add(now, tick);
        block_state(
            root.step(now),
            pass_queue(q, n1),
            pass_slots(q, n1, slots),
            n1,
            tick,
            (fuel - 1) as u64,
        )
    }
}

impl<T: Pollable> Runtime<T> {
    /// Drive the ready queue to quiescence: repeat drain passes until every
    /// task has completed, or the injected budget of `fuel` passes runs out
    /// (the busy-poll loop would otherwise be allowed to spin forever while
    /// tasks wait on the clock).
    pub fn run(&mut self, fuel: u64) -> (r: Result<(), RunError>)
        requires
            old(self).wf(),
        ensures
            final(self).wf(),
            (final(self).queue@, final(self).slots@, final(self).now) == run_state(
                old(self).queue@,
                old(self).slots@,
                old(self).now,
                old(self).tick,
                fuel,
            ),
            final(self).tick == old(self).tick,
            final(self).waker == old(self).waker,
            r is Ok <==> final(self).queue@.len() == 0,
            r is Err ==> r == Err::<(), RunError>(RunError::PassBudgetExhausted),
    {
        let mut left = fuel;
        while self.queue.len() != 0 && left != 0
            invariant
                self.wf(),
                self.tick == old(self).tick,
                self.waker == old(self).waker,
                run_state(
                    old(self).queue@,
                    old(self).slots@,
                    old(self).now,
                    old(self).tick,
                    fuel,
                ) == run_state(self.queue@, self.slots@, self.now, self.tick, left),
            decreases left,
        {
            self.drain_pass();
            left = left - 1;
        }
        if self.queue.len() == 0 {
            Ok(())
        } else {
            Err(RunError::PassBudgetExhausted)
        }
    }

    /// Drive a root computation to completion, interleaving it with every
    /// queued task: poll the root; while it is pending, fail with the fatal
    /// never-completed condition if the ready queue is empty (no task could
    /// ever unblock the root), otherwise drain the queue once and try again,
    /// for at most `fuel` passes.
    pub fn block_on<R: Pollable>(&mut self, root: R, fuel: u64) -> (r: Result<R::Output, RunError>)
        requires
            old(self).wf(),
        ensures
            final(self).wf(),
            (r, final(self).queue@, final(self).slots@, final(self).now) == block_state(
                root,
                old(self).queue@,
                old(self).slots@,
                old(self).now,
                old(self).tick,
                fuel,
            ),
            final(self).tick == old(self).tick,
    {
        let mut cur = root;
        let mut left = fuel;
        loop
            invariant
                self.wf(),
                self.tick == old(self).tick,
                block_state(cur, self.queue@, self.slots@, self.now, self.tick, left)
                    == block_state(
                    root,
                    old(self).queue@,
                    old(self).slots@,
                    old(self).now,
                    old(self).tick,
                    fuel,
                ),
            decreases left,
        {
            match cur.poll(self.now) {
                Poll::Ready(v) => {
                    return Ok(v);
                },
                Poll::Pending => {
                },
            }
            if self.queue.len() == 0 {
                return Err(RunError::NeverCompleted);
            }
            if left == 0 {
                return Err(RunError::PassBudgetExhausted);
            }
            self.drain_pass();
            left = left - 1;
        }
    }
}

/// What driving two join handles to completion decides and leaves behind:
/// once both result slots are filled, both are consumed and the pair of
/// outputs is returned in handle order; while either is unwritten, an empty
/// ready queue is the fatal never-completed condition, and otherwise one
/// drain pass runs and the loop repeats, bounded by `fuel` passes.
pub open spec fn block_join_state<T: Pollable>(
    ia: int,
    ib: int,
    q: Seq<Entry<T>>,
    slots: Seq<Slot<T::Output>>,
    now: u64,
    tick: u64,
    fuel: u64,
) -> (Result<(T::Output, T::Output), RunError>, Seq<Entry<T>>, Seq<Slot<T::Output>>, u64)
    decreases fuel,
{
    if slots[ia] is Filled && slots[ib] is Filled {
        (
            Ok((slots[ia].value(), slots[ib].value())),
            q,
            slots.update(ia, Slot::Taken).update(ib, Slot::Taken),
            now,
        )
    } else if q.len() == 0 {
        (Err(RunError::NeverCompleted), q, slots, now)
    } else if fuel == 0 {
        (Err(RunError::PassBudgetExhausted), q, slots, now)
    } else {
        let n1 = sat_add(now, tick);
        block_join_state(
            ia,
            ib,
            pass_queue(q, n1),
            pass_slots(q, n1, slots),
            n1,
            tick,
            (fuel - 1) as u64,
        )
    }
}

impl<T: Pollable> Runtime<T> {
    /// Whether a handle's task has completed and its output is still waiting
    /// to be consumed.
    pub fn finished(&self, h: &JoinHandle) -> (r: bool)
        requires
            h.slot < self.slots@.len(),
        ensures
            r <==> self.slots@[h.slot as int] is Filled,
    {
        match &self.slots[h.slot] {
            Slot::Filled(_) => true,
            _ => false,
        }
    }

    /// Drive two spawned tasks to completion and join both results: the
    /// join-all entry point over a pair of handles.  It completes only once
    /// every member has completed, yielding the outputs in handle order;
    /// while either is outstanding it behaves as `block_on` does, draining
    /// the ready queue once per pass, at most `fuel` times.
    pub fn block_on_join2(&mut self, a: &JoinHandle, b: &JoinHandle, fuel: u64) -> (r: Result<
        (T::Output, T::Output),
        RunError,
    >)
        requires
            old(self).wf(),
            a.slot < old(self).slots@.len(),
            b.slot < old(self).slots@.len(),
            a.slot != b.slot,
        ensures
            final(self).wf(),
            (r, final(self).queue@, final(self).slots@, final(self).now) == block_join_state(
                a.slot as int,
                b.slot as int,
                old(self).queue@,
                old(self).slots@,
                old(self).now,
                old(self).tick,
                fuel,
            ),
            final(self).tick == old(self).tick,
    {
        let mut left = fuel;
        loop
            invariant
                self.wf(),
                self.tick == old(self).tick,
                a.slot < self.slots@.len(),
                b.slot < self.slots@.len(),
                a.slot != b.slot,
                block_join_state(
                    a.slot as int,
                    b.slot as int,
                    self.queue@,
                    self.slots@,
                    self.now,
                    self.tick,
                    left,
                ) == block_join_state(
                    a.slot as int,
                    b.slot as int,
                    old(self).queue@,
                    old(self).slots@,
                    old(self).now,
                    old(self).tick,
                    fuel,
                ),
            decreases left,
        {
            if self.finished(a) && self.finished(b) {
                let ra = self.poll_join(a);
                let rb = self.poll_join(b);
                match (ra, rb) {
                    (Ok(Poll::Ready(va)), Ok(Poll::Ready(vb))) => {
                        return Ok((va, vb));
                    },
                    _ => {
                        proof {
                            assert(false);
                        }
                        return Err(RunError::NeverCompleted);
                    },
                }
            }
            if self.queue.len() == 0 {
                return Err(RunError::NeverCompleted);
            }
            if left == 0 {
                return Err(RunError::PassBudgetExhausted);
            }
            let ghost qb = self.queue@;
            let ghost sb = self.slots@;
            self.drain_pass();
            proof {
                lemma_pass_slots_len(qb, self.now, sb);
            }
            left = left - 1;
        }
    }

    /// A suspension that becomes ready once `duration` clock units have
    /// elapsed from this executor's current time.
    pub fn sleep(&self, duration: u64) -> (s: Sleep)
        ensures
            s.deadline == sat_add(self.now, duration),
    {
        sleep(self.now, duration)
    }
}

/// Enqueue a task on the caller-supplied executor and return the handle
/// that resolves to its output.  Spawned work always joins the queue of the
/// runtime handle it is given; there is no hidden process-wide executor.
pub fn spawn<T: Pollable>(rt: &mut Runtime<T>, task: T) -> (h: JoinHandle)
    requires
        old(rt).wf(),
    ensures
        final(rt).wf(),
        h.slot == old(rt).slots@.len(),
        final(rt).slots@ == old(rt).slots@.push(Slot::Empty),
        final(rt).queue@ == old(rt).queue@.push(Entry { task, slot: h.slot }),
        final(rt).waker is None,
        final(rt).now == old(rt).now,
        final(rt).tick == old(rt).tick,
{
    rt.spawn(task)
}

/// What one poll of a join handle does to the result slots: the handle's
/// slot decides the outcome, and a filled slot is emptied exactly once.
pub open spec fn take_result<V>(slots: Seq<Slot<V>>, i: int) -> (Result<Poll<V>, JoinError>, Seq<
    Slot<V>,
>)
    recommends
        0 <= i < slots.len(),
{
    match slots[i] {
        Slot::Empty => (Ok(Poll::Pending), slots),
        Slot::Filled(v) => (Ok(Poll::Ready(v)), slots.update(i, Slot::Taken)),
        Slot::Taken => (Err(JoinError::AlreadyConsumed), slots),
    }
}

} // verus!
