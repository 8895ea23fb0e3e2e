use mini_rt::poll::{JoinError, Poll, RunError};
use mini_rt::runtime::{spawn, Runtime};
use mini_rt::sleep::sleep;
use mini_rt::task::{join2, CountDown, Delayed, Never, Pollable};
use mini_rt::waker::Waker;

#[test]
fn sleep_pending_before_deadline_ready_after() {
    let mut s = sleep(3, 4);
    let mut t: u64 = 0;
    while t < 7 {
        assert!(s.poll(t).is_pending());
        t += 1;
    }
    assert!(s.poll(7).is_ready());
    assert!(s.poll(8).is_ready());
    assert!(s.poll(u64::MAX).is_ready());
}

#[test]
fn sleep_overflow_saturates_never_wraps() {
    let mut s = sleep(u64::MAX - 2, 10);
    assert!(s.poll(0).is_pending());
    assert!(s.poll(u64::MAX - 2).is_pending());
    assert!(s.poll(u64::MAX - 1).is_pending());
    assert!(s.poll(u64::MAX).is_ready());
}

#[test]
fn countdown_completes_on_exact_poll() {
    let mut c = CountDown::new(3, 5);
    assert!(c.poll(0).is_pending());
    assert!(c.poll(0).is_pending());
    match c.poll(0) {
        Poll::Ready(v) => assert_eq!(v, 5),
        Poll::Pending => panic!("third poll must complete"),
    }
}

#[test]
fn fifo_tasks_complete_after_exactly_k_passes() {
    let mut rt: Runtime<CountDown> = Runtime::new();
    let h1 = rt.spawn(CountDown::new(2, 10));
    let h2 = rt.spawn(CountDown::new(2, 20));
    let h3 = rt.spawn(CountDown::new(2, 30));
    // one pass is not enough: every task needs exactly two polls
    assert!(matches!(rt.run(1), Err(RunError::PassBudgetExhausted)));
    assert!(matches!(rt.poll_join(&h1), Ok(Poll::Pending)));
    // the second pass completes all three, in spawn order
    assert!(matches!(rt.run(1), Ok(())));
    assert!(matches!(rt.poll_join(&h1), Ok(Poll::Ready(10))));
    assert!(matches!(rt.poll_join(&h2), Ok(Poll::Ready(20))));
    assert!(matches!(rt.poll_join(&h3), Ok(Poll::Ready(30))));
}

#[test]
fn join_handle_delivers_exactly_once() {
    let mut rt: Runtime<CountDown> = Runtime::new();
    let h = rt.spawn(CountDown::new(1, 42));
    assert!(matches!(rt.poll_join(&h), Ok(Poll::Pending)));
    assert!(matches!(rt.run(5), Ok(())));
    assert!(matches!(rt.poll_join(&h), Ok(Poll::Ready(42))));
    assert!(matches!(rt.poll_join(&h), Err(JoinError::AlreadyConsumed)));
    assert!(matches!(rt.poll_join(&h), Err(JoinError::AlreadyConsumed)));
}

#[test]
fn join_all_completes_only_after_slowest_member() {
    let a = Delayed::new(sleep(0, 1), 1);
    let b = Delayed::new(sleep(0, 3), 3);
    let mut j = join2(a, b);
    assert!(j.poll(0).is_pending());
    assert!(j.poll(1).is_pending());
    assert!(j.poll(2).is_pending());
    match j.poll(3) {
        Poll::Ready(pair) => assert_eq!(pair, (1, 3)),
        Poll::Pending => panic!("both members are ready at time 3"),
    }
}

#[test]
fn two_sleepers_join_after_exactly_two_passes() {
    let mut rt: Runtime<Delayed> = Runtime::new();
    let ha = rt.spawn(Delayed::new(sleep(0, 1), 1));
    let hb = rt.spawn(Delayed::new(sleep(0, 2), 2));
    match rt.block_on_join2(&ha, &hb, 10) {
        Ok(pair) => assert_eq!(pair, (1, 2)),
        Err(_) => panic!("both sleepers complete"),
    }
    // the clock advanced one unit per drain pass: exactly two passes ran
    assert_eq!(rt.now(), 2);
}

#[test]
fn two_sleepers_exceed_a_budget_of_one_pass() {
    let mut rt: Runtime<Delayed> = Runtime::new();
    let ha = rt.spawn(Delayed::new(sleep(0, 1), 1));
    let hb = rt.spawn(Delayed::new(sleep(0, 2), 2));
    assert!(matches!(
        rt.block_on_join2(&ha, &hb, 1),
        Err(RunError::PassBudgetExhausted)
    ));
}

#[test]
fn starved_root_fails_instead_of_spinning() {
    let mut rt: Runtime<Never> = Runtime::new();
    let r = rt.block_on(Never::new(), 1000);
    assert!(matches!(r, Err(RunError::NeverCompleted)));
}

#[test]
fn block_on_interleaves_root_with_queued_tasks() {
    let mut rt: Runtime<CountDown> = Runtime::new();
    let h = rt.spawn(CountDown::new(3, 9));
    let root = Delayed::new(sleep(0, 2), 7);
    match rt.block_on(root, 10) {
        Ok(v) => assert_eq!(v, 7),
        Err(_) => panic!("root completes at time 2"),
    }
    // the helper still needs its third poll; drive the queue to quiescence
    assert!(matches!(rt.poll_join(&h), Ok(Poll::Pending)));
    assert!(matches!(rt.run(5), Ok(())));
    assert!(matches!(rt.poll_join(&h), Ok(Poll::Ready(9))));
}

#[test]
fn run_on_empty_queue_is_quiescent() {
    let mut rt: Runtime<CountDown> = Runtime::new();
    assert!(matches!(rt.run(0), Ok(())));
    assert_eq!(rt.now(), 0);
}

#[test]
fn dropping_executor_with_queued_tasks_is_safe() {
    let mut rt: Runtime<CountDown> = Runtime::new();
    let mut handles = Vec::new();
    let mut i: u64 = 0;
    while i < 8 {
        handles.push(rt.spawn(CountDown::new(100, i)));
        i += 1;
    }
    // dropping the executor silently discards the queued tasks: no panic,
    // no deadlock, and no completion is delivered anywhere afterward
    drop(rt);
    drop(handles);
}

#[test]
fn spawn_takes_and_invokes_registered_waker() {
    let mut rt: Runtime<CountDown> = Runtime::new();
    assert!(!rt.waker_registered());
    let w = Waker::new(7);
    let w2 = w.clone();
    w2.wake();
    rt.register_waker(w);
    assert!(rt.waker_registered());
    rt.spawn(CountDown::new(1, 0));
    assert!(!rt.waker_registered());
}

#[test]
fn free_spawn_joins_the_callers_executor() {
    let mut rt: Runtime<CountDown> = Runtime::new();
    let h = spawn(&mut rt, CountDown::new(1, 11));
    assert!(matches!(rt.run(2), Ok(())));
    assert!(matches!(rt.poll_join(&h), Ok(Poll::Ready(11))));
}

#[test]
fn runtime_sleep_uses_current_clock_and_tick() {
    let mut rt: Runtime<Delayed> = Runtime::new();
    rt.set_tick(2);
    let s = rt.sleep(4);
    let h = rt.spawn(Delayed::new(s, 3));
    assert!(matches!(rt.run(10), Ok(())));
    // the clock advances two units per pass: ready on the second pass
    assert_eq!(rt.now(), 4);
    assert!(matches!(rt.poll_join(&h), Ok(Poll::Ready(3))));
}

#[test]
fn never_ready_task_keeps_requeueing() {
    let mut rt: Runtime<Never> = Runtime::new();
    let h = rt.spawn(Never::new());
    assert!(matches!(rt.run(50), Err(RunError::PassBudgetExhausted)));
    assert!(matches!(rt.poll_join(&h), Ok(Poll::Pending)));
}
