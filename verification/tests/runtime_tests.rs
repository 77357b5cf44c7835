use hxrt::HxError;
use hxrt::cell::{CellStore, HxRef};
use hxrt::dynamic::Dynamic;
use hxrt::exception::{Caught, ExceptionSlot};
use hxrt::sync::{AcquireOutcome, ConditionHandle, LockHandle, MutexHandle, SemaphoreHandle,
    WaitOutcome};
use hxrt::thread::{Progress, ReadOutcome, Registry, WaitState};

#[test]
fn nested_catch_unwind_keeps_suppression_depth_until_outer_returns() {
    let mut slot = ExceptionSlot::new();
    assert_eq!(slot.open_frames(), 0);

    // Outer protected region opens.
    slot.catch_begin();
    {
        // Inner protected region: throw, then recover at the inner frame.
        slot.catch_begin();
        let t = slot.throw(Dynamic::from(7i32));
        assert!(!slot.should_report(&t));
        let inner = slot.catch_end::<i32>(Err(t));
        assert!(matches!(inner, Caught::Recovered(_)));
        // While still inside the outer region, nested depth remains active.
        assert!(slot.open_frames() >= 1);
    }
    let outer = slot.catch_end::<i32>(Ok(11));
    match outer {
        Caught::Returned(v) => assert_eq!(v, 11),
        _ => panic!("outer region should return normally"),
    }
    assert_eq!(slot.open_frames(), 0);
}

#[test]
fn rethrow_from_inner_catch_reaches_outer_catch() {
    let mut slot = ExceptionSlot::new();
    slot.catch_begin();
    slot.catch_begin();
    let t1 = slot.throw(Dynamic::from(42i32));
    let inner = slot.catch_end::<i32>(Err(t1));
    let payload = match inner {
        Caught::Recovered(p) => p,
        _ => panic!("inner catch should recover the payload"),
    };
    let t2 = slot.rethrow(payload);
    let outer = slot.catch_end::<i32>(Err(t2));
    match outer {
        Caught::Recovered(p) => assert_eq!(p.downcast_ref::<i32>().copied(), Some(42)),
        _ => panic!("outer catch should receive rethrow"),
    }
}

#[test]
fn unrelated_marker_propagates_untouched() {
    let mut slot = ExceptionSlot::new();
    slot.catch_begin();
    let t = slot.throw(Dynamic::from(1i32));
    // A different id (an already-consumed or foreign fault) is not ours.
    let foreign = hxrt::exception::Thrown { id: t.id + 100 };
    let r = slot.catch_end::<i32>(Err(foreign));
    assert!(matches!(r, Caught::Propagate(_)));
    assert!(slot.has_active());
}

#[test]
fn mutex_is_reentrant_on_same_thread() {
    let mut m = MutexHandle::new();
    assert!(m.try_acquire(1));
    assert!(m.try_acquire(1));
    assert_eq!(m.depth(), 2);
    assert!(m.release(1).is_ok());
    assert!(m.release(1).is_ok());
    assert_eq!(m.owner(), None);
    assert_eq!(m.depth(), 0);
    // A third release fails with the ownership violation.
    assert_eq!(m.release(1), Err(HxError::MutexOwnershipViolation));
}

#[test]
fn mutex_blocks_other_thread_and_rejects_foreign_release() {
    let mut m = MutexHandle::new();
    assert!(matches!(m.acquire(1), AcquireOutcome::Acquired));
    assert!(!m.try_acquire(2));
    assert!(matches!(m.acquire(2), AcquireOutcome::WouldBlock));
    assert_eq!(m.release(2), Err(HxError::MutexOwnershipViolation));
    assert!(m.release(1).is_ok());
    assert!(m.try_acquire(2));
}

#[test]
fn lock_and_semaphore_nonpositive_timeout_fail_immediately() {
    let mut l = LockHandle::new();
    assert!(matches!(l.wait(Some(0)), WaitOutcome::TimedOut));
    assert!(matches!(l.wait(Some(-5)), WaitOutcome::TimedOut));
    // After a release the same attempt takes the permit at once.
    l.release();
    assert!(matches!(l.wait(Some(0)), WaitOutcome::Ready));

    let mut s = SemaphoreHandle::new(0);
    assert!(matches!(s.try_acquire(None), WaitOutcome::TimedOut));
    assert!(matches!(s.try_acquire(Some(0)), WaitOutcome::TimedOut));
    s.release();
    assert!(matches!(s.try_acquire(Some(0)), WaitOutcome::Ready));
}

#[test]
fn semaphore_counts_permits() {
    let mut s = SemaphoreHandle::new(2);
    assert!(matches!(s.acquire(), AcquireOutcome::Acquired));
    assert!(matches!(s.acquire(), AcquireOutcome::Acquired));
    assert!(matches!(s.acquire(), AcquireOutcome::WouldBlock));
    s.release();
    assert!(matches!(s.acquire(), AcquireOutcome::Acquired));
    // A negative initial value clamps to no permits.
    let mut t = SemaphoreHandle::new(-3);
    assert!(matches!(t.acquire(), AcquireOutcome::WouldBlock));
}

#[test]
fn condition_wait_requires_held_mutex() {
    let mut c = ConditionHandle::new();
    assert_eq!(c.wait_begin(1), Err(HxError::MutexOwnershipViolation));
    assert!(c.try_acquire(1));
    let gen = c.wait_begin(1).unwrap();
    assert!(!c.wait_ready(gen));
    c.signal();
    assert!(c.wait_ready(gen));
    // The woken waiter re-acquires the internal mutex before returning.
    assert!(c.try_acquire(1));
    assert!(c.release(1).is_ok());
    assert_eq!(c.release(2), Err(HxError::MutexOwnershipViolation));
}

#[test]
fn thread_spawn_can_send_to_main_queue() {
    let mut reg = Registry::new();
    let child = reg.thread_spawn();
    assert!(child != 0);
    assert!(reg.is_alive(child));
    // The child thread's job sends to the initial thread's mailbox.
    reg.thread_send_message(0, Dynamic::from(String::from("child_ready"))).unwrap();
    let msg = match reg.thread_read_message(0, true).unwrap() {
        ReadOutcome::Message(m) => m,
        _ => panic!("a message should be queued"),
    };
    assert_eq!(msg.downcast::<String>().unwrap().as_str(), "child_ready");
    reg.thread_exit(child);
    assert!(!reg.is_alive(child));
    assert_eq!(
        reg.thread_send_message(child, Dynamic::null()),
        Err(HxError::ThreadNotAlive)
    );
}

#[test]
fn mailbox_is_fifo_and_reports_empty() {
    let mut reg = Registry::new();
    reg.thread_send_message(0, Dynamic::from(1i32)).unwrap();
    reg.thread_send_message(0, Dynamic::from(2i32)).unwrap();
    let first = match reg.thread_read_message(0, false).unwrap() {
        ReadOutcome::Message(m) => m.downcast::<i32>().unwrap(),
        _ => panic!("first send should arrive first"),
    };
    assert_eq!(first, 1);
    let second = match reg.thread_read_message(0, false).unwrap() {
        ReadOutcome::Message(m) => m.downcast::<i32>().unwrap(),
        _ => panic!("second send should arrive next"),
    };
    assert_eq!(second, 2);
    assert!(matches!(
        reg.thread_read_message(0, false).unwrap(),
        ReadOutcome::Empty
    ));
    assert!(matches!(
        reg.thread_read_message(0, true).unwrap(),
        ReadOutcome::WouldBlock
    ));
}

#[test]
fn event_loop_run_executes_on_progress() {
    let mut reg = Registry::new();
    let tid = reg.thread_spawn();
    reg.event_loop_run(tid, 41).unwrap();
    let (to_run, verdict) = reg.event_loop_progress(tid, 0).unwrap();
    assert_eq!(to_run, vec![41]);
    assert!(matches!(verdict, Progress::Now));
    let (again, verdict2) = reg.event_loop_progress(tid, 0).unwrap();
    assert!(again.is_empty());
    assert!(matches!(verdict2, Progress::Never));
    reg.thread_exit(tid);
}

#[test]
fn event_loop_repeat_clamps_zero_interval() {
    let mut reg = Registry::new();
    let tid = reg.thread_spawn();
    let id = reg.event_loop_repeat(tid, 7, 0, 100).unwrap();
    // Must not run immediately: the clamped interval schedules one
    // millisecond ahead, so the report names a future time.
    let (to_run, verdict) = reg.event_loop_progress(tid, 100).unwrap();
    assert!(to_run.is_empty());
    match verdict {
        Progress::At(t) => assert_eq!(t, 101),
        _ => panic!("expected a future time, not a run"),
    }
    // At that time the callback fires and is re-armed one interval later.
    let (ran, verdict2) = reg.event_loop_progress(tid, 101).unwrap();
    assert_eq!(ran, vec![7]);
    assert!(matches!(verdict2, Progress::Now));
    reg.event_loop_cancel(tid, id).unwrap();
    let (none_left, verdict3) = reg.event_loop_progress(tid, 102).unwrap();
    assert!(none_left.is_empty());
    assert!(matches!(verdict3, Progress::Never));
    reg.thread_exit(tid);
}

#[test]
fn event_loop_promise_keeps_loop_alive() {
    let mut reg = Registry::new();
    reg.event_loop_promise(0).unwrap();
    let (ran, verdict) = reg.event_loop_progress(0, 0).unwrap();
    assert!(ran.is_empty());
    assert!(matches!(verdict, Progress::AnyTime));
    assert!(matches!(reg.event_loop_wait(0, 0).unwrap(), WaitState::ShouldBlock));
    reg.event_loop_run_promised(0, 9).unwrap();
    let (ran2, verdict2) = reg.event_loop_progress(0, 0).unwrap();
    assert_eq!(ran2, vec![9]);
    assert!(matches!(verdict2, Progress::Now));
    let (_, verdict3) = reg.event_loop_progress(0, 0).unwrap();
    assert!(matches!(verdict3, Progress::Never));
    assert!(matches!(reg.event_loop_wait(0, 0).unwrap(), WaitState::NoWork));
}

#[test]
fn event_loop_repeating_events_fire_in_due_order() {
    let mut reg = Registry::new();
    let _early = reg.event_loop_repeat(0, 1, 10, 0).unwrap();
    let _late = reg.event_loop_repeat(0, 2, 20, 0).unwrap();
    let (ran, _) = reg.event_loop_progress(0, 25).unwrap();
    assert_eq!(ran, vec![1, 2]);
}

#[test]
fn cell_aliasing_and_self_ref() {
    let mut st: CellStore<i32> = CellStore::new();
    let a = HxRef::new(&mut st, 10);
    let b = a.clone();
    b.write(&mut st, 11).unwrap();
    assert_eq!(*a.borrow(&st).unwrap(), 11);
    assert!(a.ptr_eq(&b));
    let minted = a.self_ref(&st).unwrap();
    assert!(minted.ptr_eq(&a));

    let null_ref: HxRef<i32> = HxRef::null();
    assert!(null_ref.is_null());
    assert_eq!(null_ref.borrow(&st).unwrap_err(), HxError::NullAccess);
    assert_eq!(null_ref.self_ref(&st).unwrap_err(), HxError::NullAccess);

    let detached = HxRef::new_detached(&mut st, 5);
    assert_eq!(detached.self_ref(&st).unwrap_err(), HxError::NullAccess);
}
