use sync_primitives::condvar::{
    announce_op, has_waiters, poll_op, Cell, Condvar, Notified, WaitOp, WaitPhase,
};
use sync_primitives::mutex::{LockPhase, Mutex, Released};
use sync_primitives::word::{LoadOrder, Op, Order, Seen};

fn acquire(mutex: &Mutex) {
    let mut phase = LockPhase::Start;
    while phase != LockPhase::Held {
        phase = mutex.lock(phase).after;
    }
}

/// Takes a wait from `Register` to the point where it would go to sleep.
fn wait_until_sleep(condvar: &Condvar, mutex: &Mutex) -> WaitPhase {
    let mut phase = WaitPhase::Register;
    for _ in 0..3 {
        phase = condvar.wait(mutex, phase).after;
    }
    phase
}

/// Takes a wait from its sleep to its end, and returns the number of
/// operations that took.
fn wait_from_sleep(condvar: &Condvar, mutex: &Mutex, mut phase: WaitPhase) -> u32 {
    let mut steps = 0;
    while !phase.is_over() {
        phase = condvar.wait(mutex, phase).after;
        steps += 1;
    }
    steps
}

#[test]
fn waiters_are_those_above_zero() {
    assert!(!has_waiters(0));
    assert!(has_waiters(1));
    assert!(has_waiters(u32::MAX));
}

#[test]
fn wait_is_over_when_the_mutex_is_held_again() {
    assert!(WaitPhase::Relock { lock: LockPhase::Held }.is_over());
    assert!(!WaitPhase::Relock { lock: LockPhase::Start }.is_over());
    assert!(!WaitPhase::Relock { lock: LockPhase::Park }.is_over());
    assert!(!WaitPhase::Register.is_over());
    assert!(!WaitPhase::Sleep { stamp: 0 }.is_over());
    assert!(!WaitPhase::Leave.is_over());
}

#[test]
fn wait_phases_call_for_their_operations() {
    let counter = |op| WaitOp::Word { cell: Cell::Counter, op };
    let waiters = |op| WaitOp::Word { cell: Cell::Waiters, op };
    assert_eq!(
        WaitPhase::Register.op(),
        waiters(Op::FetchAdd { value: 1, order: Order::Relaxed })
    );
    assert_eq!(WaitPhase::Stamp.op(), counter(Op::Load { order: LoadOrder::Relaxed }));
    assert_eq!(WaitPhase::Release { stamp: 4 }.op(), WaitOp::Unlock);
    assert_eq!(WaitPhase::Sleep { stamp: 4 }.op(), counter(Op::Wait { expected: 4 }));
    assert_eq!(WaitPhase::Leave.op(), waiters(Op::FetchSub { value: 1, order: Order::Relaxed }));
    assert_eq!(
        WaitPhase::Relock { lock: LockPhase::Claim }.op(),
        WaitOp::Lock { phase: LockPhase::Claim }
    );
    assert_eq!(poll_op(), Op::Load { order: LoadOrder::Relaxed });
    assert_eq!(announce_op(), Op::FetchAdd { value: 1, order: Order::Relaxed });
}

#[test]
fn wait_phases_follow_the_table() {
    assert_eq!(WaitPhase::Register.advance(true, 9), WaitPhase::Stamp);
    assert_eq!(WaitPhase::Stamp.advance(true, 9), WaitPhase::Release { stamp: 9 });
    assert_eq!(WaitPhase::Release { stamp: 9 }.advance(true, 1), WaitPhase::Sleep { stamp: 9 });
    assert_eq!(WaitPhase::Sleep { stamp: 9 }.advance(true, 0), WaitPhase::Leave);
    assert_eq!(
        WaitPhase::Leave.advance(true, 1),
        WaitPhase::Relock { lock: LockPhase::Start }
    );
    assert_eq!(
        WaitPhase::Relock { lock: LockPhase::Start }.advance(false, 1),
        WaitPhase::Relock { lock: LockPhase::Spin { spins: 0 } }
    );
    assert_eq!(
        WaitPhase::Relock { lock: LockPhase::Claim }.advance(true, 0),
        WaitPhase::Relock { lock: LockPhase::Held }
    );
}

#[test]
fn wait_goes_through_its_phases() {
    let mutex = Mutex::new();
    let condvar = Condvar::new();
    acquire(&mutex);

    let registered = condvar.wait(&mutex, WaitPhase::Register);
    assert_eq!(registered.performed, WaitPhase::Register.op());
    assert_eq!(registered.seen, Seen { ok: true, value: 0 });
    assert_eq!(registered.after, WaitPhase::Stamp);

    let stamped = condvar.wait(&mutex, registered.after);
    assert_eq!(stamped.seen, Seen { ok: true, value: 0 });
    assert_eq!(stamped.after, WaitPhase::Release { stamp: 0 });

    let released = condvar.wait(&mutex, stamped.after);
    assert_eq!(released.performed, WaitOp::Unlock);
    assert_eq!(released.seen, Seen { ok: true, value: 1 });
    assert_eq!(released.after, WaitPhase::Sleep { stamp: 0 });

    assert_eq!(condvar.notify_one(), Notified { waiters: 1, notified: true });

    let slept = condvar.wait(&mutex, released.after);
    assert_eq!(slept.performed, WaitPhase::Sleep { stamp: 0 }.op());
    assert_eq!(slept.after, WaitPhase::Leave);

    let left = condvar.wait(&mutex, slept.after);
    assert_eq!(left.seen, Seen { ok: true, value: 1 });
    assert_eq!(left.after, WaitPhase::Relock { lock: LockPhase::Start });

    let relocked = condvar.wait(&mutex, left.after);
    assert_eq!(relocked.performed, WaitOp::Lock { phase: LockPhase::Start });
    assert_eq!(relocked.seen, Seen { ok: true, value: 0 });
    assert_eq!(relocked.after, WaitPhase::Relock { lock: LockPhase::Held });
    assert!(relocked.after.is_over());
    assert_eq!(mutex.unlock(), Released { previous: 1, woke: false });
}

#[test]
fn notification_without_waiters_leaves_the_counter() {
    let mutex = Mutex::new();
    let condvar = Condvar::new();
    assert_eq!(condvar.notify_one(), Notified { waiters: 0, notified: false });
    assert_eq!(condvar.notify_all(), Notified { waiters: 0, notified: false });
    assert_eq!(condvar.notify_one(), Notified { waiters: 0, notified: false });

    acquire(&mutex);
    assert_eq!(condvar.wait(&mutex, WaitPhase::Stamp).after, WaitPhase::Release { stamp: 0 });
    mutex.unlock();
}

#[test]
fn notification_with_a_waiter_increments_the_counter() {
    let mutex = Mutex::new();
    let condvar = Condvar::new();
    acquire(&mutex);
    assert_eq!(condvar.wait(&mutex, WaitPhase::Register).after, WaitPhase::Stamp);
    assert_eq!(condvar.notify_one(), Notified { waiters: 1, notified: true });
    assert_eq!(condvar.wait(&mutex, WaitPhase::Stamp).after, WaitPhase::Release { stamp: 1 });
    assert!(condvar.notify_all().notified);
    assert!(condvar.notify_all().notified);
    assert_eq!(condvar.wait(&mutex, WaitPhase::Stamp).after, WaitPhase::Release { stamp: 3 });
    assert_eq!(
        condvar.wait(&mutex, WaitPhase::Leave).after,
        WaitPhase::Relock { lock: LockPhase::Start }
    );
    assert_eq!(condvar.notify_one(), Notified { waiters: 0, notified: false });
    assert_eq!(condvar.wait(&mutex, WaitPhase::Stamp).after, WaitPhase::Release { stamp: 3 });
    mutex.unlock();
}

#[test]
fn wait_releases_the_mutex() {
    let mutex = Mutex::new();
    let condvar = Condvar::new();
    acquire(&mutex);
    assert_eq!(mutex.lock(LockPhase::Retry).after, LockPhase::Claim);
    let sleep = wait_until_sleep(&condvar, &mutex);
    assert_eq!(sleep, WaitPhase::Sleep { stamp: 0 });
    assert_eq!(mutex.lock(LockPhase::Start).after, LockPhase::Held);
    mutex.unlock();
}

#[test]
fn test_condvar() {
    let mutex = Mutex::new();
    let condvar = Condvar::new();
    let mut wakeups = 0;

    acquire(&mutex);
    let mut notified = Notified { waiters: 0, notified: false };
    while !notified.notified {
        let sleep = wait_until_sleep(&condvar, &mutex);
        assert_eq!(sleep, WaitPhase::Sleep { stamp: 0 });

        // The other thread runs between the waiter's release of the mutex
        // and its going to sleep: it takes the mutex, gives it up, and
        // notifies.
        assert_eq!(mutex.lock(LockPhase::Start).after, LockPhase::Held);
        assert_eq!(mutex.unlock(), Released { previous: 1, woke: false });
        notified = condvar.notify_one();

        // The waiter does not sleep, for the counter has moved on; it takes
        // the mutex again in three operations.
        assert_eq!(wait_from_sleep(&condvar, &mutex, sleep), 3);
        wakeups += 1;
    }
    assert_eq!(notified, Notified { waiters: 1, notified: true });
    assert_eq!(condvar.wait(&mutex, WaitPhase::Stamp).seen.value, 1);
    mutex.unlock();
    assert!(wakeups < 10);
    assert_eq!(wakeups, 1);
}

#[test]
fn notify_all_reaches_every_waiter_that_has_not_slept_yet() {
    let mutex = Mutex::new();
    let condvar = Condvar::new();
    let mut sleeps = Vec::new();
    for _ in 0..5 {
        acquire(&mutex);
        sleeps.push(wait_until_sleep(&condvar, &mutex));
    }
    assert_eq!(condvar.notify_all(), Notified { waiters: 5, notified: true });
    for sleep in sleeps {
        assert_eq!(sleep, WaitPhase::Sleep { stamp: 0 });
        assert_eq!(wait_from_sleep(&condvar, &mutex, sleep), 3);
        mutex.unlock();
    }
    acquire(&mutex);
    assert_eq!(condvar.wait(&mutex, WaitPhase::Stamp).after, WaitPhase::Release { stamp: 1 });
    mutex.unlock();
}

#[test]
fn relock_waits_for_the_holder() {
    let mutex = Mutex::new();
    let condvar = Condvar::new();
    acquire(&mutex);
    let sleep = wait_until_sleep(&condvar, &mutex);
    condvar.notify_one();
    assert_eq!(condvar.wait(&mutex, sleep).after, WaitPhase::Leave);
    assert_eq!(
        condvar.wait(&mutex, WaitPhase::Leave).after,
        WaitPhase::Relock { lock: LockPhase::Start }
    );

    acquire(&mutex);
    let mut phase = WaitPhase::Relock { lock: LockPhase::Start };
    while phase != (WaitPhase::Relock { lock: LockPhase::Park }) {
        assert!(!phase.is_over());
        phase = condvar.wait(&mutex, phase).after;
    }
    assert_eq!(mutex.unlock(), Released { previous: 2, woke: true });
    assert_eq!(
        condvar.wait(&mutex, phase).after,
        WaitPhase::Relock { lock: LockPhase::Claim }
    );
    assert_eq!(
        condvar.wait(&mutex, WaitPhase::Relock { lock: LockPhase::Claim }).after,
        WaitPhase::Relock { lock: LockPhase::Held }
    );
    mutex.unlock();
}
