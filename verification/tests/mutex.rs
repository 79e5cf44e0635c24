use sync_primitives::mutex::{
    must_wake, release_op, LockPhase, Mutex, Released, CONTENDED, LOCKED, SPIN_LIMIT, UNLOCKED,
};
use sync_primitives::word::{LoadOrder, Op, Order, Seen};

/// Drives an acquisition that nobody contends to its end, and returns the
/// number of operations it took.
fn acquire(mutex: &Mutex) -> u32 {
    let mut phase = LockPhase::Start;
    let mut steps = 0;
    while phase != LockPhase::Held {
        phase = mutex.lock(phase).after;
        steps += 1;
    }
    steps
}

/// Drives an acquisition while another logical thread holds the lock, up to
/// the point where it would go to sleep.
fn contend(mutex: &Mutex) -> LockPhase {
    let mut phase = LockPhase::Start;
    while phase != LockPhase::Park {
        assert_ne!(phase, LockPhase::Held);
        phase = mutex.lock(phase).after;
    }
    phase
}

#[test]
fn mutex_no_syscalls_test_mutex() {
    let mutex = Mutex::new();
    let first = mutex.lock(LockPhase::Start);
    assert_eq!(first.after, LockPhase::Held);
    assert_eq!(first.seen, Seen { ok: true, value: 0 });
    assert_eq!(mutex.unlock(), Released { previous: 1, woke: false });

    let second = mutex.lock(LockPhase::Start);
    assert_eq!(second.after, LockPhase::Held);
    assert_eq!(second.seen, Seen { ok: true, value: 0 });
    assert_eq!(mutex.unlock(), Released { previous: 1, woke: false });
}

#[test]
fn lock_phases_call_for_their_operations() {
    let exchange = Op::CompareExchange {
        current: 0,
        new: 1,
        success: Order::Acquire,
        failure: LoadOrder::Relaxed,
    };
    assert_eq!(LockPhase::Start.op(), exchange);
    assert_eq!(LockPhase::Retry.op(), exchange);
    assert_eq!(LockPhase::Spin { spins: 7 }.op(), Op::Load { order: LoadOrder::Relaxed });
    assert_eq!(LockPhase::Claim.op(), Op::Swap { value: 2, order: Order::Acquire });
    assert_eq!(LockPhase::Park.op(), Op::Wait { expected: 2 });
    assert_eq!(LockPhase::Held.op(), Op::Nothing);
    assert_eq!(release_op(), Op::Swap { value: 0, order: Order::Release });
}

#[test]
fn lock_steps_report_what_they_performed_and_saw() {
    let mutex = Mutex::new();
    let taken = mutex.lock(LockPhase::Start);
    assert_eq!(taken.performed, LockPhase::Start.op());
    assert_eq!(taken.seen, Seen { ok: true, value: 0 });

    let refused = mutex.lock(LockPhase::Start);
    assert_eq!(refused.seen, Seen { ok: false, value: 1 });
    assert_eq!(refused.after, LockPhase::Spin { spins: 0 });

    let polled = mutex.lock(LockPhase::Spin { spins: 0 });
    assert_eq!(polled.performed, Op::Load { order: LoadOrder::Relaxed });
    assert_eq!(polled.seen, Seen { ok: true, value: 1 });

    let claimed = mutex.lock(LockPhase::Claim);
    assert_eq!(claimed.seen, Seen { ok: true, value: 1 });
    assert_eq!(claimed.after, LockPhase::Park);
    let again = mutex.lock(LockPhase::Claim);
    assert_eq!(again.seen, Seen { ok: true, value: 2 });

    let idle = mutex.lock(LockPhase::Held);
    assert_eq!(idle.performed, Op::Nothing);
    assert_eq!(idle.seen, Seen { ok: true, value: 0 });
    assert_eq!(mutex.unlock(), Released { previous: 2, woke: true });
}

#[test]
fn uncontended_lock_takes_one_operation() {
    let mutex = Mutex::new();
    assert_eq!(mutex.lock(LockPhase::Start).after, LockPhase::Held);
    mutex.unlock();
    assert_eq!(acquire(&mutex), 1);
    mutex.unlock();
}

#[test]
fn held_phase_stays_held() {
    let mutex = Mutex::new();
    assert_eq!(mutex.lock(LockPhase::Start).after, LockPhase::Held);
    assert_eq!(mutex.lock(LockPhase::Held).after, LockPhase::Held);
    mutex.unlock();
}

#[test]
fn constants_are_the_three_states() {
    assert_eq!(UNLOCKED, 0);
    assert_eq!(LOCKED, 1);
    assert_eq!(CONTENDED, 2);
    assert_eq!(SPIN_LIMIT, 100);
}

#[test]
fn start_and_retry_follow_the_exchange() {
    assert_eq!(LockPhase::Start.advance(true, 0), LockPhase::Held);
    assert_eq!(LockPhase::Start.advance(false, 1), LockPhase::Spin { spins: 0 });
    assert_eq!(LockPhase::Start.advance(false, 2), LockPhase::Spin { spins: 0 });
    assert_eq!(LockPhase::Retry.advance(true, 0), LockPhase::Held);
    assert_eq!(LockPhase::Retry.advance(false, 1), LockPhase::Claim);
}

#[test]
fn spin_counts_up_to_the_limit() {
    assert_eq!(LockPhase::Spin { spins: 0 }.advance(false, 1), LockPhase::Spin { spins: 1 });
    assert_eq!(LockPhase::Spin { spins: 99 }.advance(false, 1), LockPhase::Spin { spins: 100 });
    assert_eq!(LockPhase::Spin { spins: 100 }.advance(false, 1), LockPhase::Retry);
    assert_eq!(LockPhase::Spin { spins: u32::MAX }.advance(false, 1), LockPhase::Retry);
}

#[test]
fn spin_ends_when_the_word_is_not_locked() {
    assert_eq!(LockPhase::Spin { spins: 5 }.advance(false, 0), LockPhase::Retry);
    assert_eq!(LockPhase::Spin { spins: 5 }.advance(false, 2), LockPhase::Retry);
    assert_eq!(LockPhase::Spin { spins: 0 }.advance(true, 0), LockPhase::Retry);
}

#[test]
fn claim_holds_only_from_unlocked() {
    assert_eq!(LockPhase::Claim.advance(false, 0), LockPhase::Held);
    assert_eq!(LockPhase::Claim.advance(false, 1), LockPhase::Park);
    assert_eq!(LockPhase::Claim.advance(true, 2), LockPhase::Park);
    assert_eq!(LockPhase::Park.advance(false, 2), LockPhase::Claim);
    assert_eq!(LockPhase::Park.advance(true, 0), LockPhase::Claim);
    assert_eq!(LockPhase::Held.advance(false, 0), LockPhase::Held);
}

#[test]
fn uncontended_release_issues_no_wake_up() {
    let mutex = Mutex::new();
    acquire(&mutex);
    assert!(!mutex.unlock().woke);
    acquire(&mutex);
    assert_eq!(mutex.lock(LockPhase::Start).after, LockPhase::Spin { spins: 0 });
    assert_eq!(mutex.lock(LockPhase::Retry).after, LockPhase::Claim);
    assert!(!mutex.unlock().woke);
}

#[test]
fn contended_release_issues_a_wake_up() {
    let mutex = Mutex::new();
    acquire(&mutex);
    let parked = contend(&mutex);
    assert!(mutex.unlock().woke);
    assert_eq!(mutex.lock(parked).after, LockPhase::Claim);
    assert_eq!(mutex.lock(LockPhase::Claim).after, LockPhase::Held);
    assert!(mutex.unlock().woke);
    assert_eq!(mutex.lock(LockPhase::Start).after, LockPhase::Held);
    assert!(!mutex.unlock().woke);
}

#[test]
fn only_a_contended_release_wakes() {
    assert!(!must_wake(0));
    assert!(!must_wake(1));
    assert!(must_wake(2));
    assert!(!must_wake(3));
}

#[test]
fn contended_lock_spins_then_parks() {
    let mutex = Mutex::new();
    assert_eq!(mutex.lock(LockPhase::Start).after, LockPhase::Held);

    let mut phase = mutex.lock(LockPhase::Start).after;
    assert_eq!(phase, LockPhase::Spin { spins: 0 });
    for spins in 1..=100 {
        phase = mutex.lock(phase).after;
        assert_eq!(phase, LockPhase::Spin { spins });
    }
    phase = mutex.lock(phase).after;
    assert_eq!(phase, LockPhase::Retry);
    phase = mutex.lock(phase).after;
    assert_eq!(phase, LockPhase::Claim);
    phase = mutex.lock(phase).after;
    assert_eq!(phase, LockPhase::Park);

    mutex.unlock();
    phase = mutex.lock(phase).after;
    assert_eq!(phase, LockPhase::Claim);
    phase = mutex.lock(phase).after;
    assert_eq!(phase, LockPhase::Held);
    mutex.unlock();
}

#[test]
fn lock_is_back_at_its_baseline_after_contention() {
    let mutex = Mutex::new();
    acquire(&mutex);
    let second = contend(&mutex);
    let third = contend(&mutex);
    mutex.unlock();

    assert_eq!(mutex.lock(second).after, LockPhase::Claim);
    assert_eq!(mutex.lock(LockPhase::Claim).after, LockPhase::Held);
    mutex.unlock();

    assert_eq!(mutex.lock(third).after, LockPhase::Claim);
    assert_eq!(mutex.lock(LockPhase::Claim).after, LockPhase::Held);
    mutex.unlock();

    assert_eq!(mutex.lock(LockPhase::Start).after, LockPhase::Held);
    mutex.unlock();
}

#[test]
fn second_thread_does_not_get_a_held_lock() {
    let mutex = Mutex::new();
    acquire(&mutex);
    assert_eq!(contend(&mutex), LockPhase::Park);
    assert_eq!(mutex.lock(LockPhase::Claim).after, LockPhase::Park);
    assert_eq!(mutex.lock(LockPhase::Retry).after, LockPhase::Claim);
    mutex.unlock();
}

#[test]
fn ten_threads_times_hundred_increments_make_a_thousand() {
    let mutex = Mutex::new();
    let threads = 10;
    let each = 100;
    let mut counter: u64 = 0;
    let mut phases = vec![LockPhase::Start; threads];
    let mut staged: Vec<Option<u64>> = vec![None; threads];
    let mut done = vec![0; threads];
    let mut holder: Option<usize> = None;

    let mut finished = 0;
    while finished < threads {
        for t in 0..threads {
            if done[t] == each {
                continue;
            }
            match phases[t] {
                LockPhase::Held => {
                    assert_eq!(holder, Some(t));
                    match staged[t] {
                        None => staged[t] = Some(counter),
                        Some(read) => {
                            counter = read + 1;
                            staged[t] = None;
                            done[t] += 1;
                            mutex.unlock();
                            holder = None;
                            phases[t] = LockPhase::Start;
                            if done[t] == each {
                                finished += 1;
                            }
                        }
                    }
                }
                LockPhase::Park if holder.is_some() => {}
                phase => {
                    phases[t] = mutex.lock(phase).after;
                    if phases[t] == LockPhase::Held {
                        assert_eq!(holder, None);
                        holder = Some(t);
                    }
                }
            }
        }
    }
    assert_eq!(counter, 1000);
    assert_eq!(mutex.lock(LockPhase::Start).after, LockPhase::Held);
}
