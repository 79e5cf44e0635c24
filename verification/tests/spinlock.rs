use sync_primitives::flag::FlagOp;
use sync_primitives::spinlock::{release_op, SpinLock, SpinPhase};
use sync_primitives::word::{Order, StoreOrder};

#[test]
fn free_lock_is_taken_at_once() {
    let lock = SpinLock::new();
    assert_eq!(lock.lock(SpinPhase::Try).after, SpinPhase::Held);
    lock.unlock();
}

#[test]
fn held_lock_keeps_the_second_thread_trying() {
    let lock = SpinLock::new();
    assert_eq!(lock.lock(SpinPhase::Try).after, SpinPhase::Held);
    for _ in 0..1000 {
        assert_eq!(lock.lock(SpinPhase::Try).after, SpinPhase::Try);
    }
    lock.unlock();
    assert_eq!(lock.lock(SpinPhase::Try).after, SpinPhase::Held);
    assert_eq!(lock.lock(SpinPhase::Held).after, SpinPhase::Held);
    lock.unlock();
}

#[test]
fn phase_follows_the_flag_found() {
    assert_eq!(SpinPhase::Try.advance(false), SpinPhase::Held);
    assert_eq!(SpinPhase::Try.advance(true), SpinPhase::Try);
    assert_eq!(SpinPhase::Held.advance(false), SpinPhase::Held);
    assert_eq!(SpinPhase::Held.advance(true), SpinPhase::Held);
}

#[test]
fn pushes_under_the_lock_arrive_in_one_of_two_orders() {
    let lock = SpinLock::new();
    let mut values: Vec<i32> = Vec::new();

    let mut first = SpinPhase::Try;
    let mut second = lock.lock(SpinPhase::Try).after;
    assert_eq!(second, SpinPhase::Held);
    first = lock.lock(first).after;
    assert_eq!(first, SpinPhase::Try);
    values.push(2);
    first = lock.lock(first).after;
    assert_eq!(first, SpinPhase::Try);
    values.push(2);
    lock.unlock();
    second = SpinPhase::Try;

    first = lock.lock(first).after;
    assert_eq!(first, SpinPhase::Held);
    values.push(1);
    lock.unlock();

    assert_eq!(lock.lock(second).after, SpinPhase::Held);
    assert!(values.as_slice() == [1, 2, 2] || values.as_slice() == [2, 2, 1]);
    lock.unlock();
}

#[test]
fn spin_lock_counts_every_increment() {
    let lock = SpinLock::new();
    let threads = 10;
    let each = 100;
    let mut counter: u64 = 0;
    let mut phases = vec![SpinPhase::Try; threads];
    let mut staged: Vec<Option<u64>> = vec![None; threads];
    let mut done = vec![0; threads];
    let mut holders = 0;

    let mut finished = 0;
    while finished < threads {
        for t in (0..threads).rev() {
            if done[t] == each {
                continue;
            }
            match (phases[t], staged[t]) {
                (SpinPhase::Try, _) => {
                    phases[t] = lock.lock(SpinPhase::Try).after;
                    if phases[t] == SpinPhase::Held {
                        holders += 1;
                        assert_eq!(holders, 1);
                    }
                }
                (SpinPhase::Held, None) => staged[t] = Some(counter),
                (SpinPhase::Held, Some(read)) => {
                    counter = read + 1;
                    staged[t] = None;
                    done[t] += 1;
                    holders -= 1;
                    lock.unlock();
                    phases[t] = SpinPhase::Try;
                    if done[t] == each {
                        finished += 1;
                    }
                }
            }
        }
    }
    assert_eq!(counter, 1000);
}

#[test]
fn turns_report_what_they_performed_and_found() {
    let swap = FlagOp::Swap { value: true, order: Order::Acquire };
    assert_eq!(SpinPhase::Try.op(), swap);
    assert_eq!(SpinPhase::Held.op(), FlagOp::Nothing);
    assert_eq!(release_op(), FlagOp::Store { value: false, order: StoreOrder::Release });

    let lock = SpinLock::new();
    let taken = lock.lock(SpinPhase::Try);
    assert_eq!(taken.performed, swap);
    assert!(!taken.found);
    assert_eq!(taken.after, SpinPhase::Held);

    let refused = lock.lock(SpinPhase::Try);
    assert_eq!(refused.performed, swap);
    assert!(refused.found);
    assert_eq!(refused.after, SpinPhase::Try);

    let idle = lock.lock(SpinPhase::Held);
    assert_eq!(idle.performed, FlagOp::Nothing);
    assert!(!idle.found);
    lock.unlock();
    assert!(!lock.lock(SpinPhase::Try).found);
}
