use sync_primitives::rwlock::{
    bump_op, read_release_op, was_last_reader, write_release_op, Access, Cell, ReadPhase,
    ReadReleased, RwLock, WritePhase, FREE, MAX_READERS, WRITER,
};
use sync_primitives::word::{LoadOrder, Op, Order, Seen, StoreOrder};

/// Drives an acquisition for reading that no writer stands in the way of.
fn read(lock: &RwLock) {
    let mut phase = ReadPhase::Load;
    while phase != ReadPhase::Held {
        assert_ne!(phase, ReadPhase::Park);
        assert_ne!(phase, ReadPhase::Overflow);
        phase = lock.read(phase).after;
    }
}

/// Drives an acquisition for writing on a lock that is free.
fn write(lock: &RwLock) {
    assert_eq!(lock.write(WritePhase::Try).after, WritePhase::Held);
}

#[test]
fn rwlock_no_busy_loop_test1() {
    let rwlock = RwLock::new();
    let written = rwlock.write(WritePhase::Try);
    assert_eq!(written.after, WritePhase::Held);
    assert!(written.seen.ok);
    rwlock.write_unlock();

    let loaded = rwlock.read(ReadPhase::Load);
    assert_eq!(loaded.seen, Seen { ok: true, value: 0 });
    assert_eq!(loaded.after, ReadPhase::Try { readers: 0 });
    read(&rwlock);
    read(&rwlock);
    assert_eq!(rwlock.read_unlock(), ReadReleased { previous: 2, freed: false });
    assert_eq!(rwlock.read_unlock(), ReadReleased { previous: 1, freed: true });
}

#[test]
fn read_and_write_phases_call_for_their_operations() {
    let state = |op| Access { cell: Cell::State, op };
    let wake = |op| Access { cell: Cell::Wake, op };
    assert_eq!(ReadPhase::Load.op(), state(Op::Load { order: LoadOrder::Relaxed }));
    assert_eq!(
        ReadPhase::Try { readers: 3 }.op(),
        state(Op::CompareExchangeWeak {
            current: 3,
            new: 4,
            success: Order::Acquire,
            failure: LoadOrder::Relaxed,
        })
    );
    assert_eq!(ReadPhase::Try { readers: MAX_READERS }.op(), state(Op::Nothing));
    assert_eq!(ReadPhase::Try { readers: WRITER }.op(), state(Op::Nothing));
    assert_eq!(ReadPhase::Park.op(), state(Op::Wait { expected: WRITER }));
    assert_eq!(ReadPhase::Held.op(), state(Op::Nothing));
    assert_eq!(ReadPhase::Overflow.op(), state(Op::Nothing));

    assert_eq!(
        WritePhase::Try.op(),
        state(Op::CompareExchange {
            current: 0,
            new: WRITER,
            success: Order::Acquire,
            failure: LoadOrder::Relaxed,
        })
    );
    assert_eq!(WritePhase::Stamp.op(), wake(Op::Load { order: LoadOrder::Acquire }));
    assert_eq!(WritePhase::Check { stamp: 5 }.op(), state(Op::Load { order: LoadOrder::Relaxed }));
    assert_eq!(WritePhase::Park { stamp: 5 }.op(), wake(Op::Wait { expected: 5 }));
    assert_eq!(WritePhase::Held.op(), state(Op::Nothing));

    assert_eq!(read_release_op(), state(Op::FetchSub { value: 1, order: Order::Release }));
    assert_eq!(write_release_op(), state(Op::Store { value: 0, order: StoreOrder::Release }));
    assert_eq!(bump_op(), wake(Op::FetchAdd { value: 1, order: Order::Release }));
}

#[test]
fn read_and_write_steps_report_what_they_saw() {
    let lock = RwLock::new();
    read(&lock);
    let refused = lock.write(WritePhase::Try);
    assert_eq!(refused.performed, WritePhase::Try.op());
    assert_eq!(refused.seen, Seen { ok: false, value: 1 });
    let stale = lock.read(ReadPhase::Try { readers: 0 });
    assert_eq!(stale.seen, Seen { ok: false, value: 1 });
    assert_eq!(stale.after, ReadPhase::Try { readers: 1 });
    let full = lock.read(ReadPhase::Try { readers: MAX_READERS });
    assert_eq!(full.performed.op, Op::Nothing);
    assert_eq!(full.after, ReadPhase::Overflow);
    assert_eq!(lock.read(ReadPhase::Load).seen.value, 1);
    lock.read_unlock();
    assert_eq!(lock.write(WritePhase::Stamp).seen, Seen { ok: true, value: 1 });
}

#[test]
fn sentinel_values() {
    assert_eq!(FREE, 0);
    assert_eq!(WRITER, u32::MAX);
    assert_eq!(MAX_READERS, u32::MAX - 1);
}

#[test]
fn reader_faces_the_word() {
    assert_eq!(ReadPhase::face(0), ReadPhase::Try { readers: 0 });
    assert_eq!(ReadPhase::face(7), ReadPhase::Try { readers: 7 });
    assert_eq!(ReadPhase::face(u32::MAX - 2), ReadPhase::Try { readers: u32::MAX - 2 });
    assert_eq!(ReadPhase::face(u32::MAX - 1), ReadPhase::Overflow);
    assert_eq!(ReadPhase::face(u32::MAX), ReadPhase::Park);
}

#[test]
fn read_phases_follow_the_table() {
    assert_eq!(ReadPhase::Load.advance(false, 3), ReadPhase::Try { readers: 3 });
    assert_eq!(ReadPhase::Load.advance(true, WRITER), ReadPhase::Park);
    assert_eq!(ReadPhase::Try { readers: 3 }.advance(true, 0), ReadPhase::Held);
    assert_eq!(ReadPhase::Try { readers: 3 }.advance(false, 4), ReadPhase::Try { readers: 4 });
    assert_eq!(ReadPhase::Try { readers: 3 }.advance(false, 3), ReadPhase::Try { readers: 3 });
    assert_eq!(ReadPhase::Try { readers: 3 }.advance(false, WRITER), ReadPhase::Park);
    assert_eq!(ReadPhase::Try { readers: 3 }.advance(false, MAX_READERS), ReadPhase::Overflow);
    assert_eq!(ReadPhase::Try { readers: WRITER }.advance(true, 0), ReadPhase::Park);
    assert_eq!(
        ReadPhase::Try { readers: MAX_READERS }.advance(true, MAX_READERS),
        ReadPhase::Overflow
    );
    assert_eq!(ReadPhase::Park.advance(false, WRITER), ReadPhase::Load);
    assert_eq!(ReadPhase::Held.advance(false, 0), ReadPhase::Held);
    assert_eq!(ReadPhase::Overflow.advance(true, 0), ReadPhase::Overflow);
}

#[test]
fn write_phases_follow_the_table() {
    assert_eq!(WritePhase::Try.advance(true, 0), WritePhase::Held);
    assert_eq!(WritePhase::Try.advance(false, 0), WritePhase::Stamp);
    assert_eq!(WritePhase::Stamp.advance(false, 9), WritePhase::Check { stamp: 9 });
    assert_eq!(WritePhase::Check { stamp: 9 }.advance(false, 2), WritePhase::Park { stamp: 9 });
    assert_eq!(WritePhase::Check { stamp: 9 }.advance(false, WRITER), WritePhase::Park { stamp: 9 });
    assert_eq!(WritePhase::Check { stamp: 9 }.advance(false, 0), WritePhase::Try);
    assert_eq!(WritePhase::Park { stamp: 9 }.advance(false, 0), WritePhase::Try);
    assert_eq!(WritePhase::Held.advance(false, 0), WritePhase::Held);
}

#[test]
fn only_the_last_reader_frees() {
    assert!(was_last_reader(1));
    assert!(!was_last_reader(0));
    assert!(!was_last_reader(2));
    assert!(!was_last_reader(WRITER));
}

#[test]
fn last_reader_to_leave_frees_the_lock() {
    let lock = RwLock::new();
    read(&lock);
    read(&lock);
    read(&lock);
    assert!(!lock.read_unlock().freed);
    assert!(!lock.read_unlock().freed);
    assert!(lock.read_unlock().freed);
    write(&lock);
    lock.write_unlock();
    read(&lock);
    assert!(lock.read_unlock().freed);
}

#[test]
fn readers_share_the_lock() {
    let lock = RwLock::new();
    read(&lock);
    read(&lock);
    read(&lock);
    assert_eq!(lock.read(ReadPhase::Load).after, ReadPhase::Try { readers: 3 });
    lock.read_unlock();
    lock.read_unlock();
    assert_eq!(lock.read(ReadPhase::Load).after, ReadPhase::Try { readers: 1 });
    lock.read_unlock();
    assert_eq!(lock.read(ReadPhase::Load).after, ReadPhase::Try { readers: 0 });
}

#[test]
fn writer_waits_for_the_readers() {
    let lock = RwLock::new();
    read(&lock);
    read(&lock);

    let mut phase = lock.write(WritePhase::Try).after;
    assert_eq!(phase, WritePhase::Stamp);
    phase = lock.write(phase).after;
    assert_eq!(phase, WritePhase::Check { stamp: 0 });
    phase = lock.write(phase).after;
    assert_eq!(phase, WritePhase::Park { stamp: 0 });

    lock.read_unlock();
    assert_eq!(lock.write(WritePhase::Try).after, WritePhase::Stamp);
    assert_eq!(lock.write(WritePhase::Stamp).after, WritePhase::Check { stamp: 0 });
    lock.read_unlock();

    phase = lock.write(phase).after;
    assert_eq!(phase, WritePhase::Try);
    phase = lock.write(phase).after;
    assert_eq!(phase, WritePhase::Held);
    lock.write_unlock();
}

#[test]
fn reader_and_writer_wait_for_the_writer() {
    let lock = RwLock::new();
    write(&lock);

    assert_eq!(lock.read(ReadPhase::Load).after, ReadPhase::Park);
    assert_eq!(lock.read(ReadPhase::Try { readers: 0 }).after, ReadPhase::Park);
    assert_eq!(lock.write(WritePhase::Try).after, WritePhase::Stamp);
    let stamped = lock.write(WritePhase::Stamp).after;
    assert_eq!(stamped, WritePhase::Check { stamp: 0 });
    assert_eq!(lock.write(stamped).after, WritePhase::Park { stamp: 0 });

    lock.write_unlock();

    assert_eq!(lock.read(ReadPhase::Park).after, ReadPhase::Load);
    assert_eq!(lock.write(WritePhase::Park { stamp: 0 }).after, WritePhase::Try);
    assert_eq!(lock.write(WritePhase::Stamp).after, WritePhase::Check { stamp: 1 });
    read(&lock);
    assert_eq!(lock.write(WritePhase::Try).after, WritePhase::Stamp);
    lock.read_unlock();
    assert_eq!(lock.write(WritePhase::Stamp).after, WritePhase::Check { stamp: 2 });
    write(&lock);
    lock.write_unlock();
}

#[test]
fn free_check_sends_the_writer_back_to_try() {
    let lock = RwLock::new();
    assert_eq!(lock.write(WritePhase::Check { stamp: 0 }).after, WritePhase::Try);
    assert_eq!(lock.write(WritePhase::Held).after, WritePhase::Held);
    assert_eq!(lock.read(ReadPhase::Held).after, ReadPhase::Held);
    assert_eq!(lock.read(ReadPhase::Overflow).after, ReadPhase::Overflow);
}

#[test]
fn stale_reader_count_is_refused() {
    let lock = RwLock::new();
    read(&lock);
    assert_eq!(lock.read(ReadPhase::Try { readers: 0 }).after, ReadPhase::Try { readers: 1 });
    assert_eq!(lock.read(ReadPhase::Try { readers: MAX_READERS }).after, ReadPhase::Overflow);
    assert_eq!(lock.read(ReadPhase::Try { readers: WRITER }).after, ReadPhase::Park);
    lock.read_unlock();
}

#[test]
fn hundred_writers_adding_two_make_two_hundred() {
    let lock = RwLock::new();
    let threads = 100;
    let mut value: u64 = 0;
    let mut phases = vec![WritePhase::Try; threads];
    let mut staged: Vec<Option<u64>> = vec![None; threads];
    let mut done = vec![false; threads];
    let mut writers = 0;
    let mut releases: u32 = 0;

    let mut finished = 0;
    while finished < threads {
        for t in 0..threads {
            if done[t] {
                continue;
            }
            match phases[t] {
                WritePhase::Held => match staged[t] {
                    None => staged[t] = Some(value),
                    Some(read) => {
                        value = read + 2;
                        done[t] = true;
                        finished += 1;
                        writers -= 1;
                        releases += 1;
                        lock.write_unlock();
                    }
                },
                WritePhase::Park { stamp } if stamp == releases => {}
                phase => {
                    phases[t] = lock.write(phase).after;
                    if phases[t] == WritePhase::Held {
                        writers += 1;
                        assert_eq!(writers, 1);
                    }
                }
            }
        }
    }
    read(&lock);
    assert_eq!(value, 200);
    lock.read_unlock();
}
