//! A reader/writer lock over one 32-bit state word and a wake counter.
//!
//! The state word counts the threads that hold the lock for reading, or holds
//! [`WRITER`] while one thread holds it for writing.  Readers that find a
//! writer sleep on the state word.  Writers that find the lock taken sleep on
//! a second word, the wake counter, which every release that frees the lock
//! increments: a writer is then not woken each time one of many readers comes
//! or goes.  While readers keep arriving a writer may wait without bound.
//!
//! Acquisitions are offered one atomic operation at a time: [`RwLock::read`]
//! and [`RwLock::write`] take the phase an acquisition is in, perform the one
//! operation it calls for, which is [`ReadPhase::operation`] or
//! [`WritePhase::operation`], and return the phase that follows.  [`Model`]
//! describes any number of threads that take these steps in any order.

use std::sync::atomic::AtomicU32;
use vstd::prelude::*;
use crate::tally::{
    increments_add_up,
    total,
    total_covers_entry,
    total_of_equal,
    total_of_update,
    Guarded,
};
use crate::trace::{is_run, invariant_holds};
use crate::word::{perform, plus, LoadOrder, Op, Order, Seen, StoreOrder};

verus! {

/// The state word of a lock that nobody holds.
pub const FREE: u32 = 0;

/// The state word of a lock that is held for writing.
pub const WRITER: u32 = 0xffff_ffff;

/// The largest number of readers that the state word can count.
pub const MAX_READERS: u32 = 0xffff_fffe;

/// One of the two words of the lock.
#[derive(Clone, Copy, Debug, PartialEq, Eq, Structural)]
pub enum Cell {
    /// The state word.
    State,
    /// The wake counter.
    Wake,
}

/// An operation on one of the two words.
#[derive(Clone, Copy, Debug, PartialEq, Eq, Structural)]
pub struct Access {
    pub cell: Cell,
    pub op: Op,
}

impl Access {
    /// The operation that `self` performs on the word `cell`; nothing where
    /// it is an operation on the other word.
    pub open spec fn on(self, cell: Cell) -> Op {
        if self.cell == cell {
            self.op
        } else {
            Op::Nothing
        }
    }

    /// What the operation reports when the state word is `word` and the wake
    /// counter is `wake`.
    pub open spec fn sees(self, word: u32, wake: u32, lucky: bool) -> Seen {
        match self.cell {
            Cell::State => self.op.sees(word, lucky),
            Cell::Wake => self.op.sees(wake, lucky),
        }
    }
}

/// Where an acquisition for reading stands.
#[derive(Clone, Copy, Debug, PartialEq, Eq, Structural)]
pub enum ReadPhase {
    /// About to load the state word.
    Load,
    /// About to exchange `readers`, the count last seen, for `readers + 1`.
    Try { readers: u32 },
    /// About to sleep while the state word holds `WRITER`.
    Park,
    /// The lock is held for reading.
    Held,
    /// The state word cannot count one more reader.  The acquisition has
    /// failed for good, and the thread must not go on.
    Overflow,
}

impl ReadPhase {
    /// What a reader does that has seen `seen` in the state word: it sleeps
    /// if a writer holds the lock, gives up if the count is full, and
    /// otherwise tries to add itself to the count.
    pub open spec fn facing(seen: u32) -> ReadPhase {
        if seen == WRITER {
            ReadPhase::Park
        } else if seen == MAX_READERS {
            ReadPhase::Overflow
        } else {
            ReadPhase::Try { readers: seen }
        }
    }

    /// The operation that the phase calls for: a relaxed load of the state
    /// word; the weak exchange of the count last seen for one more, acquiring
    /// on success; the sleep while the state word is `WRITER`.  A count that
    /// leaves no room is not exchanged, and the last two phases perform
    /// nothing.
    pub open spec fn operation(self) -> Access {
        Access {
            cell: Cell::State,
            op: match self {
                ReadPhase::Load => Op::Load { order: LoadOrder::Relaxed },
                ReadPhase::Try { readers } => if readers < MAX_READERS {
                    Op::CompareExchangeWeak {
                        current: readers,
                        new: (readers + 1) as u32,
                        success: Order::Acquire,
                        failure: LoadOrder::Relaxed,
                    }
                } else {
                    Op::Nothing
                },
                ReadPhase::Park => Op::Wait { expected: WRITER },
                ReadPhase::Held | ReadPhase::Overflow => Op::Nothing,
            },
        }
    }

    /// The phase that follows `self` once its operation has been performed.
    /// `ok` says whether the compare-and-exchange succeeded, `seen` is the
    /// value that the load or the failed exchange found in the state word.
    pub open spec fn next(self, ok: bool, seen: u32) -> ReadPhase {
        match self {
            ReadPhase::Load => Self::facing(seen),
            ReadPhase::Try { readers } => if readers >= MAX_READERS {
                Self::facing(readers)
            } else if ok {
                ReadPhase::Held
            } else {
                Self::facing(seen)
            },
            ReadPhase::Park => ReadPhase::Load,
            ReadPhase::Held => ReadPhase::Held,
            ReadPhase::Overflow => ReadPhase::Overflow,
        }
    }

    /// Computes [`ReadPhase::operation`].
    pub fn op(self) -> (access: Access)
        ensures
            access == self.operation(),
    {
        Access {
            cell: Cell::State,
            op: match self {
                ReadPhase::Load => Op::Load { order: LoadOrder::Relaxed },
                ReadPhase::Try { readers } => if readers < MAX_READERS {
                    Op::CompareExchangeWeak {
                        current: readers,
                        new: readers + 1,
                        success: Order::Acquire,
                        failure: LoadOrder::Relaxed,
                    }
                } else {
                    Op::Nothing
                },
                ReadPhase::Park => Op::Wait { expected: WRITER },
                ReadPhase::Held | ReadPhase::Overflow => Op::Nothing,
            },
        }
    }

    /// Computes [`ReadPhase::facing`].
    pub fn face(seen: u32) -> (after: ReadPhase)
        ensures
            after == Self::facing(seen),
    {
        if seen == WRITER {
            ReadPhase::Park
        } else if seen == MAX_READERS {
            ReadPhase::Overflow
        } else {
            ReadPhase::Try { readers: seen }
        }
    }

    /// Computes [`ReadPhase::next`].
    pub fn advance(self, ok: bool, seen: u32) -> (after: ReadPhase)
        ensures
            after == self.next(ok, seen),
    {
        match self {
            ReadPhase::Load => Self::face(seen),
            ReadPhase::Try { readers } => if readers >= MAX_READERS {
                Self::face(readers)
            } else if ok {
                ReadPhase::Held
            } else {
                Self::face(seen)
            },
            ReadPhase::Park => ReadPhase::Load,
            ReadPhase::Held => ReadPhase::Held,
            ReadPhase::Overflow => ReadPhase::Overflow,
        }
    }
}

/// Where an acquisition for writing stands.
#[derive(Clone, Copy, Debug, PartialEq, Eq, Structural)]
pub enum WritePhase {
    /// About to exchange `FREE` for `WRITER` in the state word.
    Try,
    /// About to load the wake counter.
    Stamp,
    /// About to load the state word; `stamp` is the wake counter as loaded.
    Check { stamp: u32 },
    /// About to sleep while the wake counter holds `stamp`.
    Park { stamp: u32 },
    /// The lock is held for writing.
    Held,
}

impl WritePhase {
    /// The operation that the phase calls for: the exchange of `FREE` for
    /// `WRITER` in the state word, acquiring on success; an acquiring load of
    /// the wake counter; a relaxed load of the state word; the sleep while
    /// the wake counter is as loaded; nothing once the lock is held.
    pub open spec fn operation(self) -> Access {
        match self {
            WritePhase::Try => Access {
                cell: Cell::State,
                op: Op::CompareExchange {
                    current: FREE,
                    new: WRITER,
                    success: Order::Acquire,
                    failure: LoadOrder::Relaxed,
                },
            },
            WritePhase::Stamp => Access {
                cell: Cell::Wake,
                op: Op::Load { order: LoadOrder::Acquire },
            },
            WritePhase::Check { .. } => Access {
                cell: Cell::State,
                op: Op::Load { order: LoadOrder::Relaxed },
            },
            WritePhase::Park { stamp } => Access {
                cell: Cell::Wake,
                op: Op::Wait { expected: stamp },
            },
            WritePhase::Held => Access { cell: Cell::State, op: Op::Nothing },
        }
    }

    /// Computes [`WritePhase::operation`].
    pub fn op(self) -> (access: Access)
        ensures
            access == self.operation(),
    {
        match self {
            WritePhase::Try => Access {
                cell: Cell::State,
                op: Op::CompareExchange {
                    current: FREE,
                    new: WRITER,
                    success: Order::Acquire,
                    failure: LoadOrder::Relaxed,
                },
            },
            WritePhase::Stamp => Access {
                cell: Cell::Wake,
                op: Op::Load { order: LoadOrder::Acquire },
            },
            WritePhase::Check { .. } => Access {
                cell: Cell::State,
                op: Op::Load { order: LoadOrder::Relaxed },
            },
            WritePhase::Park { stamp } => Access {
                cell: Cell::Wake,
                op: Op::Wait { expected: stamp },
            },
            WritePhase::Held => Access { cell: Cell::State, op: Op::Nothing },
        }
    }

    /// The phase that follows `self` once its operation has been performed.
    /// `ok` says whether the compare-and-exchange succeeded, `seen` is the
    /// value that a load found.
    pub open spec fn next(self, ok: bool, seen: u32) -> WritePhase {
        match self {
            WritePhase::Try => if ok { WritePhase::Held } else { WritePhase::Stamp },
            WritePhase::Stamp => WritePhase::Check { stamp: seen },
            WritePhase::Check { stamp } => if seen != FREE {
                WritePhase::Park { stamp }
            } else {
                WritePhase::Try
            },
            WritePhase::Park { .. } => WritePhase::Try,
            WritePhase::Held => WritePhase::Held,
        }
    }

    /// Computes [`WritePhase::next`].
    pub fn advance(self, ok: bool, seen: u32) -> (after: WritePhase)
        ensures
            after == self.next(ok, seen),
    {
        match self {
            WritePhase::Try => if ok { WritePhase::Held } else { WritePhase::Stamp },
            WritePhase::Stamp => WritePhase::Check { stamp: seen },
            WritePhase::Check { stamp } => if seen != FREE {
                WritePhase::Park { stamp }
            } else {
                WritePhase::Try
            },
            WritePhase::Park { .. } => WritePhase::Try,
            WritePhase::Held => WritePhase::Held,
        }
    }
}

/// Whether the reader whose release found `previous` in the state word was
/// the last one, so that a writer may now be woken.
pub open spec fn frees(previous: u32) -> bool {
    previous == 1
}

/// Computes [`frees`].
pub fn was_last_reader(previous: u32) -> (last: bool)
    ensures
        last == frees(previous),
{
    previous == 1
}

/// The operation by which a reader gives up its hold: the releasing
/// decrement of the state word.
pub open spec fn read_release() -> Access {
    Access { cell: Cell::State, op: Op::FetchSub { value: 1, order: Order::Release } }
}

/// Computes [`read_release`].
pub fn read_release_op() -> (access: Access)
    ensures
        access == read_release(),
{
    Access { cell: Cell::State, op: Op::FetchSub { value: 1, order: Order::Release } }
}

/// The operation by which the writer gives up its hold: the releasing store
/// of `FREE` in the state word.
pub open spec fn write_release() -> Access {
    Access { cell: Cell::State, op: Op::Store { value: FREE, order: StoreOrder::Release } }
}

/// Computes [`write_release`].
pub fn write_release_op() -> (access: Access)
    ensures
        access == write_release(),
{
    Access { cell: Cell::State, op: Op::Store { value: FREE, order: StoreOrder::Release } }
}

/// The operation by which a release that frees the lock marks it: the
/// releasing increment of the wake counter.
pub open spec fn bump() -> Access {
    Access { cell: Cell::Wake, op: Op::FetchAdd { value: 1, order: Order::Release } }
}

/// Computes [`bump`].
pub fn bump_op() -> (access: Access)
    ensures
        access == bump(),
{
    Access { cell: Cell::Wake, op: Op::FetchAdd { value: 1, order: Order::Release } }
}

/// One step of an acquisition for reading: the operation that was performed,
/// what it saw, and the phase that follows.
#[derive(Clone, Copy, Debug, PartialEq, Eq, Structural)]
pub struct ReadStep {
    pub performed: Access,
    pub seen: Seen,
    pub after: ReadPhase,
}

/// One step of an acquisition for writing: the operation that was performed,
/// what it saw, and the phase that follows.
#[derive(Clone, Copy, Debug, PartialEq, Eq, Structural)]
pub struct WriteStep {
    pub performed: Access,
    pub seen: Seen,
    pub after: WritePhase,
}

/// The release of a hold for reading: the state word that the decrement
/// found, and whether the caller was the last reader and woke a writer.
#[derive(Clone, Copy, Debug, PartialEq, Eq, Structural)]
pub struct ReadReleased {
    pub previous: u32,
    pub freed: bool,
}

/// The lock itself: the state word and the wake counter.  The value that the
/// lock protects is kept beside it by the owner of the lock.
pub struct RwLock {
    state: AtomicU32,
    writer_wake_counter: AtomicU32,
}

impl RwLock {
    /// A lock that nobody holds.
    pub fn new() -> RwLock {
        RwLock { state: AtomicU32::new(FREE), writer_wake_counter: AtomicU32::new(0) }
    }

    /// Performs `access` on the word that it names.
    fn act(&self, access: Access) -> (seen: Seen)
        ensures
            access.op.reports(seen),
    {
        match access.cell {
            Cell::State => perform(&self.state, access.op),
            Cell::Wake => perform(&self.writer_wake_counter, access.op),
        }
    }

    /// Performs the operation that `phase` calls for and moves on by what it
    /// saw.  Starting from [`ReadPhase::Load`], the caller holds the lock for
    /// reading once the phase that follows is [`ReadPhase::Held`], and must
    /// give up when it is [`ReadPhase::Overflow`].  A count that leaves no
    /// room is refused without touching the state word.
    pub fn read(&self, phase: ReadPhase) -> (step: ReadStep)
        ensures
            step.performed == phase.operation(),
            step.performed.op.reports(step.seen),
            step.after == phase.next(step.seen.ok, step.seen.value),
            (phase is Try && phase->Try_readers >= MAX_READERS) ==> step.after
                == ReadPhase::facing(phase->Try_readers),
    {
        let performed = phase.op();
        let seen = self.act(performed);
        let after = phase.advance(seen.ok, seen.value);
        ReadStep { performed, seen, after }
    }

    /// Performs the operation that `phase` calls for and moves on by what it
    /// saw.  Starting from [`WritePhase::Try`], the caller holds the lock for
    /// writing once the phase that follows is [`WritePhase::Held`].
    pub fn write(&self, phase: WritePhase) -> (step: WriteStep)
        ensures
            step.performed == phase.operation(),
            step.performed.op.reports(step.seen),
            step.after == phase.next(step.seen.ok, step.seen.value),
    {
        let performed = phase.op();
        let seen = self.act(performed);
        let after = phase.advance(seen.ok, seen.value);
        WriteStep { performed, seen, after }
    }

    /// Gives up a hold for reading by [`read_release`]; the last reader to
    /// leave marks the release by [`bump`] and wakes one writer.  Only a
    /// thread that holds the lock for reading may call this, once for each
    /// hold.
    pub fn read_unlock(&self) -> (out: ReadReleased)
        ensures
            out.freed == frees(out.previous),
    {
        let previous = self.act(read_release_op()).value;
        let freed = was_last_reader(previous);
        if freed {
            self.act(bump_op());
            self.act(Access { cell: Cell::Wake, op: Op::WakeOne });
        }
        ReadReleased { previous, freed }
    }

    /// Gives up the hold for writing by [`write_release`], marks the release
    /// by [`bump`], and wakes one writer and every reader.  Only the thread
    /// that holds the lock for writing may call this.
    pub fn write_unlock(&self) {
        self.act(write_release_op());
        self.act(bump_op());
        self.act(Access { cell: Cell::Wake, op: Op::WakeOne });
        self.act(Access { cell: Cell::State, op: Op::WakeAll });
    }
}

/// What a thread that has freed the lock still has to do.
#[derive(Clone, Copy, Debug, PartialEq, Eq, Structural)]
pub enum Rouse {
    /// About to increment the wake counter.  `readers` says whether the
    /// sleeping readers are to be woken as well, as after a writer's release.
    Bump { readers: bool },
    /// About to wake one writer.
    Writer { readers: bool },
    /// About to wake every reader.
    Readers,
}

/// What one thread of the model is doing.
pub enum Thread {
    /// Neither holding the lock nor asking for it.
    Idle,
    /// Acquiring the lock for reading, or holding it once the phase is `Held`.
    Reading(ReadPhase),
    /// Asleep on the state word, in the operation of [`ReadPhase::Park`].
    ReaderAsleep,
    /// Acquiring the lock for writing, or holding it once the phase is
    /// `Held`.  `missed` is the number of increments of the wake counter
    /// since the thread loaded it.
    Writing { phase: WritePhase, missed: nat },
    /// Asleep on the wake counter, in the operation of [`WritePhase::Park`].
    WriterAsleep { stamp: u32, missed: nat },
    /// Waking others after a release that freed the lock.
    Rousing(Rouse),
}

/// One for a thread that holds the lock for reading, zero for any other.
pub open spec fn reading(thread: Thread) -> nat {
    if thread == Thread::Reading(ReadPhase::Held) {
        1
    } else {
        0
    }
}

/// The thread is about to wake every sleeping reader, or on its way to do
/// so.
pub open spec fn rouses_readers(thread: Thread) -> bool {
    thread == Thread::Rousing(Rouse::Bump { readers: true }) || thread == Thread::Rousing(
        Rouse::Writer { readers: true },
    ) || thread == Thread::Rousing(Rouse::Readers)
}

/// The thread is about to increment the wake counter.
pub open spec fn about_to_bump(thread: Thread) -> bool {
    thread matches Thread::Rousing(Rouse::Bump { .. })
}

/// The thread is about to wake a sleeping writer, or on its way to do so, or
/// is a writer that is about to try for the lock.
pub open spec fn helps_writers(thread: Thread) -> bool {
    ||| thread matches Thread::Rousing(Rouse::Bump { .. })
    ||| thread matches Thread::Rousing(Rouse::Writer { .. })
    ||| thread matches Thread::Writing { phase: WritePhase::Try, .. }
}

/// What an increment of the wake counter by another thread does to `thread`:
/// a writer has missed one more increment.
pub open spec fn overtaken(thread: Thread) -> Thread {
    match thread {
        Thread::Writing { phase, missed } => Thread::Writing { phase, missed: missed + 1 },
        Thread::WriterAsleep { stamp, missed } => Thread::WriterAsleep {
            stamp,
            missed: missed + 1,
        },
        _ => thread,
    }
}

/// The two words, the threads that share them, and a record of the wake
/// counter.
pub struct Model {
    pub word: u32,
    pub wake: u32,
    pub threads: Seq<Thread>,
    /// How often the wake counter has been incremented.
    pub increments: nat,
    /// Some writer fell asleep although it had missed increments: the wake
    /// counter had come round to the value that the writer had loaded.
    pub lapped: bool,
}

impl Model {
    /// Thread `t` holds the lock for reading.
    pub open spec fn holds_read(self, t: int) -> bool {
        0 <= t < self.threads.len() && self.threads[t] == Thread::Reading(ReadPhase::Held)
    }

    /// Thread `t` holds the lock for writing.
    pub open spec fn holds_write(self, t: int) -> bool {
        0 <= t < self.threads.len() && self.threads[t] matches Thread::Writing {
            phase: WritePhase::Held,
            ..
        }
    }

    /// The number of threads that hold the lock for reading.
    pub open spec fn readers(self) -> nat {
        total(self.threads.map_values(|thread: Thread| reading(thread)))
    }

    /// No thread holds the lock, asks for it or is waking others.
    pub open spec fn quiet(self) -> bool {
        forall|t: int| 0 <= t < self.threads.len() ==> self.threads[t] == Thread::Idle
    }

    /// Some thread is about to wake every sleeping reader, or on its way to
    /// do so.
    pub open spec fn readers_roused(self) -> bool {
        exists|n: int| 0 <= n < self.threads.len() && rouses_readers(#[trigger] self.threads[n])
    }

    /// Some thread is about to increment the wake counter.
    pub open spec fn bump_due(self) -> bool {
        exists|n: int| 0 <= n < self.threads.len() && about_to_bump(#[trigger] self.threads[n])
    }

    /// Some thread is about to wake a sleeping writer, or on its way to do
    /// so, or is a writer that is about to try for the lock.
    pub open spec fn writers_helped(self) -> bool {
        exists|n: int| 0 <= n < self.threads.len() && helps_writers(#[trigger] self.threads[n])
    }

    /// The first state: the words as [`RwLock::new`] leaves them, every
    /// thread idle.
    pub open spec fn init(self) -> bool {
        &&& self.word == FREE
        &&& self.wake == 0
        &&& self.quiet()
        &&& self.increments == 0
        &&& !self.lapped
    }

    /// `after` differs from `self` in its threads at most.
    pub open spec fn same_words(self, after: Model) -> bool {
        after == (Model { threads: after.threads, ..self })
    }

    /// One atomic operation of a thread in state `thread`, on the words of
    /// `self`, leaves the words as in `after` and the thread in state `then`.
    ///
    /// An idle thread starts either acquisition.  An acquiring thread
    /// performs the operation of its phase, [`ReadPhase::operation`] or
    /// [`WritePhase::operation`], and moves on by [`ReadPhase::next`] or
    /// [`WritePhase::next`] on what the operation sees; `lucky` says whether
    /// the weak exchange of a reader succeeds where it may.  A thread whose
    /// phase is `Park` falls asleep if the word it sleeps on holds the value
    /// that its operation expects; a thread that is asleep may wake at any
    /// time, and then goes on from `Park`.  A holder releases by
    /// [`read_release`] or [`write_release`], and then works off the
    /// increment of the wake counter, [`bump`], and its wake-ups.
    pub open spec fn acts(self, after: Model, thread: Thread, then: Thread, lucky: bool) -> bool {
        match thread {
            Thread::Idle => {
                &&& self.same_words(after)
                &&& (then == Thread::Reading(ReadPhase::Load) || then == (Thread::Writing {
                    phase: WritePhase::Try,
                    missed: 0,
                }))
            },
            Thread::Reading(ReadPhase::Held) => {
                &&& after == (Model {
                    word: read_release().on(Cell::State).leaves(self.word, lucky),
                    threads: after.threads,
                    ..self
                })
                &&& then == if frees(read_release().sees(self.word, self.wake, lucky).value) {
                    Thread::Rousing(Rouse::Bump { readers: false })
                } else {
                    Thread::Idle
                }
            },
            Thread::Reading(ReadPhase::Park) => {
                &&& self.same_words(after)
                &&& then == if ReadPhase::Park.operation().on(Cell::State) == (Op::Wait {
                    expected: self.word,
                }) {
                    Thread::ReaderAsleep
                } else {
                    Thread::Reading(ReadPhase::Park.next(true, 0))
                }
            },
            Thread::Reading(phase) => {
                &&& after == (Model {
                    word: phase.operation().on(Cell::State).leaves(self.word, lucky),
                    threads: after.threads,
                    ..self
                })
                &&& then == Thread::Reading(
                    phase.next(
                        phase.operation().sees(self.word, self.wake, lucky).ok,
                        phase.operation().sees(self.word, self.wake, lucky).value,
                    ),
                )
            },
            Thread::ReaderAsleep => {
                &&& self.same_words(after)
                &&& then == Thread::Reading(ReadPhase::Park.next(true, 0))
            },
            Thread::Writing { phase: WritePhase::Stamp, missed } => {
                &&& self.same_words(after)
                &&& then == (Thread::Writing {
                    phase: WritePhase::Stamp.next(
                        true,
                        WritePhase::Stamp.operation().sees(self.word, self.wake, lucky).value,
                    ),
                    missed: 0,
                })
            },
            Thread::Writing { phase: WritePhase::Park { stamp }, missed } => if (WritePhase::Park {
                stamp,
            }).operation().on(Cell::Wake) == (Op::Wait { expected: self.wake }) {
                &&& after == (Model {
                    lapped: self.lapped || missed != 0,
                    threads: after.threads,
                    ..self
                })
                &&& then == (Thread::WriterAsleep { stamp, missed })
            } else {
                &&& self.same_words(after)
                &&& then == (Thread::Writing {
                    phase: WritePhase::Park { stamp }.next(true, 0),
                    missed,
                })
            },
            Thread::Writing { phase: WritePhase::Held, missed } => {
                &&& after == (Model {
                    word: write_release().on(Cell::State).leaves(self.word, lucky),
                    threads: after.threads,
                    ..self
                })
                &&& then == Thread::Rousing(Rouse::Bump { readers: true })
            },
            Thread::Writing { phase, missed } => {
                &&& after == (Model {
                    word: phase.operation().on(Cell::State).leaves(self.word, true),
                    threads: after.threads,
                    ..self
                })
                &&& then == (Thread::Writing {
                    phase: phase.next(
                        phase.operation().sees(self.word, self.wake, true).ok,
                        phase.operation().sees(self.word, self.wake, true).value,
                    ),
                    missed,
                })
            },
            Thread::WriterAsleep { stamp, missed } => {
                &&& self.same_words(after)
                &&& then == (Thread::Writing {
                    phase: WritePhase::Park { stamp }.next(true, 0),
                    missed,
                })
            },
            Thread::Rousing(Rouse::Bump { readers }) => {
                &&& after == (Model {
                    wake: bump().on(Cell::Wake).leaves(self.wake, lucky),
                    increments: self.increments + 1,
                    threads: after.threads,
                    ..self
                })
                &&& then == Thread::Rousing(Rouse::Writer { readers })
            },
            Thread::Rousing(Rouse::Writer { readers }) => {
                &&& self.same_words(after)
                &&& then == if readers {
                    Thread::Rousing(Rouse::Readers)
                } else {
                    Thread::Idle
                }
            },
            Thread::Rousing(Rouse::Readers) => {
                &&& self.same_words(after)
                &&& then == Thread::Idle
            },
        }
    }

    /// What the step of a thread in state `thread` does to another thread in
    /// state `other`; `chosen` says whether `other` is the sleeper that a
    /// wake-up of one writer has picked.
    pub open spec fn bystander(self, thread: Thread, other: Thread, chosen: bool) -> Thread {
        match thread {
            Thread::Rousing(Rouse::Bump { .. }) => overtaken(other),
            Thread::Rousing(Rouse::Writer { .. }) => match other {
                Thread::WriterAsleep { stamp, missed } => if chosen {
                    Thread::Writing {
                        phase: WritePhase::Park { stamp }.next(false, self.word),
                        missed,
                    }
                } else {
                    other
                },
                _ => other,
            },
            Thread::Rousing(Rouse::Readers) => if other is ReaderAsleep {
                Thread::Reading(ReadPhase::Park.next(false, self.word))
            } else {
                other
            },
            _ => other,
        }
    }

    /// Thread `t` performs its next atomic operation.  `woken` is the writer
    /// that a wake-up of one writer picks; where there is no such wake-up it
    /// is of no account, and where no writer is asleep none is picked.
    /// `lucky` is of account only for the weak exchange of a reader.
    pub open spec fn step(self, after: Model, t: int, woken: int, lucky: bool) -> bool {
        &&& 0 <= t < self.threads.len()
        &&& after.threads.len() == self.threads.len()
        &&& self.acts(after, self.threads[t], after.threads[t], lucky)
        &&& (0 <= woken < self.threads.len() && self.threads[woken] is WriterAsleep) || forall|
            i: int,
        | 0 <= i < self.threads.len() ==> !(#[trigger] self.threads[i] is WriterAsleep)
        &&& forall|i: int|
            0 <= i < self.threads.len() && i != t ==> #[trigger] after.threads[i]
                == self.bystander(self.threads[t], self.threads[i], i == woken)
    }

    /// Thread `t` performs its next atomic operation.
    pub open spec fn moves(self, after: Model, t: int) -> bool {
        exists|woken: int, lucky: bool| self.step(after, t, woken, lucky)
    }

    /// Some thread performs its next atomic operation.
    pub open spec fn next(self, after: Model) -> bool {
        exists|t: int| self.moves(after, t)
    }

    /// What holds of a thread in state `thread`.  A reader counts from a
    /// count that leaves room.  A reader sleeps only while a writer holds the
    /// lock or the readers are about to be woken.  The wake counter is what
    /// a writer has loaded, plus the increments it has missed.  A writer that
    /// is about to sleep and has missed no increment, and a writer that is
    /// asleep, are not left alone with a free lock.
    pub open spec fn sound(self, thread: Thread) -> bool {
        match thread {
            Thread::Reading(ReadPhase::Try { readers }) => readers < MAX_READERS,
            Thread::ReaderAsleep => self.word == WRITER || self.readers_roused(),
            Thread::Writing { phase: WritePhase::Check { stamp }, missed } => {
                &&& (stamp + missed) % 0x1_0000_0000 == self.wake
                &&& missed <= self.increments
            },
            Thread::Writing { phase: WritePhase::Park { stamp }, missed } => {
                &&& (stamp + missed) % 0x1_0000_0000 == self.wake
                &&& missed <= self.increments
                &&& missed == 0 ==> self.word != FREE || self.bump_due()
            },
            Thread::WriterAsleep { stamp, missed } => {
                &&& missed <= self.increments
                &&& !self.lapped ==> self.word != FREE || self.writers_helped()
            },
            _ => true,
        }
    }

    /// What holds of every state of every run: the state word is `WRITER`
    /// exactly while one thread holds the lock for writing, and then no
    /// thread holds it for reading; otherwise the word is the number of
    /// threads that hold the lock for reading; every thread is as
    /// [`Model::sound`] says; and the wake counter has come round only after
    /// as many increments as a word can count.
    pub open spec fn inv(self) -> bool {
        &&& forall|a: int, b: int| self.holds_write(a) && self.holds_write(b) ==> a == b
        &&& self.word == WRITER ==> exists|t: int| self.holds_write(t)
        &&& self.word == WRITER ==> forall|t: int| !self.holds_read(t)
        &&& self.word != WRITER ==> forall|t: int| !self.holds_write(t)
        &&& self.word != WRITER ==> self.word == self.readers()
        &&& forall|t: int| 0 <= t < self.threads.len() ==> self.sound(#[trigger] self.threads[t])
        &&& self.lapped ==> self.increments >= 0x1_0000_0000
    }

    /// `states` is a run of the model.
    pub open spec fn run(states: Seq<Model>) -> bool {
        is_run(states, |s: Model| s.init(), |s: Model, t: Model| s.next(t))
    }

    /// A step of thread `t` changes the number of readers by what it changes
    /// of thread `t`.
    proof fn readers_after_step(self, after: Model, t: int, woken: int, lucky: bool)
        requires
            self.step(after, t, woken, lucky),
        ensures
            after.readers() + reading(self.threads[t]) == self.readers() + reading(
                after.threads[t],
            ),
            reading(self.threads[t]) <= self.readers(),
    {
        let count = |thread: Thread| reading(thread);
        let before = self.threads.map_values(count);
        assert forall|i: int| 0 <= i < self.threads.len() && i != t implies reading(
            after.threads[i],
        ) == reading(self.threads[i]) by {
            assert(after.threads[i] == self.bystander(
                self.threads[t],
                self.threads[i],
                i == woken,
            ));
        }
        assert(after.threads.map_values(count) =~= before.update(t, reading(after.threads[t])));
        total_of_update(before, t, reading(after.threads[t]));
        total_covers_entry(before, t);
    }

    /// Where no thread holds the lock for reading, the number of readers is
    /// zero.
    proof fn no_reader_counts_zero(self)
        requires
            forall|t: int| !self.holds_read(t),
        ensures
            self.readers() == 0,
    {
        let counts = self.threads.map_values(|thread: Thread| reading(thread));
        assert forall|i: int| 0 <= i < counts.len() implies counts[i] == 0 by {
            assert(!self.holds_read(i));
        }
        total_of_equal(counts, 0);
        assert(counts.len() * 0 == 0) by (nonlinear_arith);
    }

    /// Where the number of readers is zero, no thread holds the lock for
    /// reading.
    proof fn zero_count_means_no_reader(self)
        requires
            self.readers() == 0,
        ensures
            forall|t: int| !self.holds_read(t),
    {
        let counts = self.threads.map_values(|thread: Thread| reading(thread));
        assert forall|t: int| !self.holds_read(t) by {
            if 0 <= t < self.threads.len() {
                total_covers_entry(counts, t);
            }
        }
    }

    /// A step keeps who holds the lock as the invariant says.
    proof fn step_keeps_holders(self, after: Model, t: int, woken: int, lucky: bool)
        requires
            self.inv(),
            self.step(after, t, woken, lucky),
        ensures
            forall|a: int, b: int| after.holds_write(a) && after.holds_write(b) ==> a == b,
            after.word == WRITER ==> exists|t: int| after.holds_write(t),
            after.word == WRITER ==> forall|t: int| !after.holds_read(t),
            after.word != WRITER ==> forall|t: int| !after.holds_write(t),
            after.word != WRITER ==> after.word == after.readers(),
    {
        self.readers_after_step(after, t, woken, lucky);
        assert(self.sound(self.threads[t]));
        assert forall|i: int| 0 <= i < self.threads.len() && i != t implies #[trigger] after.threads[i]
            == self.bystander(self.threads[t], self.threads[i], i == woken) by {}
        assert forall|i: int| i != t implies after.holds_write(i) == self.holds_write(i) by {}
        assert forall|i: int| i != t implies after.holds_read(i) == self.holds_read(i) by {}
        if self.word == WRITER {
            let owner = choose|i: int| self.holds_write(i);
            assert(self.holds_write(owner));
            assert(!self.holds_read(t));
            if owner != t {
                assert(after.holds_write(owner));
                assert(!self.holds_write(t));
                assert(after.word == WRITER);
                assert(!after.holds_write(t));
                assert(!after.holds_read(t));
            } else {
                assert(after.word == FREE);
                assert forall|i: int| !after.holds_read(i) by {
                    assert(!self.holds_read(i));
                }
                after.no_reader_counts_zero();
            }
        } else {
            assert(!self.holds_write(t));
            if after.word == WRITER {
                assert(self.threads[t] matches Thread::Writing { phase: WritePhase::Try, .. });
                assert(after.holds_write(t));
                self.zero_count_means_no_reader();
            } else {
                assert(!after.holds_write(t));
            }
        }
    }

    /// A step keeps every thread as [`Model::sound`] says.
    #[verifier::rlimit(50)]
    proof fn step_keeps_threads(self, after: Model, t: int, woken: int, lucky: bool)
        requires
            self.inv(),
            self.step(after, t, woken, lucky),
        ensures
            forall|i: int| 0 <= i < after.threads.len() ==> after.sound(#[trigger] after.threads[i]),
            after.lapped ==> after.increments >= 0x1_0000_0000,
    {
        let before = self.threads[t];
        let then = after.threads[t];
        assert(self.sound(before));
        if self.word == WRITER {
            assert(!self.holds_read(t));
        } else {
            assert(!self.holds_write(t));
        }
        assert forall|i: int| 0 <= i < self.threads.len() && i != t implies #[trigger] after.threads[i]
            == self.bystander(before, self.threads[i], i == woken) by {}
        // Threads that are about to wake the readers stay so, but for the
        // one that wakes them.
        if self.readers_roused() && !(before == Thread::Rousing(Rouse::Readers)) {
            let n = choose|n: int|
                0 <= n < self.threads.len() && rouses_readers(#[trigger] self.threads[n]);
            assert(rouses_readers(after.threads[n]));
            assert(after.readers_roused());
        }
        if rouses_readers(then) {
            assert(after.readers_roused());
        }
        // A thread that is about to increment the wake counter stays so
        // until it does.
        if self.bump_due() && !about_to_bump(before) {
            let n = choose|n: int|
                0 <= n < self.threads.len() && about_to_bump(#[trigger] self.threads[n]);
            assert(about_to_bump(after.threads[n]));
        }
        if about_to_bump(then) {
            assert(after.bump_due());
            assert(helps_writers(after.threads[t]));
        }
        // Threads that help the writers stay so, but for the one that moves.
        if self.writers_helped() {
            let n = choose|n: int|
                0 <= n < self.threads.len() && helps_writers(#[trigger] self.threads[n]);
            if n != t {
                assert(helps_writers(after.threads[n]));
            }
        }
        if self.bump_due() {
            let n = choose|n: int|
                0 <= n < self.threads.len() && about_to_bump(#[trigger] self.threads[n]);
            assert(helps_writers(self.threads[n]));
        }
        if helps_writers(then) {
            assert(after.writers_helped());
        }
        if before matches Thread::Rousing(Rouse::Writer { .. }) {
            if 0 <= woken < self.threads.len() && self.threads[woken] is WriterAsleep {
                assert(helps_writers(after.threads[woken]));
            }
        }
        assert forall|i: int| 0 <= i < after.threads.len() implies after.sound(
            #[trigger] after.threads[i],
        ) by {
            assert(self.sound(self.threads[i]));
            if after.threads[i] is WriterAsleep && i != t {
                assert(self.threads[i] is WriterAsleep);
            }
            if after.threads[i] is ReaderAsleep && i != t {
                assert(self.threads[i] is ReaderAsleep);
            }
        }
    }

    /// Every step keeps [`Model::inv`].
    pub proof fn step_keeps_inv(self, after: Model, t: int, woken: int, lucky: bool)
        requires
            self.inv(),
            self.step(after, t, woken, lucky),
        ensures
            after.inv(),
    {
        self.step_keeps_holders(after, t, woken, lucky);
        self.step_keeps_threads(after, t, woken, lucky);
    }

    /// The first states satisfy [`Model::inv`].
    pub proof fn init_has_inv(self)
        requires
            self.init(),
        ensures
            self.inv(),
    {
        total_of_equal(self.threads.map_values(|thread: Thread| reading(thread)), 0);
        assert(self.threads.len() * 0 == 0) by (nonlinear_arith);
    }

    /// [`Model::inv`] holds of every state of a run.
    pub proof fn run_keeps_inv(states: Seq<Model>, at: int)
        requires
            Self::run(states),
            0 <= at < states.len(),
        ensures
            states[at].inv(),
    {
        let init = |s: Model| s.init();
        let next = |s: Model, t: Model| s.next(t);
        let inv = |s: Model| s.inv();
        assert forall|s: Model| #[trigger] init(s) implies inv(s) by {
            s.init_has_inv();
        }
        assert forall|s: Model, t: Model| inv(s) && #[trigger] next(s, t) implies inv(t) by {
            let who = choose|who: int| s.moves(t, who);
            let (woken, lucky) = choose|woken: int, lucky: bool| s.step(t, who, woken, lucky);
            s.step_keeps_inv(t, who, woken, lucky);
        }
        invariant_holds(states, init, next, inv, at);
    }
}

/// A writer excludes: while thread `w` holds the lock for writing, no thread
/// holds it for reading and no other thread holds it for writing.
pub proof fn writer_excludes(states: Seq<Model>, at: int, w: int, t: int)
    requires
        Model::run(states),
        0 <= at < states.len(),
        states[at].holds_write(w),
    ensures
        !states[at].holds_read(t),
        states[at].holds_write(t) ==> t == w,
{
    Model::run_keeps_inv(states, at);
}

/// Readers share: while no thread holds the lock for writing, the state word
/// is the number of threads that hold the lock for reading, whatever that
/// number is.
pub proof fn readers_are_counted(states: Seq<Model>, at: int)
    requires
        Model::run(states),
        0 <= at < states.len(),
        forall|t: int| !states[at].holds_write(t),
    ensures
        states[at].word == states[at].readers(),
{
    Model::run_keeps_inv(states, at);
    let s = states[at];
    if s.word == WRITER {
        let owner = choose|t: int| s.holds_write(t);
        assert(s.holds_write(owner));
    }
}

/// Readers do not exclude each other: a reader whose exchange finds the
/// count that it expects can take the lock, however many readers hold it,
/// and those keep their hold.
pub proof fn reader_joins_readers(s: Model, t: int) -> (after: Model)
    requires
        s.inv(),
        0 <= t < s.threads.len(),
        s.threads[t] == (Thread::Reading(ReadPhase::Try { readers: s.word })),
    ensures
        s.moves(after, t),
        after.holds_read(t),
        after.readers() == s.readers() + 1,
        forall|u: int| s.holds_read(u) ==> after.holds_read(u),
{
    assert(s.sound(s.threads[t]));
    let after = Model {
        word: (s.word + 1) as u32,
        threads: s.threads.update(t, Thread::Reading(ReadPhase::Held)),
        ..s
    };
    let woken = if exists|i: int| 0 <= i < s.threads.len() && s.threads[i] is WriterAsleep {
        choose|i: int| 0 <= i < s.threads.len() && s.threads[i] is WriterAsleep
    } else {
        0
    };
    assert(s.step(after, t, woken, true));
    s.readers_after_step(after, t, woken, true);
    after
}

/// No reader is stranded: while a reader is asleep on the state word, a
/// writer holds the lock, whose release wakes every reader, or some thread
/// is about to wake every reader.
pub proof fn no_reader_is_stranded(states: Seq<Model>, at: int, t: int)
    requires
        Model::run(states),
        0 <= at < states.len(),
        0 <= t < states[at].threads.len(),
        states[at].threads[t] is ReaderAsleep,
    ensures
        states[at].word == WRITER || states[at].readers_roused(),
{
    Model::run_keeps_inv(states, at);
    assert(states[at].sound(states[at].threads[t]));
}

/// No writer is stranded: while a writer is asleep on the wake counter, the
/// lock is held, so that the release that frees it will wake a writer, or
/// some thread is about to wake a writer, or a writer is about to try for the
/// lock; as long as the wake counter has not come round.
pub proof fn no_writer_is_stranded(states: Seq<Model>, at: int, t: int)
    requires
        Model::run(states),
        0 <= at < states.len(),
        0 <= t < states[at].threads.len(),
        states[at].threads[t] is WriterAsleep,
        !states[at].lapped,
    ensures
        states[at].word != FREE || states[at].writers_helped(),
{
    Model::run_keeps_inv(states, at);
    assert(states[at].sound(states[at].threads[t]));
}

/// The wake counter comes round only after as many increments as a word can
/// count: until then no writer falls asleep having missed one.
pub proof fn lap_takes_many_increments(states: Seq<Model>, at: int)
    requires
        Model::run(states),
        0 <= at < states.len(),
        states[at].increments < 0x1_0000_0000,
    ensures
        !states[at].lapped,
{
    Model::run_keeps_inv(states, at);
}

/// Release on every path: whenever every thread is idle again, the state
/// word is back at `FREE`.
pub proof fn quiet_means_free(states: Seq<Model>, at: int)
    requires
        Model::run(states),
        0 <= at < states.len(),
        states[at].quiet(),
    ensures
        states[at].word == FREE,
{
    let s = states[at];
    assert forall|t: int| !s.holds_write(t) by {
        if 0 <= t < s.threads.len() {
            assert(s.threads[t] == Thread::Idle);
        }
    }
    readers_are_counted(states, at);
    total_of_equal(s.threads.map_values(|thread: Thread| reading(thread)), 0);
    assert(s.threads.len() * 0 == 0) by (nonlinear_arith);
}

/// `states` is a run of `threads` threads that share the lock and a counter
/// that only the thread that holds the lock for writing reads and writes.
pub open spec fn counting_run(states: Seq<Guarded<Model>>, threads: nat) -> bool {
    is_run(
        states,
        |s: Guarded<Model>| s.lock.init() && s.lock.threads.len() == threads && s.ledger.init(threads),
        |s: Guarded<Model>, t: Guarded<Model>|
            s.next(
                t,
                |l: Model, m: Model, w: int| l.moves(m, w),
                |l: Model, w: int| l.holds_write(w),
            ),
    )
}

/// Increments under the write lock add up: once each of the `threads` threads
/// has completed `each` increments of the shared counter, every one of them
/// made while holding the lock for writing, the counter stands at
/// `threads * each`, however the threads were interleaved.
pub proof fn guarded_increments_add_up(
    states: Seq<Guarded<Model>>,
    threads: nat,
    each: nat,
    at: int,
)
    requires
        counting_run(states, threads),
        0 <= at < states.len(),
        forall|t: int| 0 <= t < threads ==> states[at].ledger.done[t] == each,
    ensures
        states[at].ledger.value == threads * each,
{
    let init = |l: Model| l.init() && l.threads.len() == threads;
    let step = |l: Model, m: Model, w: int| l.moves(m, w);
    let holds = |l: Model, w: int| l.holds_write(w);
    let inv = |l: Model| l.inv();
    assert forall|l: Model| #[trigger] init(l) implies inv(l) by {
        l.init_has_inv();
    }
    assert forall|l: Model, m: Model, w: int| inv(l) && #[trigger] step(l, m, w) implies inv(
        m,
    ) by {
        let (woken, lucky) = choose|woken: int, lucky: bool| l.step(m, w, woken, lucky);
        l.step_keeps_inv(m, w, woken, lucky);
    }
    assert(is_run(
        states,
        |s: Guarded<Model>| init(s.lock) && s.ledger.init(threads),
        |s: Guarded<Model>, t: Guarded<Model>| s.next(t, step, holds),
    ));
    increments_add_up(states, init, step, holds, inv, threads, at);
    total_of_equal(states[at].ledger.done, each);
}

} // verus!
