//! A condition variable for threads that share a [`Mutex`].
//!
//! A thread that holds the mutex and finds the shared state not yet as it
//! needs it waits: it gives the mutex up, sleeps, and takes the mutex again.
//! A thread that has changed the state calls [`Condvar::notify_one`] or
//! [`Condvar::notify_all`].  As a wait may last for an unbounded time,
//! [`Condvar::wait`] performs one operation of it per call, as
//! [`Mutex::lock`] does.  Two words are kept: a counter that every
//! notification increments, and the number of threads that are waiting.  A
//! waiting thread loads the counter while it still holds the mutex and
//! sleeps only while the counter is as it loaded it, so a notification that
//! falls between its giving up the mutex and its going to sleep is not lost.
//! A thread may be woken without a notification; the caller tests the state
//! again after every wait.
//!
//! [`Model`] describes any number of threads that wait and notify in any
//! order, and the laws at the end of this file hold of every such run.

use std::sync::atomic::AtomicU32;
use vstd::prelude::*;
use crate::mutex::{LockPhase, Mutex};
use crate::word::{minus, perform, plus, LoadOrder, Op, Order, Seen};
use crate::tally::{total, total_covers_entry, total_of_equal, total_of_flags, total_of_update};
use crate::trace::{is_run, invariant_holds};

verus! {

/// Whether a notifying thread that finds `waiters` waiting threads has
/// anybody to notify.
pub open spec fn waited_on(waiters: u32) -> bool {
    waiters > 0
}

/// Computes [`waited_on`].
pub fn has_waiters(waiters: u32) -> (any: bool)
    ensures
        any == waited_on(waiters),
{
    waiters > 0
}

/// One of the two words of a condition variable.
#[derive(Clone, Copy, Debug, PartialEq, Eq, Structural)]
pub enum Cell {
    /// The counter that every notification increments.
    Counter,
    /// The number of threads that are waiting.
    Waiters,
}

/// What a step of a wait performs.
#[derive(Clone, Copy, Debug, PartialEq, Eq, Structural)]
pub enum WaitOp {
    /// An operation on one of the two words.
    Word { cell: Cell, op: Op },
    /// The release of the mutex, by [`Mutex::unlock`].
    Unlock,
    /// A step of an acquisition of the mutex, by [`Mutex::lock`] from
    /// `phase`.
    Lock { phase: LockPhase },
}

impl WaitOp {
    /// The operation that `self` performs on the word `cell`; nothing where
    /// it is not an operation on that word.
    pub open spec fn on(self, cell: Cell) -> Op {
        match self {
            WaitOp::Word { cell: target, op } => if target == cell {
                op
            } else {
                Op::Nothing
            },
            _ => Op::Nothing,
        }
    }
}

/// Where a wait stands.
#[derive(Clone, Copy, Debug, PartialEq, Eq, Structural)]
pub enum WaitPhase {
    /// Holding the mutex, about to count itself as waiting.
    Register,
    /// Holding the mutex, about to load the counter.
    Stamp,
    /// Holding the mutex, about to release it; `stamp` is the counter as
    /// loaded.
    Release { stamp: u32 },
    /// About to sleep while the counter holds `stamp`.
    Sleep { stamp: u32 },
    /// About to count itself as waiting no more.
    Leave,
    /// Taking the mutex again; `lock` is where that acquisition stands.  The
    /// wait is over once `lock` is [`LockPhase::Held`].
    Relock { lock: LockPhase },
}

impl WaitPhase {
    /// What the phase calls for: a relaxed increment of the number of
    /// waiting threads; a relaxed load of the counter; the release of the
    /// mutex; the sleep while the counter is as loaded; a relaxed decrement
    /// of the number of waiting threads; a step of the acquisition of the
    /// mutex.
    pub open spec fn operation(self) -> WaitOp {
        match self {
            WaitPhase::Register => WaitOp::Word {
                cell: Cell::Waiters,
                op: Op::FetchAdd { value: 1, order: Order::Relaxed },
            },
            WaitPhase::Stamp => WaitOp::Word {
                cell: Cell::Counter,
                op: Op::Load { order: LoadOrder::Relaxed },
            },
            WaitPhase::Release { .. } => WaitOp::Unlock,
            WaitPhase::Sleep { stamp } => WaitOp::Word {
                cell: Cell::Counter,
                op: Op::Wait { expected: stamp },
            },
            WaitPhase::Leave => WaitOp::Word {
                cell: Cell::Waiters,
                op: Op::FetchSub { value: 1, order: Order::Relaxed },
            },
            WaitPhase::Relock { lock } => WaitOp::Lock { phase: lock },
        }
    }

    /// Computes [`WaitPhase::operation`].
    pub fn op(self) -> (op: WaitOp)
        ensures
            op == self.operation(),
    {
        match self {
            WaitPhase::Register => WaitOp::Word {
                cell: Cell::Waiters,
                op: Op::FetchAdd { value: 1, order: Order::Relaxed },
            },
            WaitPhase::Stamp => WaitOp::Word {
                cell: Cell::Counter,
                op: Op::Load { order: LoadOrder::Relaxed },
            },
            WaitPhase::Release { .. } => WaitOp::Unlock,
            WaitPhase::Sleep { stamp } => WaitOp::Word {
                cell: Cell::Counter,
                op: Op::Wait { expected: stamp },
            },
            WaitPhase::Leave => WaitOp::Word {
                cell: Cell::Waiters,
                op: Op::FetchSub { value: 1, order: Order::Relaxed },
            },
            WaitPhase::Relock { lock } => WaitOp::Lock { phase: lock },
        }
    }

    /// The phase that follows `self` once its operation has been performed.
    /// `seen` is the value that a load or a swap found, `ok` says whether a
    /// compare-and-exchange of the mutex succeeded.
    pub open spec fn next(self, ok: bool, seen: u32) -> WaitPhase {
        match self {
            WaitPhase::Register => WaitPhase::Stamp,
            WaitPhase::Stamp => WaitPhase::Release { stamp: seen },
            WaitPhase::Release { stamp } => WaitPhase::Sleep { stamp },
            WaitPhase::Sleep { .. } => WaitPhase::Leave,
            WaitPhase::Leave => WaitPhase::Relock { lock: LockPhase::Start },
            WaitPhase::Relock { lock } => WaitPhase::Relock { lock: lock.next(ok, seen) },
        }
    }

    /// Computes [`WaitPhase::next`].
    pub fn advance(self, ok: bool, seen: u32) -> (after: WaitPhase)
        ensures
            after == self.next(ok, seen),
    {
        match self {
            WaitPhase::Register => WaitPhase::Stamp,
            WaitPhase::Stamp => WaitPhase::Release { stamp: seen },
            WaitPhase::Release { stamp } => WaitPhase::Sleep { stamp },
            WaitPhase::Sleep { .. } => WaitPhase::Leave,
            WaitPhase::Leave => WaitPhase::Relock { lock: LockPhase::Start },
            WaitPhase::Relock { lock } => WaitPhase::Relock { lock: lock.advance(ok, seen) },
        }
    }

    /// The wait is over: the caller holds the mutex again.
    pub open spec fn over(self) -> bool {
        self == (WaitPhase::Relock { lock: LockPhase::Held })
    }

    /// Computes [`WaitPhase::over`].
    pub fn is_over(self) -> (over: bool)
        ensures
            over == self.over(),
    {
        match self {
            WaitPhase::Relock { lock: LockPhase::Held } => true,
            _ => false,
        }
    }
}

/// The operation by which a notifying thread looks for waiting threads: a
/// relaxed load of their number.
pub open spec fn poll() -> Op {
    Op::Load { order: LoadOrder::Relaxed }
}

/// Computes [`poll`].
pub fn poll_op() -> (op: Op)
    ensures
        op == poll(),
{
    Op::Load { order: LoadOrder::Relaxed }
}

/// The operation by which a notifying thread marks its notification: a
/// relaxed increment of the counter.
pub open spec fn announce() -> Op {
    Op::FetchAdd { value: 1, order: Order::Relaxed }
}

/// Computes [`announce`].
pub fn announce_op() -> (op: Op)
    ensures
        op == announce(),
{
    Op::FetchAdd { value: 1, order: Order::Relaxed }
}

/// One step of a wait: what was performed, what it saw, and the phase that
/// follows.
#[derive(Clone, Copy, Debug, PartialEq, Eq, Structural)]
pub struct WaitStep {
    pub performed: WaitOp,
    pub seen: Seen,
    pub after: WaitPhase,
}

/// A notification: the number of waiting threads that it found, and whether
/// it incremented the counter and issued a wake-up.
#[derive(Clone, Copy, Debug, PartialEq, Eq, Structural)]
pub struct Notified {
    pub waiters: u32,
    pub notified: bool,
}

/// The two words of the condition variable.
pub struct Condvar {
    counter: AtomicU32,
    num_waiters: AtomicU32,
}

impl Condvar {
    /// A condition variable on which nobody waits.
    pub fn new() -> Condvar {
        Condvar { counter: AtomicU32::new(0), num_waiters: AtomicU32::new(0) }
    }

    /// Looks for waiting threads by [`poll`]; if any thread is waiting,
    /// marks the notification by [`announce`] and wakes one sleeper.
    pub fn notify_one(&self) -> (out: Notified)
        ensures
            out.notified == waited_on(out.waiters),
    {
        let waiters = perform(&self.num_waiters, poll_op()).value;
        let notified = has_waiters(waiters);
        if notified {
            perform(&self.counter, announce_op());
            perform(&self.counter, Op::WakeOne);
        }
        Notified { waiters, notified }
    }

    /// Looks for waiting threads by [`poll`]; if any thread is waiting,
    /// marks the notification by [`announce`] and wakes every sleeper.
    pub fn notify_all(&self) -> (out: Notified)
        ensures
            out.notified == waited_on(out.waiters),
    {
        let waiters = perform(&self.num_waiters, poll_op()).value;
        let notified = has_waiters(waiters);
        if notified {
            perform(&self.counter, announce_op());
            perform(&self.counter, Op::WakeAll);
        }
        Notified { waiters, notified }
    }

    /// Performs what `phase` calls for, which is [`WaitPhase::operation`],
    /// and moves on by what it saw.  The caller holds `mutex` and starts
    /// from [`WaitPhase::Register`]; the wait counts the caller as waiting,
    /// loads the counter, releases `mutex`, sleeps while the counter is as
    /// loaded, counts the caller as waiting no more and takes `mutex` again.
    /// When the phase that follows [`is over`](WaitPhase::is_over) the
    /// caller holds `mutex` and tests the shared state again.
    pub fn wait(&self, mutex: &Mutex, phase: WaitPhase) -> (step: WaitStep)
        ensures
            step.performed == phase.operation(),
            step.performed matches WaitOp::Word { op, .. } ==> op.reports(step.seen),
            step.after == phase.next(step.seen.ok, step.seen.value),
    {
        let performed = phase.op();
        let seen = match performed {
            WaitOp::Word { cell: Cell::Counter, op } => perform(&self.counter, op),
            WaitOp::Word { cell: Cell::Waiters, op } => perform(&self.num_waiters, op),
            WaitOp::Unlock => Seen { ok: true, value: mutex.unlock().previous },
            WaitOp::Lock { phase: lock } => mutex.lock(lock).seen,
        };
        let after = phase.advance(seen.ok, seen.value);
        WaitStep { performed, seen, after }
    }
}

/// What one thread of the model is doing.  A thread that waits for the shared
/// state to change goes from `Locking` to `Leaving` and back until it finds
/// the state changed; from `Registering` to `Locking` it goes through the
/// phases of [`Condvar::wait`].  A thread that changes the state goes from
/// `Entering` to `Waking`; from `Polling` on it does what
/// [`Condvar::notify_one`] and [`Condvar::notify_all`] do.
pub enum Thread {
    /// Doing nothing with the condition variable.
    Idle,
    /// About to take the mutex, to test the state.
    Locking,
    /// Holding the mutex, about to test the state.
    Testing,
    /// Holding the mutex, having found the state changed; about to release
    /// the mutex.
    Finishing,
    /// Holding the mutex, about to count itself as waiting.
    Registering,
    /// Holding the mutex, about to load the counter.
    Stamping,
    /// Holding the mutex, about to release it.  `stamp` is the counter as
    /// loaded, `missed` the number of increments since.
    Unlocking { stamp: u32, missed: nat },
    /// About to go to sleep if the counter is still `stamp`.
    Dozing { stamp: u32, missed: nat },
    /// Asleep on the counter.  `missed` is the number of increments since
    /// the counter was loaded, `passed` the number of wake-ups that were
    /// issued since the thread fell asleep and woke another sleeper.
    Asleep { stamp: u32, missed: nat, passed: nat },
    /// About to count itself as waiting no more.
    Leaving,
    /// About to take the mutex, to change the state.
    Entering,
    /// Holding the mutex, about to change the state.
    Changing,
    /// Holding the mutex, about to release it.
    Exiting,
    /// About to load the number of waiting threads.  `all` says whether the
    /// notification is for every sleeper.
    Polling { all: bool },
    /// About to increment the counter.
    Bumping { all: bool },
    /// About to wake one sleeper, or every sleeper.
    Waking { all: bool },
}

/// The thread holds the mutex.
pub open spec fn holding(thread: Thread) -> bool {
    thread is Testing || thread is Finishing || thread is Registering || thread is Stamping
        || thread is Unlocking || thread is Changing || thread is Exiting
}

/// One for a thread that counts as waiting, zero for any other.
pub open spec fn registered(thread: Thread) -> nat {
    if thread is Stamping || thread is Unlocking || thread is Dozing || thread is Asleep
        || thread is Leaving {
        1
    } else {
        0
    }
}

/// One for a thread that has incremented the counter and not yet issued its
/// wake-up, zero for any other.
pub open spec fn owing(thread: Thread) -> nat {
    if thread is Waking {
        1
    } else {
        0
    }
}

/// The thread has changed the state, or is notifying without having changed
/// it, and has yet to look for waiting threads or to increment the counter.
pub open spec fn pending(thread: Thread) -> bool {
    thread is Exiting || thread is Polling || thread is Bumping
}

/// What an increment of the counter by another thread does to `thread`: a
/// thread that has loaded the counter has missed one more increment.
pub open spec fn overtaken(thread: Thread) -> Thread {
    match thread {
        Thread::Unlocking { stamp, missed } => Thread::Unlocking { stamp, missed: missed + 1 },
        Thread::Dozing { stamp, missed } => Thread::Dozing { stamp, missed: missed + 1 },
        Thread::Asleep { stamp, missed, passed } => Thread::Asleep {
            stamp,
            missed: missed + 1,
            passed,
        },
        _ => thread,
    }
}

/// What a wake-up of every sleeper does to `thread`.
pub open spec fn roused(thread: Thread) -> Thread {
    if thread is Asleep {
        Thread::Leaving
    } else {
        thread
    }
}

/// What a wake-up of one other sleeper does to `thread`.
pub open spec fn passed_over(thread: Thread) -> Thread {
    match thread {
        Thread::Asleep { stamp, missed, passed } => Thread::Asleep {
            stamp,
            missed,
            passed: passed + 1,
        },
        _ => thread,
    }
}

/// The two words, the mutex and the state it protects, and the threads.
pub struct Model {
    pub counter: u32,
    pub waiters: u32,
    /// The thread that holds the mutex, if any.  The mutex is taken here in
    /// one step; that its own steps let one thread at a time hold it is shown
    /// beside the mutex.
    pub holder: Option<int>,
    /// The shared state has been changed to what the waiting threads need.
    pub changed: bool,
    pub threads: Seq<Thread>,
    /// How often the counter has been incremented.
    pub increments: nat,
    /// Some thread fell asleep although it had missed increments: the
    /// counter had come round to the value that the thread had loaded.
    pub lapped: bool,
}

impl Model {
    /// The number of threads that count as waiting.
    pub open spec fn waiting(self) -> nat {
        total(self.threads.map_values(|thread: Thread| registered(thread)))
    }

    /// The number of wake-ups that are owed: the counter was incremented for
    /// them, and they have not been issued yet.
    pub open spec fn owed(self) -> nat {
        total(self.threads.map_values(|thread: Thread| owing(thread)))
    }

    /// The first state: the words as [`Condvar::new`] leaves them, the mutex
    /// free, the state unchanged, every thread idle.  There are fewer
    /// threads than a word can count.
    pub open spec fn init(self) -> bool {
        &&& self.counter == 0
        &&& self.waiters == 0
        &&& self.holder is None
        &&& !self.changed
        &&& self.threads.len() <= u32::MAX
        &&& forall|t: int| 0 <= t < self.threads.len() ==> self.threads[t] is Idle
        &&& self.increments == 0
        &&& !self.lapped
    }

    /// What the step of a thread in state `thread` does to another thread in
    /// state `other`; `chosen` says whether `other` is the sleeper that a
    /// wake-up of one sleeper has picked.
    pub open spec fn bystander(thread: Thread, other: Thread, chosen: bool) -> Thread {
        match thread {
            Thread::Bumping { .. } => overtaken(other),
            Thread::Waking { all: true } => roused(other),
            Thread::Waking { all: false } => if chosen {
                roused(other)
            } else {
                passed_over(other)
            },
            _ => other,
        }
    }

    /// One atomic operation of thread `t`, in state `thread`, leaves the
    /// words, the mutex and the state as in `after` and the thread in state
    /// `then`.  What a waiting thread does to the two words is what the
    /// operation of its phase, [`WaitPhase::operation`], does to them; a
    /// notifying thread performs [`poll`], [`announce`] and its wake-up.
    pub open spec fn acts(self, after: Model, t: int, thread: Thread, then: Thread) -> bool {
        match thread {
            Thread::Idle => {
                &&& self.same_words(after)
                &&& (then is Locking || then is Entering || then is Polling)
            },
            Thread::Locking => {
                &&& self.holder is None
                &&& after == (Model { holder: Some(t), threads: after.threads, ..self })
                &&& then is Testing
            },
            Thread::Testing => {
                &&& self.same_words(after)
                &&& if self.changed {
                    then is Finishing
                } else {
                    then is Registering
                }
            },
            Thread::Finishing => {
                &&& after == (Model { holder: None, threads: after.threads, ..self })
                &&& then is Idle
            },
            Thread::Registering => {
                &&& after == (Model {
                    waiters: WaitPhase::Register.operation().on(Cell::Waiters).leaves(
                        self.waiters,
                        true,
                    ),
                    threads: after.threads,
                    ..self
                })
                &&& then is Stamping
            },
            Thread::Stamping => {
                &&& self.same_words(after)
                &&& then == Thread::Unlocking {
                    stamp: WaitPhase::Stamp.operation().on(Cell::Counter).sees(
                        self.counter,
                        true,
                    ).value,
                    missed: 0,
                }
            },
            Thread::Unlocking { stamp, missed } => {
                &&& after == (Model { holder: None, threads: after.threads, ..self })
                &&& then == Thread::Dozing { stamp, missed }
            },
            Thread::Dozing { stamp, missed } => if (WaitPhase::Sleep { stamp }).operation().on(
                Cell::Counter,
            ) == (Op::Wait { expected: self.counter }) {
                &&& after == (Model {
                    lapped: self.lapped || missed != 0,
                    threads: after.threads,
                    ..self
                })
                &&& then == Thread::Asleep { stamp, missed, passed: 0 }
            } else {
                &&& self.same_words(after)
                &&& then is Leaving
            },
            Thread::Asleep { .. } => {
                &&& self.same_words(after)
                &&& then is Leaving
            },
            Thread::Leaving => {
                &&& after == (Model {
                    waiters: WaitPhase::Leave.operation().on(Cell::Waiters).leaves(
                        self.waiters,
                        true,
                    ),
                    threads: after.threads,
                    ..self
                })
                &&& then is Locking
            },
            Thread::Entering => {
                &&& self.holder is None
                &&& after == (Model { holder: Some(t), threads: after.threads, ..self })
                &&& then is Changing
            },
            Thread::Changing => {
                &&& after == (Model { changed: true, threads: after.threads, ..self })
                &&& then is Exiting
            },
            Thread::Exiting => {
                &&& after == (Model { holder: None, threads: after.threads, ..self })
                &&& then is Polling
            },
            Thread::Polling { all } => {
                &&& self.same_words(after)
                &&& if waited_on(poll().sees(self.waiters, true).value) {
                    then == (Thread::Bumping { all })
                } else {
                    then is Idle
                }
            },
            Thread::Bumping { all } => {
                &&& after == (Model {
                    counter: announce().leaves(self.counter, true),
                    increments: self.increments + 1,
                    threads: after.threads,
                    ..self
                })
                &&& then == (Thread::Waking { all })
            },
            Thread::Waking { .. } => {
                &&& self.same_words(after)
                &&& then is Idle
            },
        }
    }

    /// `after` differs from `self` in its threads at most.
    pub open spec fn same_words(self, after: Model) -> bool {
        after == (Model { threads: after.threads, ..self })
    }

    /// Thread `t` performs its next atomic operation.  `woken` is the sleeper
    /// that a wake-up of one sleeper picks; where there is no such wake-up
    /// it is of no account, and where no thread is asleep none is picked.
    pub open spec fn step(self, after: Model, t: int, woken: int) -> bool {
        &&& 0 <= t < self.threads.len()
        &&& after.threads.len() == self.threads.len()
        &&& self.acts(after, t, self.threads[t], after.threads[t])
        &&& (0 <= woken < self.threads.len() && self.threads[woken] is Asleep) || forall|i: int|
            0 <= i < self.threads.len() ==> !(#[trigger] self.threads[i] is Asleep)
        &&& forall|i: int|
            0 <= i < self.threads.len() && i != t ==> #[trigger] after.threads[i]
                == Self::bystander(self.threads[t], self.threads[i], i == woken)
    }

    /// Some thread performs its next atomic operation.
    pub open spec fn next(self, after: Model) -> bool {
        exists|t: int, woken: int| self.step(after, t, woken)
    }

    /// Some thread has yet to look for waiting threads or to increment the
    /// counter.
    pub open spec fn notifier_pending(self) -> bool {
        exists|n: int| 0 <= n < self.threads.len() && pending(#[trigger] self.threads[n])
    }

    /// What holds of a thread in state `thread`.  A waiting thread that
    /// holds the mutex has found the state unchanged.  The counter is what a
    /// thread has loaded, plus the increments it has missed.  A thread that
    /// is asleep has missed no more increments than wake-ups are owed or
    /// went to others, unless the counter has come round.  And where the
    /// state was changed while a thread that is about to sleep, or asleep,
    /// has missed no increment, some thread has yet to notify.
    pub open spec fn sound(self, thread: Thread) -> bool {
        match thread {
            Thread::Registering | Thread::Stamping => !self.changed,
            Thread::Unlocking { stamp, missed } => {
                &&& !self.changed
                &&& (stamp + missed) % 0x1_0000_0000 == self.counter
                &&& missed <= self.increments
            },
            Thread::Dozing { stamp, missed } => {
                &&& (stamp + missed) % 0x1_0000_0000 == self.counter
                &&& missed <= self.increments
                &&& self.changed && missed == 0 ==> self.notifier_pending()
            },
            Thread::Asleep { stamp, missed, passed } => {
                &&& (stamp + missed) % 0x1_0000_0000 == self.counter
                &&& missed <= self.increments
                &&& !self.lapped ==> missed <= self.owed() + passed
                &&& self.changed && missed == 0 ==> self.notifier_pending()
            },
            _ => true,
        }
    }

    /// What holds of every state of every run: the number of waiting threads
    /// is what the word says, the mutex is held by the thread that the steps
    /// say, every thread is as [`Model::sound`] says, and the counter has
    /// come round only after as many increments as a word can count.
    pub open spec fn inv(self) -> bool {
        &&& self.threads.len() <= u32::MAX
        &&& self.waiters == self.waiting()
        &&& forall|t: int|
            0 <= t < self.threads.len() ==> (holding(#[trigger] self.threads[t]) <==> self.holder
                == Some(t))
        &&& forall|t: int| 0 <= t < self.threads.len() ==> self.sound(#[trigger] self.threads[t])
        &&& self.lapped ==> self.increments >= 0x1_0000_0000
    }

    /// `states` is a run of the model.
    pub open spec fn run(states: Seq<Model>) -> bool {
        is_run(states, |s: Model| s.init(), |s: Model, t: Model| s.next(t))
    }

    /// A step of thread `t` changes the number of waiting threads, and the
    /// number of wake-ups owed, by what it changes of thread `t`.
    proof fn counts_after_step(self, after: Model, t: int, woken: int)
        requires
            self.step(after, t, woken),
        ensures
            after.waiting() + registered(self.threads[t]) == self.waiting() + registered(
                after.threads[t],
            ),
            after.owed() + owing(self.threads[t]) == self.owed() + owing(after.threads[t]),
            registered(self.threads[t]) <= self.waiting(),
            owing(self.threads[t]) <= self.owed(),
            after.waiting() <= after.threads.len(),
    {
        let reg = |thread: Thread| registered(thread);
        let owe = |thread: Thread| owing(thread);
        assert forall|i: int| 0 <= i < self.threads.len() && i != t implies registered(
            after.threads[i],
        ) == registered(self.threads[i]) && owing(after.threads[i]) == owing(
            self.threads[i],
        ) by {
            assert(after.threads[i] == Self::bystander(
                self.threads[t],
                self.threads[i],
                i == woken,
            ));
        }
        assert(after.threads.map_values(reg) =~= self.threads.map_values(reg).update(
            t,
            registered(after.threads[t]),
        ));
        assert(after.threads.map_values(owe) =~= self.threads.map_values(owe).update(
            t,
            owing(after.threads[t]),
        ));
        total_of_update(self.threads.map_values(reg), t, registered(after.threads[t]));
        total_of_update(self.threads.map_values(owe), t, owing(after.threads[t]));
        total_covers_entry(self.threads.map_values(reg), t);
        total_covers_entry(self.threads.map_values(owe), t);
        total_of_flags(after.threads.map_values(reg));
    }

    /// A thread that counts as waiting is counted.
    proof fn waiter_is_counted(self, t: int)
        requires
            0 <= t < self.threads.len(),
            registered(self.threads[t]) == 1,
        ensures
            self.waiting() >= 1,
    {
        total_covers_entry(self.threads.map_values(|thread: Thread| registered(thread)), t);
    }

    /// What a step of a thread in state `before` does to the two words.
    proof fn words_after_step(self, after: Model, t: int, woken: int)
        requires
            self.step(after, t, woken),
        ensures
            after.counter == if self.threads[t] is Bumping {
                plus(self.counter, 1)
            } else {
                self.counter
            },
            after.waiters == if self.threads[t] is Registering {
                plus(self.waiters, 1)
            } else if self.threads[t] is Leaving {
                minus(self.waiters, 1)
            } else {
                self.waiters
            },
            self.threads[t] is Stamping ==> after.threads[t] == (Thread::Unlocking {
                stamp: self.counter,
                missed: 0,
            }),
            self.threads[t] is Dozing ==> (after.threads[t] is Asleep <==> self.counter
                == self.threads[t]->Dozing_stamp),
            self.threads[t] is Polling ==> (after.threads[t] is Bumping <==> waited_on(
                self.waiters,
            )),
    {
    }

    /// A step keeps the number of waiting threads in its word, and the mutex
    /// with the thread that the steps say.
    proof fn step_keeps_counts(self, after: Model, t: int, woken: int)
        requires
            self.inv(),
            self.step(after, t, woken),
        ensures
            after.threads.len() <= u32::MAX,
            after.waiters == after.waiting(),
            forall|i: int|
                0 <= i < after.threads.len() ==> (holding(#[trigger] after.threads[i])
                    <==> after.holder == Some(i)),
    {
        self.counts_after_step(after, t, woken);
        self.words_after_step(after, t, woken);
        assert forall|i: int| 0 <= i < self.threads.len() && i != t implies holding(
            #[trigger] after.threads[i],
        ) == holding(self.threads[i]) by {
            assert(after.threads[i] == Self::bystander(
                self.threads[t],
                self.threads[i],
                i == woken,
            ));
        }
        assert forall|i: int| 0 <= i < after.threads.len() implies (holding(
            #[trigger] after.threads[i],
        ) <==> after.holder == Some(i)) by {
            assert(holding(self.threads[i]) <==> self.holder == Some(i));
            assert(holding(self.threads[t]) <==> self.holder == Some(t));
        }
    }

    /// A step keeps every thread as [`Model::sound`] says.
    #[verifier::rlimit(100)]
    proof fn step_keeps_threads(self, after: Model, t: int, woken: int)
        requires
            self.inv(),
            self.step(after, t, woken),
        ensures
            forall|i: int| 0 <= i < after.threads.len() ==> after.sound(#[trigger] after.threads[i]),
            after.lapped ==> after.increments >= 0x1_0000_0000,
    {
        let before = self.threads[t];
        let then = after.threads[t];
        self.counts_after_step(after, t, woken);
        self.words_after_step(after, t, woken);
        assert(self.sound(before));
        assert(holding(before) <==> self.holder == Some(t));
        assert forall|i: int| 0 <= i < self.threads.len() && i != t implies #[trigger] after.threads[i]
            == Self::bystander(before, self.threads[i], i == woken) by {}
        assert forall|i: int| 0 <= i < self.threads.len() && i != t implies pending(
            #[trigger] after.threads[i],
        ) == pending(self.threads[i]) by {}
        if self.notifier_pending() && (pending(before) ==> pending(then)) {
            let n = choose|n: int| 0 <= n < self.threads.len() && pending(#[trigger] self.threads[n]);
            assert(pending(after.threads[n]));
            assert(after.notifier_pending());
        }
        if pending(then) {
            assert(after.notifier_pending());
        }
        if before is Polling && !waited_on(self.waiters) {
            assert forall|i: int| 0 <= i < self.threads.len() implies registered(
                #[trigger] self.threads[i],
            ) == 0 by {
                if registered(self.threads[i]) == 1 {
                    self.waiter_is_counted(i);
                }
            }
        }
        if before is Changing {
            assert forall|i: int| 0 <= i < self.threads.len() && i != t implies !holding(
                #[trigger] self.threads[i],
            ) by {
                assert(holding(self.threads[i]) <==> self.holder == Some(i));
            }
        }
        assert forall|i: int| 0 <= i < after.threads.len() implies after.sound(
            #[trigger] after.threads[i],
        ) by {
            assert(self.sound(self.threads[i]));
        }
    }

    /// Every step keeps [`Model::inv`].
    pub proof fn step_keeps_inv(self, after: Model, t: int, woken: int)
        requires
            self.inv(),
            self.step(after, t, woken),
        ensures
            after.inv(),
    {
        self.step_keeps_counts(after, t, woken);
        self.step_keeps_threads(after, t, woken);
    }

    /// [`Model::inv`] holds of every state of a run.
    pub proof fn run_keeps_inv(states: Seq<Model>, at: int)
        requires
            Self::run(states),
            0 <= at < states.len(),
        ensures
            states[at].inv(),
    {
        let init = |s: Model| s.init();
        let next = |s: Model, t: Model| s.next(t);
        let inv = |s: Model| s.inv();
        assert forall|s: Model| #[trigger] init(s) implies inv(s) by {
            total_of_equal(s.threads.map_values(|thread: Thread| registered(thread)), 0);
            assert(s.threads.len() * 0 == 0) by (nonlinear_arith);
        }
        assert forall|s: Model, t: Model| inv(s) && #[trigger] next(s, t) implies inv(t) by {
            let (who, woken) = choose|who: int, woken: int| s.step(t, who, woken);
            s.step_keeps_inv(t, who, woken);
        }
        invariant_holds(states, init, next, inv, at);
    }
}

/// A waiting thread is seen: from the moment a thread has counted itself as
/// waiting until it counts itself out, a thread that looks for waiting
/// threads finds the word above zero, and so goes on to notify.
pub proof fn waiting_thread_is_seen(states: Seq<Model>, at: int, t: int)
    requires
        Model::run(states),
        0 <= at < states.len(),
        0 <= t < states[at].threads.len(),
        registered(states[at].threads[t]) == 1,
    ensures
        waited_on(states[at].waiters),
{
    Model::run_keeps_inv(states, at);
    states[at].waiter_is_counted(t);
}

/// A sleeper has missed nothing that is not on its way: a thread that is
/// asleep has missed no more increments of the counter than wake-ups are
/// still owed or have gone to other sleepers, as long as the counter has not
/// come round.
pub proof fn sleeper_is_owed(states: Seq<Model>, at: int, t: int)
    requires
        Model::run(states),
        0 <= at < states.len(),
        0 <= t < states[at].threads.len(),
        states[at].threads[t] is Asleep,
        !states[at].lapped,
    ensures
        states[at].threads[t]->Asleep_missed <= states[at].owed()
            + states[at].threads[t]->Asleep_passed,
{
    Model::run_keeps_inv(states, at);
    assert(states[at].sound(states[at].threads[t]));
}

/// No wake-up is lost: once the state has been changed and every thread that
/// set out to notify has finished, no thread is left asleep, unless a
/// wake-up that was meant for one sleeper went to another, and as long as the
/// counter has not come round.
pub proof fn no_lost_wakeup(states: Seq<Model>, at: int, t: int)
    requires
        Model::run(states),
        0 <= at < states.len(),
        0 <= t < states[at].threads.len(),
        states[at].threads[t] is Asleep,
        states[at].changed,
        forall|n: int|
            0 <= n < states[at].threads.len() ==> !pending(#[trigger] states[at].threads[n])
                && !(states[at].threads[n] is Waking),
        !states[at].lapped,
    ensures
        states[at].threads[t]->Asleep_passed >= 1,
{
    let s = states[at];
    Model::run_keeps_inv(states, at);
    assert(s.sound(s.threads[t]));
    let owe = s.threads.map_values(|thread: Thread| owing(thread));
    assert forall|i: int| 0 <= i < owe.len() implies owe[i] == 0 by {
        assert(!(s.threads[i] is Waking));
    }
    total_of_equal(owe, 0);
    assert(owe.len() * 0 == 0) by (nonlinear_arith);
}

/// The counter comes round only after as many increments as a word can
/// count: until then no thread falls asleep having missed one.
pub proof fn lap_takes_many_increments(states: Seq<Model>, at: int)
    requires
        Model::run(states),
        0 <= at < states.len(),
        states[at].increments < 0x1_0000_0000,
    ensures
        !states[at].lapped,
{
    Model::run_keeps_inv(states, at);
}

/// No thread but `t` has been asleep in any state up to state `at`.
pub open spec fn only_sleeper(states: Seq<Model>, at: int, t: int) -> bool {
    forall|i: int, u: int|
        0 <= i <= at && 0 <= u < states[i].threads.len() && u != t ==> !(
        #[trigger] states[i].threads[u] is Asleep)
}

/// While no other thread sleeps, no wake-up passes a sleeper over.
pub proof fn lone_sleeper_is_not_passed_over(states: Seq<Model>, at: int, t: int)
    requires
        Model::run(states),
        0 <= at < states.len(),
        0 <= t < states[at].threads.len(),
        only_sleeper(states, at, t),
        states[at].threads[t] is Asleep,
    ensures
        states[at].threads[t]->Asleep_passed == 0,
    decreases at,
{
    if at > 0 {
        let before = states[at - 1];
        let now = states[at];
        assert(before.next(states[at - 1 + 1]));
        let (who, woken) = choose|who: int, woken: int| before.step(now, who, woken);
        if before.threads[t] is Asleep {
            lone_sleeper_is_not_passed_over(states, at - 1, t);
            assert(who != t);
            assert(now.threads[t] == Model::bystander(
                before.threads[who],
                before.threads[t],
                t == woken,
            ));
            if before.threads[who] matches (Thread::Waking { all: false }) {
                assert(woken != t);
                assert(!(before.threads[woken] is Asleep));
            }
        } else {
            if who != t {
                assert(now.threads[t] == Model::bystander(
                    before.threads[who],
                    before.threads[t],
                    t == woken,
                ));
            }
        }
    }
}

/// No wake-up is lost on the one thread that waits: while no other thread
/// sleeps, a thread is not asleep once the state has been changed and every
/// thread that set out to notify has finished, as long as the counter has
/// not come round.
pub proof fn lone_waiter_is_woken(states: Seq<Model>, at: int, t: int)
    requires
        Model::run(states),
        0 <= at < states.len(),
        0 <= t < states[at].threads.len(),
        only_sleeper(states, at, t),
        states[at].changed,
        forall|n: int|
            0 <= n < states[at].threads.len() ==> !pending(#[trigger] states[at].threads[n])
                && !(states[at].threads[n] is Waking),
        !states[at].lapped,
    ensures
        !(states[at].threads[t] is Asleep),
{
    if states[at].threads[t] is Asleep {
        no_lost_wakeup(states, at, t);
        lone_sleeper_is_not_passed_over(states, at, t);
    }
}

} // verus!
