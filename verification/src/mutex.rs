//! A blocking mutual-exclusion lock over one 32-bit state word.
//!
//! The word holds [`UNLOCKED`], [`LOCKED`] or [`CONTENDED`].  A thread that
//! releases the lock enters the operating system to wake a sleeper only when
//! it finds [`CONTENDED`], so an uncontended release costs one atomic swap.
//!
//! An acquisition may have to wait for another thread for an unbounded time,
//! so it is offered one atomic operation at a time: [`Mutex::lock`] takes the
//! [`LockPhase`] an acquisition is in, performs the one operation that phase
//! calls for, which is [`LockPhase::operation`], and returns the phase that
//! follows.  The caller repeats the call until the phase is
//! [`LockPhase::Held`].
//!
//! [`Model`] describes any number of threads that take these steps in any
//! order, and the laws at the end of this file hold of every such run.

use std::sync::atomic::AtomicU32;
use vstd::prelude::*;
use crate::word::{perform, LoadOrder, Op, Order, Seen};
use crate::tally::{increments_add_up, total_of_equal, Guarded};
use crate::trace::{is_run, invariant_holds};

verus! {

/// The state word of a lock that nobody holds.
pub const UNLOCKED: u32 = 0;

/// The state word of a lock that is held while no thread is known to wait.
pub const LOCKED: u32 = 1;

/// The state word of a lock that is held while other threads may be asleep
/// on it.
pub const CONTENDED: u32 = 2;

/// How often a contended acquisition polls the word before it goes to sleep.
pub const SPIN_LIMIT: u32 = 100;

/// Where an acquisition stands.
#[derive(Clone, Copy, Debug, PartialEq, Eq, Structural)]
pub enum LockPhase {
    /// About to try the uncontended exchange of `UNLOCKED` for `LOCKED`.
    Start,
    /// Polling the word; `spins` polls have found it `LOCKED` so far.
    Spin { spins: u32 },
    /// About to try the exchange of `UNLOCKED` for `LOCKED` once more.
    Retry,
    /// About to swap `CONTENDED` into the word.
    Claim,
    /// About to sleep while the word holds `CONTENDED`.
    Park,
    /// The lock is held.
    Held,
}

impl LockPhase {
    /// The operation on the state word that the phase calls for: the
    /// exchange of `UNLOCKED` for `LOCKED`, acquiring on success; a relaxed
    /// load; the acquiring swap of `CONTENDED`; the sleep while the word is
    /// `CONTENDED`; nothing once the lock is held.
    pub open spec fn operation(self) -> Op {
        match self {
            LockPhase::Start | LockPhase::Retry => Op::CompareExchange {
                current: UNLOCKED,
                new: LOCKED,
                success: Order::Acquire,
                failure: LoadOrder::Relaxed,
            },
            LockPhase::Spin { .. } => Op::Load { order: LoadOrder::Relaxed },
            LockPhase::Claim => Op::Swap { value: CONTENDED, order: Order::Acquire },
            LockPhase::Park => Op::Wait { expected: CONTENDED },
            LockPhase::Held => Op::Nothing,
        }
    }

    /// Computes [`LockPhase::operation`].
    pub fn op(self) -> (op: Op)
        ensures
            op == self.operation(),
    {
        match self {
            LockPhase::Start | LockPhase::Retry => Op::CompareExchange {
                current: UNLOCKED,
                new: LOCKED,
                success: Order::Acquire,
                failure: LoadOrder::Relaxed,
            },
            LockPhase::Spin { .. } => Op::Load { order: LoadOrder::Relaxed },
            LockPhase::Claim => Op::Swap { value: CONTENDED, order: Order::Acquire },
            LockPhase::Park => Op::Wait { expected: CONTENDED },
            LockPhase::Held => Op::Nothing,
        }
    }

    /// The phase that follows `self` once its operation has been performed.
    /// `ok` says whether a compare-and-exchange succeeded, `seen` is the
    /// value that a load or a swap found in the word; a phase ignores the
    /// one that its operation does not produce.
    pub open spec fn next(self, ok: bool, seen: u32) -> LockPhase {
        match self {
            LockPhase::Start => if ok { LockPhase::Held } else { LockPhase::Spin { spins: 0 } },
            LockPhase::Spin { spins } => if seen == LOCKED && spins < SPIN_LIMIT {
                LockPhase::Spin { spins: (spins + 1) as u32 }
            } else {
                LockPhase::Retry
            },
            LockPhase::Retry => if ok { LockPhase::Held } else { LockPhase::Claim },
            LockPhase::Claim => if seen == UNLOCKED { LockPhase::Held } else { LockPhase::Park },
            LockPhase::Park => LockPhase::Claim,
            LockPhase::Held => LockPhase::Held,
        }
    }

    /// Computes [`LockPhase::next`].
    pub fn advance(self, ok: bool, seen: u32) -> (after: LockPhase)
        ensures
            after == self.next(ok, seen),
    {
        match self {
            LockPhase::Start => if ok { LockPhase::Held } else { LockPhase::Spin { spins: 0 } },
            LockPhase::Spin { spins } => if seen == LOCKED && spins < SPIN_LIMIT {
                LockPhase::Spin { spins: spins + 1 }
            } else {
                LockPhase::Retry
            },
            LockPhase::Retry => if ok { LockPhase::Held } else { LockPhase::Claim },
            LockPhase::Claim => if seen == UNLOCKED { LockPhase::Held } else { LockPhase::Park },
            LockPhase::Park => LockPhase::Claim,
            LockPhase::Held => LockPhase::Held,
        }
    }
}

/// Whether a release that found `previous` in the word owes a wake-up: only
/// then may a thread be asleep on the word.
pub open spec fn wakes(previous: u32) -> bool {
    previous == CONTENDED
}

/// Computes [`wakes`].
pub fn must_wake(previous: u32) -> (wake: bool)
    ensures
        wake == wakes(previous),
{
    previous == CONTENDED
}

/// The operation on the state word by which the holder releases the lock:
/// the releasing swap of `UNLOCKED`.
pub open spec fn release() -> Op {
    Op::Swap { value: UNLOCKED, order: Order::Release }
}

/// Computes [`release`].
pub fn release_op() -> (op: Op)
    ensures
        op == release(),
{
    Op::Swap { value: UNLOCKED, order: Order::Release }
}

/// One step of an acquisition: the operation that was performed, what it
/// saw, and the phase that follows.
#[derive(Clone, Copy, Debug, PartialEq, Eq, Structural)]
pub struct LockStep {
    pub performed: Op,
    pub seen: Seen,
    pub after: LockPhase,
}

/// A release: the word that the swap found, and whether a wake-up was
/// issued.
#[derive(Clone, Copy, Debug, PartialEq, Eq, Structural)]
pub struct Released {
    pub previous: u32,
    pub woke: bool,
}

/// The lock itself: the state word.  The value that the lock protects is kept
/// beside it by the owner of the lock.
pub struct Mutex {
    state: AtomicU32,
}

impl Mutex {
    /// An unlocked mutex.
    pub fn new() -> Mutex {
        Mutex { state: AtomicU32::new(UNLOCKED) }
    }

    /// Performs the operation that `phase` calls for on the state word and
    /// moves on by what it saw.  Starting from [`LockPhase::Start`], the
    /// caller holds the lock once the phase that follows is
    /// [`LockPhase::Held`].  A thread that polls again is told to the
    /// processor as spinning.
    pub fn lock(&self, phase: LockPhase) -> (step: LockStep)
        ensures
            step.performed == phase.operation(),
            step.performed.reports(step.seen),
            step.after == phase.next(step.seen.ok, step.seen.value),
    {
        let performed = phase.op();
        let seen = perform(&self.state, performed);
        let after = phase.advance(seen.ok, seen.value);
        if let LockPhase::Spin { spins } = after {
            if spins > 0 {
                std::hint::spin_loop();
            }
        }
        LockStep { performed, seen, after }
    }

    /// Releases the lock by [`release`], and wakes one sleeper if the word
    /// that the swap found says that one may be asleep.  Only the thread
    /// that holds the lock may call this.
    pub fn unlock(&self) -> (released: Released)
        ensures
            released.woke == wakes(released.previous),
    {
        let seen = perform(&self.state, release_op());
        let woke = must_wake(seen.value);
        if woke {
            perform(&self.state, Op::WakeOne);
        }
        Released { previous: seen.value, woke }
    }
}

/// What one thread of the model is doing.
pub enum Thread {
    /// Neither holding the lock nor asking for it.
    Idle,
    /// Acquiring the lock, or holding it once the phase is `Held`.
    Locking(LockPhase),
    /// Asleep in the operation of the phase `Park`.
    Asleep,
    /// The lock is released; the wake-up that the release owes is still to
    /// be issued.
    Waking,
}

/// The state word and the threads that share it.
pub struct Model {
    pub word: u32,
    pub threads: Seq<Thread>,
}

impl Model {
    /// Thread `t` holds the lock.
    pub open spec fn holds(self, t: int) -> bool {
        0 <= t < self.threads.len() && self.threads[t] == Thread::Locking(LockPhase::Held)
    }

    /// Thread `t` is asleep on the word.
    pub open spec fn sleeps(self, t: int) -> bool {
        0 <= t < self.threads.len() && self.threads[t] is Asleep
    }

    /// Thread `t` is about to wake a sleeper, or about to mark the word as
    /// contended.
    pub open spec fn rescues(self, t: int) -> bool {
        0 <= t < self.threads.len() && (self.threads[t] is Waking || self.threads[t]
            == Thread::Locking(LockPhase::Claim))
    }

    /// No thread holds the lock, asks for it or owes a wake-up.
    pub open spec fn quiet(self) -> bool {
        forall|t: int| 0 <= t < self.threads.len() ==> self.threads[t] == Thread::Idle
    }

    /// The first state: the word as [`Mutex::new`] leaves it, every thread
    /// idle.
    pub open spec fn init(self) -> bool {
        self.word == UNLOCKED && self.quiet()
    }

    /// The operation that a thread in state `thread` performs next: that of
    /// its phase while it acquires, the release while it holds the lock, the
    /// wake-up that its release owes.
    pub open spec fn operation(thread: Thread) -> Op {
        match thread {
            Thread::Locking(LockPhase::Held) => release(),
            Thread::Locking(phase) => phase.operation(),
            Thread::Asleep => LockPhase::Park.operation(),
            Thread::Waking => Op::WakeOne,
            Thread::Idle => Op::Nothing,
        }
    }

    /// The word after thread-state `thread` has taken its step on `word`.
    pub open spec fn word_after(thread: Thread, word: u32) -> u32 {
        Self::operation(thread).leaves(word, true)
    }

    /// What thread-state `thread` becomes by taking its step on `word`: an
    /// idle thread starts an acquisition, an acquisition advances by
    /// [`LockPhase::next`] on what its operation sees, the holder releases
    /// as [`Mutex::unlock`] does.  A thread whose phase is `Park` falls
    /// asleep if the word is what its operation expects; a thread that is
    /// asleep may wake at any time, and then goes on from `Park`.
    pub open spec fn thread_after(thread: Thread, word: u32) -> Thread {
        let seen = Self::operation(thread).sees(word, true);
        match thread {
            Thread::Idle => Thread::Locking(LockPhase::Start),
            Thread::Locking(LockPhase::Held) => if wakes(seen.value) {
                Thread::Waking
            } else {
                Thread::Idle
            },
            Thread::Locking(LockPhase::Park) => if Self::operation(thread) == (Op::Wait {
                expected: word,
            }) {
                Thread::Asleep
            } else {
                Thread::Locking(LockPhase::Park.next(seen.ok, seen.value))
            },
            Thread::Locking(phase) => Thread::Locking(phase.next(seen.ok, seen.value)),
            Thread::Asleep => Thread::Locking(LockPhase::Park.next(seen.ok, seen.value)),
            Thread::Waking => Thread::Idle,
        }
    }

    /// Thread `t` performs its next atomic operation.  Where that is the
    /// wake-up that a release owes, and some thread is asleep, `woken` is a
    /// sleeper and wakes; no other thread moves.
    pub open spec fn step(self, after: Model, t: int, woken: int) -> bool {
        &&& 0 <= t < self.threads.len()
        &&& after.word == Self::word_after(self.threads[t], self.word)
        &&& self.sleeps(woken) || forall|i: int| !self.sleeps(i)
        &&& after.threads == if self.threads[t] is Waking && self.sleeps(woken) {
            self.threads.update(t, Self::thread_after(self.threads[t], self.word)).update(
                woken,
                Self::thread_after(Thread::Asleep, self.word),
            )
        } else {
            self.threads.update(t, Self::thread_after(self.threads[t], self.word))
        }
    }

    /// Thread `t` performs its next atomic operation.
    pub open spec fn moves(self, after: Model, t: int) -> bool {
        exists|woken: int| self.step(after, t, woken)
    }

    /// Some thread performs its next atomic operation.
    pub open spec fn next(self, after: Model) -> bool {
        exists|t: int| self.moves(after, t)
    }

    /// What holds of every state of every run: the word is one of the three
    /// values, it is `UNLOCKED` exactly when nobody holds the lock, no two
    /// threads hold it, and while a thread is asleep the word is `CONTENDED`
    /// or some thread is about to wake a sleeper or to make the word
    /// `CONTENDED`.
    pub open spec fn inv(self) -> bool {
        &&& self.word == UNLOCKED || self.word == LOCKED || self.word == CONTENDED
        &&& self.word != UNLOCKED ==> exists|t: int| self.holds(t)
        &&& self.word == UNLOCKED ==> forall|t: int| !self.holds(t)
        &&& forall|a: int, b: int| self.holds(a) && self.holds(b) ==> a == b
        &&& (exists|t: int| self.sleeps(t)) ==> self.word == CONTENDED || exists|t: int|
            self.rescues(t)
    }

    /// `states` is a run of the model.
    pub open spec fn run(states: Seq<Model>) -> bool {
        is_run(states, |s: Model| s.init(), |s: Model, t: Model| s.next(t))
    }

    /// Every step keeps [`Model::inv`].
    pub proof fn step_keeps_inv(self, after: Model, t: int, woken: int)
        requires
            self.inv(),
            self.step(after, t, woken),
        ensures
            after.inv(),
    {
        assert forall|i: int| 0 <= i < self.threads.len() && i != t implies after.holds(i)
            == self.holds(i) by {}
        if self.word != UNLOCKED {
            let owner = choose|i: int| self.holds(i);
            if owner != t {
                assert(after.holds(owner));
                assert(!self.holds(t));
            }
        } else {
            assert(!self.holds(t));
        }
        if after.word != UNLOCKED && self.word == UNLOCKED {
            assert(after.holds(t));
        }
        if exists|i: int| after.sleeps(i) {
            let sleeper = choose|i: int| after.sleeps(i);
            if after.word != CONTENDED {
                if self.threads[t] is Waking {
                    assert(self.sleeps(sleeper));
                    assert(self.sleeps(woken));
                    assert(after.rescues(woken));
                } else if self.threads[t] == Thread::Locking(LockPhase::Held) {
                    if wakes(self.word) {
                        assert(after.rescues(t));
                    } else {
                        assert(self.sleeps(sleeper));
                        let helper = choose|i: int| self.rescues(i);
                        assert(after.rescues(helper));
                    }
                } else if self.threads[t] is Asleep {
                    assert(after.rescues(t));
                } else {
                    assert(self.sleeps(sleeper));
                    let helper = choose|i: int| self.rescues(i);
                    assert(after.rescues(helper));
                }
            }
        }
    }

    /// [`Model::inv`] holds of every state of a run.
    pub proof fn run_keeps_inv(states: Seq<Model>, at: int)
        requires
            Self::run(states),
            0 <= at < states.len(),
        ensures
            states[at].inv(),
    {
        let init = |s: Model| s.init();
        let next = |s: Model, t: Model| s.next(t);
        let inv = |s: Model| s.inv();
        assert forall|s: Model| #[trigger] init(s) implies inv(s) by {
            assert forall|t: int| !s.sleeps(t) by {}
        }
        assert forall|s: Model, t: Model| inv(s) && #[trigger] next(s, t) implies inv(t) by {
            let who = choose|who: int| s.moves(t, who);
            let woken = choose|woken: int| s.step(t, who, woken);
            s.step_keeps_inv(t, who, woken);
        }
        invariant_holds(states, init, next, inv, at);
    }
}

/// Mutual exclusion: in no state of any run do two threads hold the lock.
pub proof fn mutual_exclusion(states: Seq<Model>, at: int, a: int, b: int)
    requires
        Model::run(states),
        0 <= at < states.len(),
        states[at].holds(a),
        states[at].holds(b),
    ensures
        a == b,
{
    Model::run_keeps_inv(states, at);
}

/// Release on every path: whenever every thread is idle again, however the
/// acquisitions and releases before were interleaved, the word is back at
/// `UNLOCKED`.
pub proof fn quiet_means_unlocked(states: Seq<Model>, at: int)
    requires
        Model::run(states),
        0 <= at < states.len(),
        states[at].quiet(),
    ensures
        states[at].word == UNLOCKED,
{
    Model::run_keeps_inv(states, at);
    let s = states[at];
    if s.word != UNLOCKED {
        let owner = choose|t: int| s.holds(t);
        assert(s.threads[owner] == Thread::Idle);
    }
}

/// No sleeper is stranded: while a thread is asleep on the word, the word is
/// `CONTENDED`, so that the release of the lock will wake a sleeper, or some
/// thread is about to wake a sleeper, or some thread is about to make the
/// word `CONTENDED`.  A release that finds the word `LOCKED` may therefore
/// save itself the wake-up.
pub proof fn no_sleeper_is_stranded(states: Seq<Model>, at: int, t: int)
    requires
        Model::run(states),
        0 <= at < states.len(),
        states[at].sleeps(t),
    ensures
        states[at].word == CONTENDED || exists|helper: int| states[at].rescues(helper),
{
    Model::run_keeps_inv(states, at);
}

/// `states` is a run of `threads` threads that share the lock and a counter
/// that only the holder of the lock reads and writes.
pub open spec fn counting_run(states: Seq<Guarded<Model>>, threads: nat) -> bool {
    is_run(
        states,
        |s: Guarded<Model>| s.lock.init() && s.lock.threads.len() == threads && s.ledger.init(threads),
        |s: Guarded<Model>, t: Guarded<Model>|
            s.next(t, |l: Model, m: Model, w: int| l.moves(m, w), |l: Model, w: int| l.holds(w)),
    )
}

/// Increments under the lock add up: once each of the `threads` threads has
/// completed `each` increments of the shared counter, every one of them made
/// while holding the lock, the counter stands at `threads * each`, however
/// the threads were interleaved.
pub proof fn guarded_increments_add_up(
    states: Seq<Guarded<Model>>,
    threads: nat,
    each: nat,
    at: int,
)
    requires
        counting_run(states, threads),
        0 <= at < states.len(),
        forall|t: int| 0 <= t < threads ==> states[at].ledger.done[t] == each,
    ensures
        states[at].ledger.value == threads * each,
{
    let init = |l: Model| l.init() && l.threads.len() == threads;
    let step = |l: Model, m: Model, w: int| l.moves(m, w);
    let holds = |l: Model, w: int| l.holds(w);
    let inv = |l: Model| l.inv();
    assert forall|l: Model| #[trigger] init(l) implies inv(l) by {
        assert forall|t: int| !l.sleeps(t) by {}
    }
    assert forall|l: Model, m: Model, w: int| inv(l) && #[trigger] step(l, m, w) implies inv(
        m,
    ) by {
        let woken = choose|woken: int| l.step(m, w, woken);
        l.step_keeps_inv(m, w, woken);
    }
    assert(is_run(
        states,
        |s: Guarded<Model>| init(s.lock) && s.ledger.init(threads),
        |s: Guarded<Model>, t: Guarded<Model>| s.next(t, step, holds),
    ));
    increments_add_up(states, init, step, holds, inv, threads, at);
    total_of_equal(states[at].ledger.done, each);
}

} // verus!
