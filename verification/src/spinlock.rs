//! A lock that is taken by busy-waiting on one atomic flag.
//!
//! The flag is `true` while the lock is held.  A thread acquires the lock by
//! swapping `true` into the flag until the swap finds `false`; it never
//! sleeps and never enters the operating system.  The holder releases by
//! storing `false`.
//!
//! As a contended acquisition may take any number of swaps, [`SpinLock::lock`]
//! performs one of them per call, which is [`SpinPhase::operation`]; the
//! caller repeats the call until the phase is [`SpinPhase::Held`].  [`Model`] describes any number of threads that do
//! so in any order.

use std::sync::atomic::AtomicBool;
use vstd::prelude::*;
use crate::flag::{perform, FlagOp};
use crate::tally::{increments_add_up, total_of_equal, Guarded};
use crate::trace::{is_run, invariant_holds};
use crate::word::{Order, StoreOrder};

verus! {

/// Where an acquisition stands.
#[derive(Clone, Copy, Debug, PartialEq, Eq, Structural)]
pub enum SpinPhase {
    /// About to swap `true` into the flag.
    Try,
    /// The lock is held.
    Held,
}

impl SpinPhase {
    /// The operation on the flag that the phase calls for: the acquiring
    /// swap of `true`; nothing once the lock is held.
    pub open spec fn operation(self) -> FlagOp {
        match self {
            SpinPhase::Try => FlagOp::Swap { value: true, order: Order::Acquire },
            SpinPhase::Held => FlagOp::Nothing,
        }
    }

    /// Computes [`SpinPhase::operation`].
    pub fn op(self) -> (op: FlagOp)
        ensures
            op == self.operation(),
    {
        match self {
            SpinPhase::Try => FlagOp::Swap { value: true, order: Order::Acquire },
            SpinPhase::Held => FlagOp::Nothing,
        }
    }

    /// The phase that follows `self` when the swap found `found` in the flag.
    pub open spec fn next(self, found: bool) -> SpinPhase {
        match self {
            SpinPhase::Try => if found { SpinPhase::Try } else { SpinPhase::Held },
            SpinPhase::Held => SpinPhase::Held,
        }
    }

    /// Computes [`SpinPhase::next`].
    pub fn advance(self, found: bool) -> (after: SpinPhase)
        ensures
            after == self.next(found),
    {
        match self {
            SpinPhase::Try => if found { SpinPhase::Try } else { SpinPhase::Held },
            SpinPhase::Held => SpinPhase::Held,
        }
    }
}

/// The operation on the flag by which the holder releases the lock: the
/// releasing store of `false`.
pub open spec fn release() -> FlagOp {
    FlagOp::Store { value: false, order: StoreOrder::Release }
}

/// Computes [`release`].
pub fn release_op() -> (op: FlagOp)
    ensures
        op == release(),
{
    FlagOp::Store { value: false, order: StoreOrder::Release }
}

/// One turn of an acquisition: the operation that was performed, the flag it
/// found, and the phase that follows.
#[derive(Clone, Copy, Debug, PartialEq, Eq, Structural)]
pub struct SpinStep {
    pub performed: FlagOp,
    pub found: bool,
    pub after: SpinPhase,
}

/// The lock itself: the flag.  The value that the lock protects is kept
/// beside it by the owner of the lock.
pub struct SpinLock {
    locked: AtomicBool,
}

impl SpinLock {
    /// A lock that nobody holds.
    pub fn new() -> SpinLock {
        SpinLock { locked: AtomicBool::new(false) }
    }

    /// One turn of the acquisition: performs the operation that `phase`
    /// calls for on the flag and moves on by the flag it found; a thread
    /// that found the lock taken is told to the processor as spinning.
    /// Starting from [`SpinPhase::Try`], the caller holds the lock once the
    /// phase that follows is [`SpinPhase::Held`].
    pub fn lock(&self, phase: SpinPhase) -> (step: SpinStep)
        ensures
            step.performed == phase.operation(),
            step.performed.reports(step.found),
            step.after == phase.next(step.found),
    {
        let performed = phase.op();
        let found = perform(&self.locked, performed);
        if found {
            std::hint::spin_loop();
        }
        SpinStep { performed, found, after: phase.advance(found) }
    }

    /// Releases the lock by [`release`].  Only the thread that holds the
    /// lock may call this.
    pub fn unlock(&self) {
        perform(&self.locked, release_op());
    }
}

/// What one thread of the model is doing.
pub enum Thread {
    /// Neither holding the lock nor asking for it.
    Idle,
    /// Acquiring the lock, or holding it once the phase is `Held`.
    Locking(SpinPhase),
}

/// The flag and the threads that share it.
pub struct Model {
    pub locked: bool,
    pub threads: Seq<Thread>,
}

impl Model {
    /// Thread `t` holds the lock.
    pub open spec fn holds(self, t: int) -> bool {
        0 <= t < self.threads.len() && self.threads[t] == Thread::Locking(SpinPhase::Held)
    }

    /// No thread holds the lock or asks for it.
    pub open spec fn quiet(self) -> bool {
        forall|t: int| 0 <= t < self.threads.len() ==> self.threads[t] == Thread::Idle
    }

    /// The first state: the flag as [`SpinLock::new`] leaves it, every thread
    /// idle.
    pub open spec fn init(self) -> bool {
        !self.locked && self.quiet()
    }

    /// The operation that a thread in state `thread` performs next: that of
    /// its phase while it acquires, the release while it holds the lock.
    pub open spec fn operation(thread: Thread) -> FlagOp {
        match thread {
            Thread::Idle => FlagOp::Nothing,
            Thread::Locking(SpinPhase::Held) => release(),
            Thread::Locking(phase) => phase.operation(),
        }
    }

    /// Thread `t` performs its next atomic operation; no other thread moves.
    /// An idle thread starts an acquisition, an acquiring thread performs the
    /// operation of its phase and moves on by what it found, the holder
    /// releases.
    pub open spec fn step(self, after: Model, t: int) -> bool {
        &&& 0 <= t < self.threads.len()
        &&& after.locked == Self::operation(self.threads[t]).leaves(self.locked)
        &&& after.threads == self.threads.update(
            t,
            match self.threads[t] {
                Thread::Idle => Thread::Locking(SpinPhase::Try),
                Thread::Locking(SpinPhase::Held) => Thread::Idle,
                Thread::Locking(phase) => Thread::Locking(
                    phase.next(phase.operation().sees(self.locked)),
                ),
            },
        )
    }

    /// Some thread performs its next atomic operation.
    pub open spec fn next(self, after: Model) -> bool {
        exists|t: int| self.step(after, t)
    }

    /// What holds of every state of every run: the flag is set exactly when
    /// some thread holds the lock, and no two threads hold it.
    pub open spec fn inv(self) -> bool {
        &&& self.locked ==> exists|t: int| self.holds(t)
        &&& !self.locked ==> forall|t: int| !self.holds(t)
        &&& forall|a: int, b: int| self.holds(a) && self.holds(b) ==> a == b
    }

    /// `states` is a run of the model.
    pub open spec fn run(states: Seq<Model>) -> bool {
        is_run(states, |s: Model| s.init(), |s: Model, t: Model| s.next(t))
    }

    /// Every step keeps [`Model::inv`].
    pub proof fn step_keeps_inv(self, after: Model, t: int)
        requires
            self.inv(),
            self.step(after, t),
        ensures
            after.inv(),
    {
        assert forall|i: int| 0 <= i < self.threads.len() && i != t implies after.holds(i)
            == self.holds(i) by {}
        if self.locked {
            let owner = choose|i: int| self.holds(i);
            if owner != t {
                assert(after.holds(owner));
                assert(!self.holds(t));
            }
        } else {
            assert(!self.holds(t));
            if after.locked {
                assert(after.holds(t));
            }
        }
    }

    /// [`Model::inv`] holds of every state of a run.
    pub proof fn run_keeps_inv(states: Seq<Model>, at: int)
        requires
            Self::run(states),
            0 <= at < states.len(),
        ensures
            states[at].inv(),
    {
        let init = |s: Model| s.init();
        let next = |s: Model, t: Model| s.next(t);
        let inv = |s: Model| s.inv();
        assert forall|s: Model, t: Model| inv(s) && #[trigger] next(s, t) implies inv(t) by {
            let who = choose|who: int| s.step(t, who);
            s.step_keeps_inv(t, who);
        }
        invariant_holds(states, init, next, inv, at);
    }
}

/// Mutual exclusion: in no state of any run do two threads hold the lock.
pub proof fn mutual_exclusion(states: Seq<Model>, at: int, a: int, b: int)
    requires
        Model::run(states),
        0 <= at < states.len(),
        states[at].holds(a),
        states[at].holds(b),
    ensures
        a == b,
{
    Model::run_keeps_inv(states, at);
}

/// Release on every path: whenever every thread is idle again, the flag is
/// back at `false`.
pub proof fn quiet_means_unlocked(states: Seq<Model>, at: int)
    requires
        Model::run(states),
        0 <= at < states.len(),
        states[at].quiet(),
    ensures
        !states[at].locked,
{
    Model::run_keeps_inv(states, at);
    let s = states[at];
    if s.locked {
        let owner = choose|t: int| s.holds(t);
        assert(s.threads[owner] == Thread::Idle);
    }
}

/// `states` is a run of `threads` threads that share the lock and a counter
/// that only the holder of the lock reads and writes.
pub open spec fn counting_run(states: Seq<Guarded<Model>>, threads: nat) -> bool {
    is_run(
        states,
        |s: Guarded<Model>| s.lock.init() && s.lock.threads.len() == threads && s.ledger.init(threads),
        |s: Guarded<Model>, t: Guarded<Model>|
            s.next(t, |l: Model, m: Model, w: int| l.step(m, w), |l: Model, w: int| l.holds(w)),
    )
}

/// Increments under the lock add up: once each of the `threads` threads has
/// completed `each` increments of the shared counter, every one of them made
/// while holding the lock, the counter stands at `threads * each`, however
/// the threads were interleaved.
pub proof fn guarded_increments_add_up(
    states: Seq<Guarded<Model>>,
    threads: nat,
    each: nat,
    at: int,
)
    requires
        counting_run(states, threads),
        0 <= at < states.len(),
        forall|t: int| 0 <= t < threads ==> states[at].ledger.done[t] == each,
    ensures
        states[at].ledger.value == threads * each,
{
    let init = |l: Model| l.init() && l.threads.len() == threads;
    let step = |l: Model, m: Model, w: int| l.step(m, w);
    let holds = |l: Model, w: int| l.holds(w);
    let inv = |l: Model| l.inv();
    assert forall|l: Model, m: Model, w: int| inv(l) && #[trigger] step(l, m, w) implies inv(
        m,
    ) by {
        l.step_keeps_inv(m, w);
    }
    assert(is_run(
        states,
        |s: Guarded<Model>| init(s.lock) && s.ledger.init(threads),
        |s: Guarded<Model>, t: Guarded<Model>| s.next(t, step, holds),
    ));
    increments_add_up(states, init, step, holds, inv, threads, at);
    total_of_equal(states[at].ledger.done, each);
}

} // verus!
