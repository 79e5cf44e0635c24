//! A counter that threads increment under a lock, in two steps.
//!
//! An increment is a read of the counter followed, one step later, by a write
//! of the value read plus one.  Performed by threads that run freely the two
//! steps lose updates; performed only by the thread that holds a lock, they
//! do not.  [`Guarded`] pairs the model of a lock with such a counter, and
//! [`increments_add_up`] proves, for any lock whose model keeps two threads
//! from holding it at once, that the counter always equals the number of
//! increments that were completed.

use vstd::prelude::*;
use crate::trace::{is_run, invariant_holds};

verus! {

/// The sum of the entries of `counts`.
pub open spec fn total(counts: Seq<nat>) -> nat
    decreases counts.len(),
{
    if counts.len() == 0 {
        0
    } else {
        total(counts.drop_last()) + counts.last()
    }
}

/// Replacing one entry changes the sum by the difference of the entries.
pub proof fn total_of_update(counts: Seq<nat>, at: int, entry: nat)
    requires
        0 <= at < counts.len(),
    ensures
        total(counts.update(at, entry)) + counts[at] == total(counts) + entry,
    decreases counts.len(),
{
    let updated = counts.update(at, entry);
    if at == counts.len() - 1 {
        assert(updated.drop_last() =~= counts.drop_last());
    } else {
        assert(updated.drop_last() =~= counts.drop_last().update(at, entry));
        total_of_update(counts.drop_last(), at, entry);
    }
}

/// No entry exceeds the sum.
pub proof fn total_covers_entry(counts: Seq<nat>, at: int)
    requires
        0 <= at < counts.len(),
    ensures
        counts[at] <= total(counts),
    decreases counts.len(),
{
    if at < counts.len() - 1 {
        total_covers_entry(counts.drop_last(), at);
    }
}

/// Entries of at most one sum to at most their number.
pub proof fn total_of_flags(counts: Seq<nat>)
    requires
        forall|i: int| 0 <= i < counts.len() ==> counts[i] <= 1,
    ensures
        total(counts) <= counts.len(),
    decreases counts.len(),
{
    if counts.len() > 0 {
        total_of_flags(counts.drop_last());
    }
}

/// Entries that all equal `each` sum to their number times `each`.
pub proof fn total_of_equal(counts: Seq<nat>, each: nat)
    requires
        forall|i: int| 0 <= i < counts.len() ==> counts[i] == each,
    ensures
        total(counts) == counts.len() * each,
    decreases counts.len(),
{
    if counts.len() > 0 {
        total_of_equal(counts.drop_last(), each);
        assert(counts.len() * each == (counts.len() - 1) * each + each) by (nonlinear_arith);
    } else {
        assert(counts.len() * each == 0) by (nonlinear_arith)
            requires
                counts.len() == 0,
        ;
    }
}

/// The counter, the value that each thread has read and not yet written
/// back, and the number of increments that each thread has completed.
pub struct Ledger {
    pub value: nat,
    pub staged: Map<int, nat>,
    pub done: Seq<nat>,
}

impl Ledger {
    /// The counter at zero and no increment begun, for `threads` threads.
    pub open spec fn init(self, threads: nat) -> bool {
        &&& self.value == 0
        &&& self.staged == Map::<int, nat>::empty()
        &&& self.done == Seq::new(threads, |i: int| 0nat)
    }

    /// Thread `t` reads the counter.
    pub open spec fn read(self, after: Ledger, t: int) -> bool {
        &&& 0 <= t < self.done.len()
        &&& after == (Ledger { staged: self.staged.insert(t, self.value), ..self })
    }

    /// Thread `t` writes back the value it read, plus one.
    pub open spec fn write(self, after: Ledger, t: int) -> bool {
        &&& 0 <= t < self.done.len()
        &&& self.staged.contains_key(t)
        &&& after == (Ledger {
            value: self.staged[t] + 1,
            staged: self.staged.remove(t),
            done: self.done.update(t, self.done[t] + 1),
        })
    }
}

/// A lock, as its model of type `L` describes it, and the counter that its
/// holder increments.
pub struct Guarded<L> {
    pub lock: L,
    pub ledger: Ledger,
}

impl<L> Guarded<L> {
    /// One step of the lock and its counter.  Either a thread takes a step of
    /// the lock `step`, and no thread that is between its read and its write
    /// gives the lock up by it; or the thread that holds the lock, as `holds`
    /// says, reads or writes the counter.
    pub open spec fn next(
        self,
        after: Guarded<L>,
        step: spec_fn(L, L, int) -> bool,
        holds: spec_fn(L, int) -> bool,
    ) -> bool {
        ||| {
            &&& exists|t: int| #[trigger] step(self.lock, after.lock, t)
            &&& after.ledger == self.ledger
            &&& forall|u: int| self.ledger.staged.contains_key(u) ==> #[trigger] holds(after.lock, u)
        }
        ||| {
            &&& after.lock == self.lock
            &&& exists|t: int|
                #[trigger] holds(self.lock, t) && (self.ledger.read(after.ledger, t) || self.ledger.write(
                    after.ledger,
                    t,
                ))
        }
    }

    /// The counter equals the completed increments, and a value that was read
    /// and not yet written back was read by the holder and is still current.
    pub open spec fn settled(self, holds: spec_fn(L, int) -> bool) -> bool {
        &&& self.ledger.value == total(self.ledger.done)
        &&& forall|u: int| #[trigger]
            self.ledger.staged.contains_key(u) ==> holds(self.lock, u) && self.ledger.staged[u]
                == self.ledger.value
    }
}

/// No increment is lost under a lock that excludes.
///
/// `init`, `step` and `holds` describe the lock, and `inv` is a predicate that
/// its runs keep and under which no two threads hold it.  Then in every state
/// of every run of the lock with its counter, the counter equals the number
/// of increments that the threads have completed.
pub proof fn increments_add_up<L>(
    states: Seq<Guarded<L>>,
    init: spec_fn(L) -> bool,
    step: spec_fn(L, L, int) -> bool,
    holds: spec_fn(L, int) -> bool,
    inv: spec_fn(L) -> bool,
    threads: nat,
    at: int,
)
    requires
        is_run(
            states,
            |s: Guarded<L>| init(s.lock) && s.ledger.init(threads),
            |s: Guarded<L>, t: Guarded<L>| s.next(t, step, holds),
        ),
        forall|l: L| #[trigger] init(l) ==> inv(l),
        forall|l: L, m: L, t: int| inv(l) && #[trigger] step(l, m, t) ==> inv(m),
        forall|l: L, a: int, b: int| inv(l) && #[trigger] holds(l, a) && #[trigger] holds(l, b) ==> a == b,
        0 <= at < states.len(),
    ensures
        states[at].ledger.value == total(states[at].ledger.done),
        states[at].ledger.done.len() == threads,
{
    let first = |s: Guarded<L>| init(s.lock) && s.ledger.init(threads);
    let next = |s: Guarded<L>, t: Guarded<L>| s.next(t, step, holds);
    let good = |s: Guarded<L>| inv(s.lock) && s.settled(holds) && s.ledger.done.len() == threads;
    assert forall|s: Guarded<L>| #[trigger] first(s) implies good(s) by {
        total_of_equal(s.ledger.done, 0);
        assert(s.ledger.done.len() * 0 == 0) by (nonlinear_arith);
    }
    assert forall|s: Guarded<L>, t: Guarded<L>| good(s) && #[trigger] next(s, t) implies good(
        t,
    ) by {
        if t.lock == s.lock && exists|w: int|
            #[trigger] holds(s.lock, w) && (s.ledger.read(t.ledger, w) || s.ledger.write(
                t.ledger,
                w,
            )) {
            let w = choose|w: int|
                #[trigger] holds(s.lock, w) && (s.ledger.read(t.ledger, w) || s.ledger.write(
                    t.ledger,
                    w,
                ));
            if s.ledger.write(t.ledger, w) && !s.ledger.read(t.ledger, w) {
                total_of_update(s.ledger.done, w, s.ledger.done[w] + 1);
                assert forall|u: int| #[trigger]
                    t.ledger.staged.contains_key(u) implies holds(t.lock, u)
                    && t.ledger.staged[u] == t.ledger.value by {
                    assert(s.ledger.staged.contains_key(u));
                    assert(holds(s.lock, u));
                    assert(u == w);
                }
            }
        } else {
            let w = choose|w: int| #[trigger] step(s.lock, t.lock, w);
            assert(step(s.lock, t.lock, w));
        }
    }
    invariant_holds(states, first, next, good, at);
}

} // verus!
