//! Runs of a transition system, and the induction that carries an invariant
//! along a run.
//!
//! Every protocol of this library is described as a transition system: a
//! predicate on first states and a relation between a state and its
//! successor, one successor per atomic operation of one thread.  A run is a
//! finite sequence of states that starts in a first state and follows the
//! relation; stating a property of every state of every run states it of
//! every interleaving of the threads.

use vstd::prelude::*;

verus! {

/// `states` starts in a state accepted by `init`, and each state is followed
/// by one that `next` allows.
pub open spec fn is_run<S>(
    states: Seq<S>,
    init: spec_fn(S) -> bool,
    next: spec_fn(S, S) -> bool,
) -> bool {
    &&& states.len() > 0
    &&& init(states[0])
    &&& forall|i: int| 0 <= i < states.len() - 1 ==> next(#[trigger] states[i], states[i + 1])
}

/// A predicate that holds of the first states and is kept by every step
/// holds of every state of every run.
pub proof fn invariant_holds<S>(
    states: Seq<S>,
    init: spec_fn(S) -> bool,
    next: spec_fn(S, S) -> bool,
    inv: spec_fn(S) -> bool,
    at: int,
)
    requires
        is_run(states, init, next),
        forall|s: S| #[trigger] init(s) ==> inv(s),
        forall|s: S, t: S| inv(s) && #[trigger] next(s, t) ==> inv(t),
        0 <= at < states.len(),
    ensures
        inv(states[at]),
    decreases at,
{
    if at > 0 {
        invariant_holds(states, init, next, inv, at - 1);
        assert(next(states[at - 1], states[at - 1 + 1]));
    }
}

} // verus!
