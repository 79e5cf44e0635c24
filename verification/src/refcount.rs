//! The reference count of a value that several handles own together.
//!
//! The count is the number of handles.  Making a handle increments it,
//! dropping one decrements it, and the handle whose decrement takes the count
//! from one to zero destroys the value.  The value itself, and the pointer
//! through which the handles reach it, are kept beside the count by the owner
//! of the allocation.
//!
//! [`Model`] describes the count and any number of handles that are cloned
//! and dropped in any order; the laws at the end of this file say that the
//! value is destroyed exactly once, and only when the last handle has gone.

use std::sync::atomic::{AtomicUsize, Ordering};
use vstd::prelude::*;
use crate::tally::{total, total_covers_entry, total_of_equal, total_of_flags, total_of_update};
use crate::trace::{is_run, invariant_holds};
use crate::word::{of_both, of_load, LoadOrder, Order};

verus! {

/// The largest count from which a new handle is still made.  It leaves as
/// much room again below the point where the count would wrap round.
pub const MAX_REFS: usize = usize::MAX / 2;

/// Whether a count of `seen` is too large to make another handle.  The
/// process must then end at once: a count that wrapped round would destroy
/// the value while handles are left.
pub open spec fn exceeds(seen: usize) -> bool {
    seen > MAX_REFS
}

/// Computes [`exceeds`].
pub fn is_excess(seen: usize) -> (excess: bool)
    ensures
        excess == exceeds(seen),
{
    seen > MAX_REFS
}

/// Whether the handle whose decrement found `previous` was the last one, so
/// that it has to destroy the value.
pub open spec fn last(previous: usize) -> bool {
    previous == 1
}

/// Computes [`last`].
pub fn is_last(previous: usize) -> (was_last: bool)
    ensures
        was_last == last(previous),
{
    previous == 1
}

/// Whether a handle that sees a count of `seen` is the only one, so that it
/// may hand out the value for writing.
pub open spec fn sole(seen: usize) -> bool {
    seen == 1
}

/// Computes [`sole`].
pub fn is_sole(seen: usize) -> (alone: bool)
    ensures
        alone == sole(seen),
{
    seen == 1
}

/// One operation on the count.
#[allow(inconsistent_fields)]
#[derive(Clone, Copy, Debug, PartialEq, Eq, Structural)]
pub enum CountOp {
    /// Read the count.
    Load { order: LoadOrder },
    /// Add `value`, wrapping round, and report the count as it was.
    FetchAdd { value: usize, order: Order },
    /// Subtract `value`, wrapping round, and report the count as it was.
    FetchSub { value: usize, order: Order },
}

impl CountOp {
    /// The count after the operation has been performed on `count`.
    pub open spec fn leaves(self, count: usize) -> usize {
        match self {
            CountOp::Load { .. } => count,
            CountOp::FetchAdd { value, .. } => if count + value > usize::MAX {
                (count + value - usize::MAX - 1) as usize
            } else {
                (count + value) as usize
            },
            CountOp::FetchSub { value, .. } => if count < value {
                (count - value + usize::MAX + 1) as usize
            } else {
                (count - value) as usize
            },
        }
    }

    /// What the operation reports when it is performed on `count`: the count
    /// as it was.
    pub open spec fn sees(self, count: usize) -> usize {
        count
    }
}

/// The operation by which a handle looks at the count: a relaxed load.
pub open spec fn look() -> CountOp {
    CountOp::Load { order: LoadOrder::Relaxed }
}

/// Computes [`look`].
pub fn look_op() -> (op: CountOp)
    ensures
        op == look(),
{
    CountOp::Load { order: LoadOrder::Relaxed }
}

/// The operation by which a new handle is counted: a relaxed increment.
pub open spec fn count_in() -> CountOp {
    CountOp::FetchAdd { value: 1, order: Order::Relaxed }
}

/// Computes [`count_in`].
pub fn count_in_op() -> (op: CountOp)
    ensures
        op == count_in(),
{
    CountOp::FetchAdd { value: 1, order: Order::Relaxed }
}

/// The operation by which a dropped handle is counted out: a releasing
/// decrement.
pub open spec fn count_out() -> CountOp {
    CountOp::FetchSub { value: 1, order: Order::Release }
}

/// Computes [`count_out`].
pub fn count_out_op() -> (op: CountOp)
    ensures
        op == count_out(),
{
    CountOp::FetchSub { value: 1, order: Order::Release }
}

/// Performs `op` on `count` and reports the count that it found, which is
/// for the other threads to decide.
fn perform(count: &AtomicUsize, op: CountOp) -> usize {
    match op {
        CountOp::Load { order } => count.load(of_load(order)),
        CountOp::FetchAdd { value, order } => count.fetch_add(value, of_both(order)),
        CountOp::FetchSub { value, order } => count.fetch_sub(value, of_both(order)),
    }
}

/// What an operation on the count found, and what follows from it.
#[derive(Clone, Copy, Debug, PartialEq, Eq, Structural)]
pub struct Counted {
    /// The count as the operation found it.
    pub found: usize,
    /// The answer that the operation gives its caller.
    pub yes: bool,
}

/// The count.
pub struct RefCount {
    count: AtomicUsize,
}

impl RefCount {
    /// The count of a value that one handle owns.
    pub fn new() -> RefCount {
        RefCount { count: AtomicUsize::new(1) }
    }

    /// Counts one more handle, by [`count_in`], unless [`look`] finds the
    /// count already too large.  The answer is whether the handle was
    /// counted; if it was not, the caller must end the process.
    pub fn retain(&self) -> (out: Counted)
        ensures
            out.yes == !exceeds(out.found),
    {
        let found = perform(&self.count, look_op());
        let yes = !is_excess(found);
        if yes {
            perform(&self.count, count_in_op());
        }
        Counted { found, yes }
    }

    /// Counts one handle less, by [`count_out`].  The answer is
    /// whether the handle was the last one; if it was, every use of the
    /// value by other threads has been acquired by a fence, and the caller
    /// destroys the value and frees the allocation.
    pub fn release(&self) -> (out: Counted)
        ensures
            out.yes == last(out.found),
    {
        let found = perform(&self.count, count_out_op());
        let yes = is_last(found);
        if yes {
            std::sync::atomic::fence(Ordering::Acquire);
        }
        Counted { found, yes }
    }

    /// Whether the caller's handle is the only one, by [`look`].  If
    /// it is, every use of the value by handles that have gone has been
    /// acquired by a fence, and the caller, who must hold its handle
    /// exclusively, may write to the value.
    pub fn is_unique(&self) -> (out: Counted)
        ensures
            out.yes == sole(out.found),
    {
        let found = perform(&self.count, look_op());
        let yes = is_sole(found);
        if yes {
            std::sync::atomic::fence(Ordering::Acquire);
        }
        Counted { found, yes }
    }
}

/// What has become of one handle of the model.
pub enum Handle {
    /// Not made yet.
    Absent,
    /// In use.
    Live,
    /// In use, and about to count the handle that is being cloned from it.
    Cloning,
    /// Dropped as the last one, and about to destroy the value.
    Freeing,
    /// Dropped.
    Gone,
}

/// One for a handle that the count has to include, zero for any other.
pub open spec fn counted(handle: Handle) -> nat {
    if handle is Live || handle is Cloning {
        1
    } else {
        0
    }
}

/// The count, the handles, and what has happened to the value.
pub struct Model {
    pub count: usize,
    pub handles: Seq<Handle>,
    /// The value has not been destroyed.
    pub alive: bool,
    /// How often the value has been destroyed.
    pub destroyed: nat,
    /// The process has ended because the count was too large.
    pub aborted: bool,
}

impl Model {
    /// Handle `h` is in use.
    pub open spec fn owns(self, h: int) -> bool {
        0 <= h < self.handles.len() && (self.handles[h] is Live || self.handles[h] is Cloning)
    }

    /// Handle `h` is about to destroy the value.
    pub open spec fn frees(self, h: int) -> bool {
        0 <= h < self.handles.len() && self.handles[h] is Freeing
    }

    /// The number of handles in use.
    pub open spec fn owners(self) -> nat {
        total(self.handles.map_values(|handle: Handle| counted(handle)))
    }

    /// Every handle that was made has been dropped, and the last drop has
    /// returned.
    pub open spec fn all_gone(self) -> bool {
        forall|h: int|
            0 <= h < self.handles.len() ==> self.handles[h] is Absent || self.handles[h] is Gone
    }

    /// The first state: the count as [`RefCount::new`] leaves it and the one
    /// handle that stands for it.  No more handles can come to be than a
    /// count can hold.
    pub open spec fn init(self) -> bool {
        &&& self.count == 1
        &&& 0 < self.handles.len() <= usize::MAX
        &&& self.handles[0] is Live
        &&& forall|h: int| 0 < h < self.handles.len() ==> self.handles[h] is Absent
        &&& self.alive
        &&& self.destroyed == 0
        &&& !self.aborted
    }

    /// Handle `h` performs its next atomic operation.  A live handle begins
    /// a clone by [`look`], as the first half of [`RefCount::retain`] does,
    /// or is dropped by [`count_out`], as by [`RefCount::release`]; a cloning
    /// handle counts the new handle `made` by [`count_in`]; the handle that
    /// was dropped last destroys the value.
    pub open spec fn step(self, after: Model, h: int, made: int) -> bool {
        &&& !self.aborted
        &&& 0 <= h < self.handles.len()
        &&& match self.handles[h] {
            Handle::Live => {
                ||| if exceeds(look().sees(self.count)) {
                    after == (Model { aborted: true, ..self })
                } else {
                    after == (Model { handles: self.handles.update(h, Handle::Cloning), ..self })
                }
                ||| after == (Model {
                    count: count_out().leaves(self.count),
                    handles: self.handles.update(
                        h,
                        if last(count_out().sees(self.count)) {
                            Handle::Freeing
                        } else {
                            Handle::Gone
                        },
                    ),
                    ..self
                })
            },
            Handle::Cloning => {
                &&& 0 <= made < self.handles.len()
                &&& self.handles[made] is Absent
                &&& after == (Model {
                    count: count_in().leaves(self.count),
                    handles: self.handles.update(h, Handle::Live).update(made, Handle::Live),
                    ..self
                })
            },
            Handle::Freeing => after == (Model {
                handles: self.handles.update(h, Handle::Gone),
                alive: false,
                destroyed: self.destroyed + 1,
                ..self
            }),
            _ => false,
        }
    }

    /// Some handle performs its next atomic operation.
    pub open spec fn next(self, after: Model) -> bool {
        exists|h: int, made: int| self.step(after, h, made)
    }

    /// What holds of every state of every run: the count is the number of
    /// handles in use; while it is not zero the value has not been
    /// destroyed; at zero either one handle is about to destroy the value, or
    /// the value has been destroyed, once.
    pub open spec fn inv(self) -> bool {
        &&& self.handles.len() <= usize::MAX
        &&& self.count == self.owners()
        &&& self.alive <==> self.destroyed == 0
        &&& self.destroyed <= 1
        &&& forall|a: int, b: int| self.frees(a) && self.frees(b) ==> a == b
        &&& forall|h: int| self.frees(h) ==> self.alive && self.count == 0
        &&& self.count > 0 ==> self.alive
        &&& self.count == 0 && self.alive ==> exists|h: int| self.frees(h)
    }

    /// `states` is a run of the model.
    pub open spec fn run(states: Seq<Model>) -> bool {
        is_run(states, |s: Model| s.init(), |s: Model, t: Model| s.next(t))
    }

    /// The number of handles in use covers each of them.
    proof fn owner_is_counted(self, h: int)
        requires
            self.owns(h),
        ensures
            self.owners() >= 1,
    {
        total_covers_entry(self.handles.map_values(|handle: Handle| counted(handle)), h);
    }

    /// Replacing handle `h` changes the number of handles in use by what it
    /// changes of handle `h`.
    proof fn owners_after_update(self, h: int, handle: Handle)
        requires
            0 <= h < self.handles.len(),
        ensures
            (Model { handles: self.handles.update(h, handle), ..self }).owners() + counted(
                self.handles[h],
            ) == self.owners() + counted(handle),
            self.owners() <= self.handles.len(),
    {
        let count = |handle: Handle| counted(handle);
        let before = self.handles.map_values(count);
        assert(self.handles.update(h, handle).map_values(count) =~= before.update(
            h,
            counted(handle),
        ));
        total_of_update(before, h, counted(handle));
        self.owners_bounded();
    }

    /// No more handles are in use than there are handles.
    proof fn owners_bounded(self)
        ensures
            self.owners() <= self.handles.len(),
    {
        total_of_flags(self.handles.map_values(|handle: Handle| counted(handle)));
    }

    /// Every step keeps [`Model::inv`].
    pub proof fn step_keeps_inv(self, after: Model, h: int, made: int)
        requires
            self.inv(),
            self.step(after, h, made),
        ensures
            after.inv(),
    {
        match self.handles[h] {
            Handle::Live => {
                self.owner_is_counted(h);
                assert forall|i: int| !self.frees(i) by {}
                if after.aborted {
                    assert(after.handles == self.handles);
                    assert forall|i: int| after.frees(i) == self.frees(i) by {}
                } else if after.handles[h] is Cloning {
                    self.owners_after_update(h, Handle::Cloning);
                    assert forall|i: int| after.frees(i) == self.frees(i) by {}
                } else {
                    self.owners_after_update(h, after.handles[h]);
                    assert forall|i: int| i != h implies after.frees(i) == self.frees(i) by {}
                    if last(self.count) {
                        assert(after.frees(h));
                    } else {
                        assert(!after.frees(h));
                    }
                }
            },
            Handle::Cloning => {
                self.owner_is_counted(h);
                assert forall|i: int| !self.frees(i) by {}
                let plus = Model { handles: self.handles.update(made, Handle::Live), ..self };
                self.owners_after_update(made, Handle::Live);
                plus.owners_bounded();
                plus.owners_after_update(h, Handle::Live);
                assert(after.handles =~= plus.handles.update(h, Handle::Live));
                assert forall|i: int| after.frees(i) == self.frees(i) by {}
            },
            Handle::Freeing => {
                self.owners_after_update(h, Handle::Gone);
                assert forall|i: int| i != h implies after.frees(i) == self.frees(i) by {}
                assert forall|i: int| !after.frees(i) by {
                    if i != h && self.frees(i) {
                        assert(self.frees(h));
                    }
                }
                assert(self.frees(h));
            },
            _ => {},
        }
    }

    /// [`Model::inv`] holds of every state of a run.
    pub proof fn run_keeps_inv(states: Seq<Model>, at: int)
        requires
            Self::run(states),
            0 <= at < states.len(),
        ensures
            states[at].inv(),
    {
        let init = |s: Model| s.init();
        let next = |s: Model, t: Model| s.next(t);
        let inv = |s: Model| s.inv();
        assert forall|s: Model| #[trigger] init(s) implies inv(s) by {
            let rest = Model { handles: s.handles.update(0, Handle::Absent), ..s };
            s.owners_after_update(0, Handle::Absent);
            total_of_equal(rest.handles.map_values(|handle: Handle| counted(handle)), 0);
            assert(rest.handles.len() * 0 == 0) by (nonlinear_arith);
            assert forall|h: int| !s.frees(h) by {}
        }
        assert forall|s: Model, t: Model| inv(s) && #[trigger] next(s, t) implies inv(t) by {
            let (h, made) = choose|h: int, made: int| s.step(t, h, made);
            s.step_keeps_inv(t, h, made);
        }
        invariant_holds(states, init, next, inv, at);
    }
}

/// The count is the number of handles in use.
pub proof fn count_is_owners(states: Seq<Model>, at: int)
    requires
        Model::run(states),
        0 <= at < states.len(),
    ensures
        states[at].count == states[at].owners(),
{
    Model::run_keeps_inv(states, at);
}

/// Not before the last handle has gone: while any handle is in use, the
/// value has not been destroyed.
pub proof fn alive_while_owned(states: Seq<Model>, at: int, h: int)
    requires
        Model::run(states),
        0 <= at < states.len(),
        states[at].owns(h),
    ensures
        states[at].alive,
        states[at].destroyed == 0,
{
    Model::run_keeps_inv(states, at);
    states[at].owner_is_counted(h);
}

/// Exactly once: the value is never destroyed twice, and when every handle
/// that was made has been dropped, in whatever order and from whatever
/// threads, it has been destroyed once.
pub proof fn destroyed_exactly_once(states: Seq<Model>, at: int)
    requires
        Model::run(states),
        0 <= at < states.len(),
    ensures
        states[at].destroyed <= 1,
        states[at].all_gone() ==> states[at].destroyed == 1,
{
    Model::run_keeps_inv(states, at);
    let s = states[at];
    if s.all_gone() {
        let counts = s.handles.map_values(|handle: Handle| counted(handle));
        assert forall|i: int| 0 <= i < counts.len() implies counts[i] == 0 by {
            assert(s.handles[i] is Absent || s.handles[i] is Gone);
        }
        total_of_equal(counts, 0);
        assert(counts.len() * 0 == 0) by (nonlinear_arith);
        if s.alive {
            let f = choose|f: int| s.frees(f);
            assert(s.handles[f] is Absent || s.handles[f] is Gone);
        }
    }
}

/// A handle that finds the count at one is alone: no other handle is in use,
/// so the value may be written through it.
pub proof fn sole_owner_is_alone(states: Seq<Model>, at: int, h: int, other: int)
    requires
        Model::run(states),
        0 <= at < states.len(),
        states[at].owns(h),
        sole(states[at].count),
        states[at].owns(other),
    ensures
        other == h,
{
    Model::run_keeps_inv(states, at);
    let s = states[at];
    if other != h {
        let rest = Model { handles: s.handles.update(h, Handle::Gone), ..s };
        s.owners_after_update(h, Handle::Gone);
        assert(rest.owns(other));
        rest.owner_is_counted(other);
    }
}

} // verus!
