//! What the library takes from the platform on trust.
//!
//! The atomic types of the standard library are used as they are; nothing is
//! assumed of the values they hold.  Beyond them the library sleeps on and
//! wakes sleepers of a 32-bit word, hints that it is spinning, and issues a
//! fence.  None of these returns anything that the library's contracts rely
//! on.

use std::sync::atomic::{AtomicU32, Ordering};
use vstd::prelude::*;

verus! {

/// Calls `atomic_wait::wait`: the calling thread sleeps while `word` holds
/// `expected`, until another thread wakes it.  The call may also return at
/// once or for no reason, so nothing is promised of the word afterwards.
#[verifier::external_body]
pub(crate) fn wait(word: &AtomicU32, expected: u32) {
    atomic_wait::wait(word, expected)
}

/// Calls `atomic_wait::wake_one`: at most one thread asleep on `word` is
/// woken.  Nothing is returned, and nothing is promised.
#[verifier::external_body]
pub(crate) fn wake_one(word: &AtomicU32) {
    atomic_wait::wake_one(word)
}

/// Calls `atomic_wait::wake_all`: every thread asleep on `word` is woken.
/// Nothing is returned, and nothing is promised.
#[verifier::external_body]
pub(crate) fn wake_all(word: &AtomicU32) {
    atomic_wait::wake_all(word)
}

/// `std::hint::spin_loop` tells the processor that the thread is in a
/// busy-wait loop.  It takes and returns nothing.
pub assume_specification[ std::hint::spin_loop ]();

/// `std::sync::atomic::fence` orders the memory accesses of the calling
/// thread.  It returns nothing.  It panics when `order` is `Relaxed`, which
/// the precondition leaves out.
pub assume_specification[ std::sync::atomic::fence ](order: Ordering)
    requires
        !(order is Relaxed),
;

} // verus!
