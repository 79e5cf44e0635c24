//! Thread-synchronisation primitives built on atomic operations: a spin
//! lock, a blocking mutex with its condition variable, a reader/writer lock,
//! the flags of a one-shot channel and a reference count.
//!
//! Each module holds the words of one primitive and the operations on them,
//! and beside them a model of any number of threads that perform these
//! operations one at a time, in any order.  An operation is a value: a
//! verified function computes it from the phase a thread is in, the step
//! performs it, and the model gives the same value its meaning.  What the primitive promises is
//! proved of every run of its model.  The models treat each atomic operation
//! as one indivisible step on a memory that all threads see alike; the memory
//! orderings that the operations pass to the processor are outside them.
//!
//! Nothing in this crate holds the value that a lock protects, a message or
//! a shared object: memory that several threads reach is the business of the
//! code that owns it, which calls the operations here in the order that the
//! models describe.

pub mod channel;
pub mod condvar;
pub mod flag;
pub mod mutex;
pub mod platform;
pub mod refcount;
pub mod rwlock;
pub mod spinlock;
pub mod tally;
pub mod trace;
pub mod word;
