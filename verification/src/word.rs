//! The operations on a 32-bit atomic word, as values.
//!
//! A step of a protocol is one operation on one word.  Which operation that
//! is, with which operands and which memory ordering, is computed by a
//! function of the protocol's phase; [`perform`] carries it out on the word
//! and reports what it saw.  The models of the protocols take the same
//! operation and give it its meaning on a word that all threads see alike:
//! [`Op::leaves`] is the word afterwards, [`Op::sees`] is what the operation
//! reports.

use std::sync::atomic::{AtomicU32, Ordering};
use vstd::prelude::*;
use crate::platform::{wait, wake_all, wake_one};

verus! {

/// The memory ordering of a load.
#[derive(Clone, Copy, Debug, PartialEq, Eq, Structural)]
pub enum LoadOrder {
    Relaxed,
    Acquire,
}

/// The memory ordering of a store.
#[derive(Clone, Copy, Debug, PartialEq, Eq, Structural)]
pub enum StoreOrder {
    Relaxed,
    Release,
}

/// The memory ordering of an operation that reads and writes.
#[derive(Clone, Copy, Debug, PartialEq, Eq, Structural)]
pub enum Order {
    Relaxed,
    Acquire,
    Release,
}

/// One operation on a word.
#[allow(inconsistent_fields)]
#[derive(Clone, Copy, Debug, PartialEq, Eq, Structural)]
pub enum Op {
    /// No operation.
    Nothing,
    /// Read the word.
    Load { order: LoadOrder },
    /// Write `value`.
    Store { value: u32, order: StoreOrder },
    /// Write `value` and report the word as it was.
    Swap { value: u32, order: Order },
    /// If the word is `current`, write `new`; report the word as it was, and
    /// whether it was `current`.
    CompareExchange { current: u32, new: u32, success: Order, failure: LoadOrder },
    /// As `CompareExchange`, but the operation may fail although the word is
    /// `current`.
    CompareExchangeWeak { current: u32, new: u32, success: Order, failure: LoadOrder },
    /// Add `value`, wrapping round, and report the word as it was.
    FetchAdd { value: u32, order: Order },
    /// Subtract `value`, wrapping round, and report the word as it was.
    FetchSub { value: u32, order: Order },
    /// Sleep while the word is `expected`, until woken.
    Wait { expected: u32 },
    /// Wake one thread that sleeps on the word.
    WakeOne,
    /// Wake every thread that sleeps on the word.
    WakeAll,
}

/// What an operation reports: `value` is the word as the operation found it,
/// or zero where the operation does not read; `ok` is false for an exchange
/// that failed and true otherwise.
#[derive(Clone, Copy, Debug, PartialEq, Eq, Structural)]
pub struct Seen {
    pub ok: bool,
    pub value: u32,
}

/// `word` plus `value`, wrapping round.
pub open spec fn plus(word: u32, value: u32) -> u32 {
    if word + value > u32::MAX {
        (word + value - 0x1_0000_0000) as u32
    } else {
        (word + value) as u32
    }
}

/// `word` minus `value`, wrapping round.
pub open spec fn minus(word: u32, value: u32) -> u32 {
    if word < value {
        (word - value + 0x1_0000_0000) as u32
    } else {
        (word - value) as u32
    }
}

impl Op {
    /// The operation reads the word.
    pub open spec fn reads(self) -> bool {
        !(self is Nothing || self is Store || self is Wait || self is WakeOne || self is WakeAll)
    }

    /// The operation may fail.
    pub open spec fn exchanges(self) -> bool {
        self is CompareExchange || self is CompareExchangeWeak
    }

    /// Whether the operation succeeds on `word`.  `lucky` says whether a weak
    /// exchange that may succeed does; no other operation depends on it.
    pub open spec fn succeeds(self, word: u32, lucky: bool) -> bool {
        match self {
            Op::CompareExchange { current, .. } => word == current,
            Op::CompareExchangeWeak { current, .. } => word == current && lucky,
            _ => true,
        }
    }

    /// The word after the operation has been performed on `word`.
    pub open spec fn leaves(self, word: u32, lucky: bool) -> u32 {
        match self {
            Op::Store { value, .. } => value,
            Op::Swap { value, .. } => value,
            Op::CompareExchange { new, .. } | Op::CompareExchangeWeak { new, .. } => if self.succeeds(
                word,
                lucky,
            ) {
                new
            } else {
                word
            },
            Op::FetchAdd { value, .. } => plus(word, value),
            Op::FetchSub { value, .. } => minus(word, value),
            _ => word,
        }
    }

    /// What the operation reports when it is performed on `word`.
    pub open spec fn sees(self, word: u32, lucky: bool) -> Seen {
        Seen {
            ok: self.succeeds(word, lucky),
            value: if self.reads() {
                word
            } else {
                0
            },
        }
    }

    /// What holds of the report of the operation whatever the word held:
    /// only an exchange fails, and an operation that does not read reports
    /// zero.
    pub open spec fn reports(self, seen: Seen) -> bool {
        &&& !self.exchanges() ==> seen.ok
        &&& !self.reads() ==> seen.value == 0
    }
}

/// The ordering of the standard library that `order` stands for.
pub(crate) fn of_load(order: LoadOrder) -> (ordering: Ordering)
    ensures
        order is Relaxed <==> ordering is Relaxed,
        order is Acquire <==> ordering is Acquire,
{
    match order {
        LoadOrder::Relaxed => Ordering::Relaxed,
        LoadOrder::Acquire => Ordering::Acquire,
    }
}

/// The ordering of the standard library that `order` stands for.
pub(crate) fn of_store(order: StoreOrder) -> (ordering: Ordering)
    ensures
        order is Relaxed <==> ordering is Relaxed,
        order is Release <==> ordering is Release,
{
    match order {
        StoreOrder::Relaxed => Ordering::Relaxed,
        StoreOrder::Release => Ordering::Release,
    }
}

/// The ordering of the standard library that `order` stands for.
pub(crate) fn of_both(order: Order) -> (ordering: Ordering)
    ensures
        order is Relaxed <==> ordering is Relaxed,
        order is Acquire <==> ordering is Acquire,
        order is Release <==> ordering is Release,
{
    match order {
        Order::Relaxed => Ordering::Relaxed,
        Order::Acquire => Ordering::Acquire,
        Order::Release => Ordering::Release,
    }
}

/// Performs `op` on `word` and reports what it saw.  What the word held is
/// for the other threads to decide; the report is such as the operation can
/// give.
pub fn perform(word: &AtomicU32, op: Op) -> (seen: Seen)
    ensures
        op.reports(seen),
{
    match op {
        Op::Nothing => Seen { ok: true, value: 0 },
        Op::Load { order } => Seen { ok: true, value: word.load(of_load(order)) },
        Op::Store { value, order } => {
            word.store(value, of_store(order));
            Seen { ok: true, value: 0 }
        },
        Op::Swap { value, order } => Seen { ok: true, value: word.swap(value, of_both(order)) },
        Op::CompareExchange { current, new, success, failure } => {
            match word.compare_exchange(current, new, of_both(success), of_load(failure)) {
                Ok(found) => Seen { ok: true, value: found },
                Err(found) => Seen { ok: false, value: found },
            }
        },
        Op::CompareExchangeWeak { current, new, success, failure } => {
            match word.compare_exchange_weak(current, new, of_both(success), of_load(failure)) {
                Ok(found) => Seen { ok: true, value: found },
                Err(found) => Seen { ok: false, value: found },
            }
        },
        Op::FetchAdd { value, order } => Seen {
            ok: true,
            value: word.fetch_add(value, of_both(order)),
        },
        Op::FetchSub { value, order } => Seen {
            ok: true,
            value: word.fetch_sub(value, of_both(order)),
        },
        Op::Wait { expected } => {
            wait(word, expected);
            Seen { ok: true, value: 0 }
        },
        Op::WakeOne => {
            wake_one(word);
            Seen { ok: true, value: 0 }
        },
        Op::WakeAll => {
            wake_all(word);
            Seen { ok: true, value: 0 }
        },
    }
}

} // verus!
