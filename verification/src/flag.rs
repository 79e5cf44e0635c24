//! The operations on an atomic flag, as values.
//!
//! As [`crate::word`] does for a 32-bit word: the operation that a step
//! performs is a value, [`perform`] carries it out on the flag, and
//! [`FlagOp::leaves`] and [`FlagOp::sees`] give it its meaning in the models.

use std::sync::atomic::AtomicBool;
use vstd::prelude::*;
use crate::word::{of_both, of_load, of_store, LoadOrder, Order, StoreOrder};

verus! {

/// One operation on a flag.
#[allow(inconsistent_fields)]
#[derive(Clone, Copy, Debug, PartialEq, Eq, Structural)]
pub enum FlagOp {
    /// No operation.
    Nothing,
    /// Read the flag.
    Load { order: LoadOrder },
    /// Write `value`.
    Store { value: bool, order: StoreOrder },
    /// Write `value` and report the flag as it was.
    Swap { value: bool, order: Order },
}

impl FlagOp {
    /// The operation reads the flag.
    pub open spec fn reads(self) -> bool {
        self is Load || self is Swap
    }

    /// The flag after the operation has been performed on `flag`.
    pub open spec fn leaves(self, flag: bool) -> bool {
        match self {
            FlagOp::Store { value, .. } => value,
            FlagOp::Swap { value, .. } => value,
            _ => flag,
        }
    }

    /// What the operation reports when it is performed on `flag`: the flag
    /// as it was, or `false` where the operation does not read.
    pub open spec fn sees(self, flag: bool) -> bool {
        self.reads() && flag
    }

    /// What holds of the report of the operation whatever the flag held: an
    /// operation that does not read reports `false`.
    pub open spec fn reports(self, found: bool) -> bool {
        !self.reads() ==> !found
    }
}

/// Performs `op` on `flag` and reports what it found.  What the flag held is
/// for the other threads to decide; the report is such as the operation can
/// give.
pub fn perform(flag: &AtomicBool, op: FlagOp) -> (found: bool)
    ensures
        op.reports(found),
{
    match op {
        FlagOp::Nothing => false,
        FlagOp::Load { order } => flag.load(of_load(order)),
        FlagOp::Store { value, order } => {
            flag.store(value, of_store(order));
            false
        },
        FlagOp::Swap { value, order } => flag.swap(value, of_both(order)),
    }
}

} // verus!
