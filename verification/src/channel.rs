//! The flags of a channel that carries one message, once.
//!
//! A channel is a slot for one message and a flag, `ready`, that says whether
//! the slot is filled.  The sender writes the message into the slot and then
//! sets the flag; the receiver clears the flag and then takes the message
//! out.  The slot itself is memory that two threads reach without a lock, so
//! the owner of the channel keeps it beside the flags of this module and
//! touches it only between the calls named below.
//!
//! [`Channel`] is for endpoints that are consumed by use, so that a second
//! send cannot be written down; [`Channel::split`] hands out such endpoints
//! for a channel that lives where its owner has put it.  [`CheckedChannel`]
//! adds a second flag, `in_use`, for callers whose endpoints stay usable: it
//! tells the second sender apart at run time.
//!
//! [`Model`] describes the slot, both flags and any number of threads that
//! send and receive in any order; the laws at the end of this file say that
//! at most one message is ever accepted, and that it leaves the channel
//! exactly once.

use std::sync::atomic::AtomicBool;
use vstd::prelude::*;
use crate::flag::{perform, FlagOp};
use crate::trace::{is_run, invariant_holds};
use crate::word::{LoadOrder, Order, StoreOrder};

verus! {

/// Whether a receiver that found `previous` in the `ready` flag may take the
/// message out of the slot.  A receiver that may not has broken the contract
/// of the channel and must not go on.
pub open spec fn available(previous: bool) -> bool {
    previous
}

/// Whether a sender that found `previous` in the `in_use` flag may write its
/// message into the slot.  A sender that may not is the second one; it has
/// broken the contract of the channel and must not go on.
pub open spec fn admitted(previous: bool) -> bool {
    !previous
}

/// The operation by which a sender publishes its message: the releasing
/// store of `true` in `ready`.
pub open spec fn publish() -> FlagOp {
    FlagOp::Store { value: true, order: StoreOrder::Release }
}

/// Computes [`publish`].
pub fn publish_op() -> (op: FlagOp)
    ensures
        op == publish(),
{
    FlagOp::Store { value: true, order: StoreOrder::Release }
}

/// The operation by which a receiver looks for a message without taking it:
/// a relaxed load of `ready`.
pub open spec fn peek() -> FlagOp {
    FlagOp::Load { order: LoadOrder::Relaxed }
}

/// Computes [`peek`].
pub fn peek_op() -> (op: FlagOp)
    ensures
        op == peek(),
{
    FlagOp::Load { order: LoadOrder::Relaxed }
}

/// The operation by which a receiver takes the message over: the acquiring
/// swap of `false` into `ready`.
pub open spec fn take() -> FlagOp {
    FlagOp::Swap { value: false, order: Order::Acquire }
}

/// Computes [`take`].
pub fn take_op() -> (op: FlagOp)
    ensures
        op == take(),
{
    FlagOp::Swap { value: false, order: Order::Acquire }
}

/// The operation by which a sender claims the channel: the relaxed swap of
/// `true` into `in_use`.
pub open spec fn stake() -> FlagOp {
    FlagOp::Swap { value: true, order: Order::Relaxed }
}

/// Computes [`stake`].
pub fn stake_op() -> (op: FlagOp)
    ensures
        op == stake(),
{
    FlagOp::Swap { value: true, order: Order::Relaxed }
}

/// The flag of a channel whose endpoints are consumed by use.
pub struct Channel {
    ready: AtomicBool,
}

impl Channel {
    /// The flag of an empty channel.
    pub fn new() -> Channel {
        Channel { ready: AtomicBool::new(false) }
    }

    /// Publishes the message by [`publish`], releasing the write of the slot
    /// that the caller has made before.
    pub fn send(&self) {
        perform(&self.ready, publish_op());
    }

    /// Whether a message is waiting, as far as this thread can tell without
    /// synchronising: what [`peek`] finds in `ready`.
    pub fn is_ready(&self) -> bool {
        perform(&self.ready, peek_op())
    }

    /// Takes the message over by [`take`], acquiring the write of the slot.
    /// The result is the flag as the swap found it: on `true` a message was
    /// waiting and the caller takes it out of the slot; on `false` there is
    /// none, and the caller must not touch the slot.
    pub fn receive(&self) -> bool {
        perform(&self.ready, take_op())
    }

    /// For the destructor of the channel, which has it to itself: whether
    /// the slot still holds a message that was sent and never received, and
    /// that the destructor therefore has to drop.  It is what [`peek`] finds
    /// in `ready`.
    pub fn holds_message(&mut self) -> bool {
        perform(&self.ready, peek_op())
    }
}

/// The sending end of a channel that was split.  Sending consumes it.
pub struct Sender<'a> {
    channel: &'a Channel,
}

/// The receiving end of a channel that was split.  Receiving consumes it.
pub struct Receiver<'a> {
    channel: &'a Channel,
}

impl Channel {
    /// Empties the channel and hands out its two ends.  While they live the
    /// channel cannot be reached in any other way.
    pub fn split<'a>(&'a mut self) -> (ends: (Sender<'a>, Receiver<'a>))
        ensures
            ends.0.end_of() == *final(self),
            ends.1.end_of() == *final(self),
    {
        *self = Channel::new();
        let shared: &'a Channel = self;
        (Sender { channel: shared }, Receiver { channel: shared })
    }
}

impl<'a> Sender<'a> {
    /// The channel that this is the sending end of.
    pub closed spec fn end_of(self) -> Channel {
        *self.channel
    }

    /// Publishes the message, as [`Channel::send`] does.
    pub fn send(self) {
        self.channel.send();
    }
}

impl<'a> Receiver<'a> {
    /// The channel that this is the receiving end of.
    pub closed spec fn end_of(self) -> Channel {
        *self.channel
    }

    /// Whether a message is waiting, as [`Channel::is_ready`] says.
    pub fn is_ready(&self) -> bool {
        self.channel.is_ready()
    }

    /// Takes the message over, as [`Channel::receive`] does; the result is
    /// the flag as the swap found it.
    pub fn receive(self) -> bool {
        self.channel.receive()
    }
}

/// A claim of a channel: the flag that the swap found in `in_use`, and
/// whether the caller is the first sender.
#[derive(Clone, Copy, Debug, PartialEq, Eq, Structural)]
pub struct Claim {
    pub found: bool,
    pub first: bool,
}

/// The flags of a channel whose endpoints stay usable.
pub struct CheckedChannel {
    in_use: AtomicBool,
    ready: AtomicBool,
}

impl CheckedChannel {
    /// The flags of an empty channel.
    pub fn new() -> CheckedChannel {
        CheckedChannel { in_use: AtomicBool::new(false), ready: AtomicBool::new(false) }
    }

    /// Claims the channel by [`stake`] and says whether the caller is the
    /// first sender.  If it is, the caller writes its message into the slot
    /// and calls [`CheckedChannel::send`]; if not, it must not touch the
    /// slot.
    pub fn claim(&self) -> (claim: Claim)
        ensures
            claim.first == admitted(claim.found),
    {
        let found = perform(&self.in_use, stake_op());
        Claim { found, first: !found }
    }

    /// Publishes the message by [`publish`], releasing the write of the slot
    /// that the caller has made before.
    pub fn send(&self) {
        perform(&self.ready, publish_op());
    }

    /// Whether a message is waiting, as far as this thread can tell without
    /// synchronising: what [`peek`] finds in `ready`.
    pub fn is_ready(&self) -> bool {
        perform(&self.ready, peek_op())
    }

    /// Takes the message over by [`take`], acquiring the write of the slot.
    /// The result is the flag as the swap found it: on `true` a message was
    /// waiting and the caller takes it out of the slot; on `false` there is
    /// none, and the caller must not touch the slot.
    pub fn receive(&self) -> bool {
        perform(&self.ready, take_op())
    }

    /// For the destructor of the channel, which has it to itself: whether
    /// the slot still holds a message that was sent and never received, and
    /// that the destructor therefore has to drop.  It is what [`peek`] finds
    /// in `ready`.
    pub fn holds_message(&mut self) -> bool {
        perform(&self.ready, peek_op())
    }
}

/// What one thread of the model is doing.
pub enum Thread<V> {
    /// Not using the channel.
    Idle,
    /// About to set `in_use`, with `message` to send.  Where endpoints are
    /// consumed by use, this step is the giving up of the sender.
    Claiming { message: V },
    /// About to write `message` into the slot.
    Writing { message: V },
    /// About to set `ready`.
    Publishing,
    /// About to clear `ready`.
    Clearing,
    /// About to take the message out of the slot.
    Taking,
    /// Stopped for good: a second sender, or a receiver that found no
    /// message and does not try again.
    Failed,
}

/// The slot, the flags, the threads, and a record of what was accepted from
/// senders, handed to receivers and dropped by the destructor.
pub struct Model<V> {
    pub in_use: bool,
    pub ready: bool,
    pub slot: Option<V>,
    pub threads: Seq<Thread<V>>,
    pub destroyed: bool,
    pub accepted: Seq<V>,
    pub received: Seq<V>,
    pub dropped: Seq<V>,
}

impl<V> Model<V> {
    /// Thread `t` is between its claim and its publication, or between its
    /// clearing of `ready` and its taking of the message: it may touch the
    /// slot.
    pub open spec fn touches(self, t: int) -> bool {
        0 <= t < self.threads.len() && (self.threads[t] is Writing || self.threads[t]
            is Publishing || self.threads[t] is Taking)
    }

    /// No thread is in the middle of a send or a receive.
    pub open spec fn at_rest(self) -> bool {
        forall|t: int|
            0 <= t < self.threads.len() ==> self.threads[t] is Idle || self.threads[t] is Failed
    }

    /// The first state: an empty channel, every thread idle.
    pub open spec fn init(self) -> bool {
        &&& !self.in_use
        &&& !self.ready
        &&& self.slot is None
        &&& !self.destroyed
        &&& self.accepted.len() == 0
        &&& self.received.len() == 0
        &&& self.dropped.len() == 0
        &&& forall|t: int| 0 <= t < self.threads.len() ==> self.threads[t] is Idle
    }

    /// One atomic operation of a thread in state `thread` leaves the channel
    /// as in `after` and the thread in state `then`.  The flags change as the
    /// operations [`stake`], [`publish`] and [`take`] leave them, and a
    /// thread moves on by what its operation finds.
    pub open spec fn acts(self, after: Model<V>, thread: Thread<V>, then: Thread<V>) -> bool {
        match thread {
            Thread::Idle => {
                &&& after == (Model { threads: after.threads, ..self })
                &&& (then is Claiming || then is Clearing)
            },
            Thread::Claiming { message } => if admitted(stake().sees(self.in_use)) {
                &&& after == (Model {
                    in_use: stake().leaves(self.in_use),
                    accepted: self.accepted.push(message),
                    threads: after.threads,
                    ..self
                })
                &&& then == Thread::<V>::Writing { message }
            } else {
                &&& after == (Model { threads: after.threads, ..self })
                &&& then is Failed
            },
            Thread::Writing { message } => {
                &&& after == (Model { slot: Some(message), threads: after.threads, ..self })
                &&& then is Publishing
            },
            Thread::Publishing => {
                &&& after == (Model {
                    ready: publish().leaves(self.ready),
                    threads: after.threads,
                    ..self
                })
                &&& then is Idle
            },
            Thread::Clearing => {
                &&& after == (Model {
                    ready: take().leaves(self.ready),
                    threads: after.threads,
                    ..self
                })
                &&& if available(take().sees(self.ready)) {
                    then is Taking
                } else {
                    then is Failed || then is Idle
                }
            },
            Thread::Taking => {
                &&& after == (Model {
                    slot: None,
                    received: self.received.push(self.slot->0),
                    threads: after.threads,
                    ..self
                })
                &&& then is Idle
            },
            Thread::Failed => {
                &&& after == (Model { threads: after.threads, ..self })
                &&& then is Failed
            },
        }
    }

    /// Thread `t` performs its next atomic operation; no other thread moves.
    pub open spec fn step(self, after: Model<V>, t: int) -> bool {
        &&& !self.destroyed
        &&& 0 <= t < self.threads.len()
        &&& after.threads.len() == self.threads.len()
        &&& after.threads == self.threads.update(t, after.threads[t])
        &&& self.acts(after, self.threads[t], after.threads[t])
    }

    /// The channel is destroyed, by whoever holds it last: no thread is in
    /// the middle of a send or a receive, and a message that is still in the
    /// slot is dropped.
    pub open spec fn destroy(self, after: Model<V>) -> bool {
        &&& !self.destroyed
        &&& self.at_rest()
        &&& if self.ready {
            after == (Model {
                destroyed: true,
                ready: false,
                slot: None,
                dropped: self.dropped.push(self.slot->0),
                ..self
            })
        } else {
            after == (Model { destroyed: true, ready: false, ..self })
        }
    }

    /// Some thread performs its next atomic operation, or the channel is
    /// destroyed.
    pub open spec fn next(self, after: Model<V>) -> bool {
        (exists|t: int| self.step(after, t)) || self.destroy(after)
    }

    /// What holds of a thread in state `thread`.  While a thread is about to
    /// write the slot, the slot is empty and the message is the one that the
    /// channel accepted; while a thread is about to publish or to take the
    /// message, the slot holds it.  In either case the flag is clear and
    /// nothing has left the channel.
    pub open spec fn sound(self, thread: Thread<V>) -> bool {
        match thread {
            Thread::Writing { message } => {
                &&& !self.ready
                &&& self.slot is None
                &&& self.accepted.len() == 1
                &&& self.accepted[0] == message
                &&& self.received.len() == 0
                &&& self.dropped.len() == 0
            },
            Thread::Publishing | Thread::Taking => {
                &&& !self.ready
                &&& self.accepted.len() == 1
                &&& self.slot == Some(self.accepted[0])
                &&& self.received.len() == 0
                &&& self.dropped.len() == 0
            },
            _ => true,
        }
    }

    /// What holds of every state of every run: the channel accepts one
    /// message at most; one thread at a time may touch the slot; before a
    /// message is accepted the channel is empty; while the flag is set the
    /// slot holds the message and nothing has left the channel; every thread
    /// is as [`Model::sound`] says; and once the message has been accepted
    /// and no thread is busy with it, while the flag is clear, the message
    /// has left the channel, to a receiver or to the destructor.
    pub open spec fn inv(self) -> bool {
        &&& self.accepted.len() <= 1
        &&& self.accepted.len() == 1 <==> self.in_use
        &&& forall|a: int, b: int| self.touches(a) && self.touches(b) ==> a == b
        &&& !self.in_use ==> {
            &&& !self.ready
            &&& self.slot is None
            &&& self.received.len() == 0
            &&& self.dropped.len() == 0
            &&& forall|t: int| !self.touches(t)
        }
        &&& self.ready ==> {
            &&& self.slot == Some(self.accepted[0])
            &&& self.received.len() == 0
            &&& self.dropped.len() == 0
            &&& forall|t: int| !self.touches(t)
        }
        &&& forall|t: int| 0 <= t < self.threads.len() ==> self.sound(#[trigger] self.threads[t])
        &&& self.in_use && !self.ready && (forall|t: int| !self.touches(t)) ==> {
            &&& self.slot is None
            &&& self.received + self.dropped == self.accepted
        }
        &&& self.destroyed ==> !self.ready && self.at_rest()
    }

    /// `states` is a run of the model.
    pub open spec fn run(states: Seq<Model<V>>) -> bool {
        is_run(states, |s: Model<V>| s.init(), |s: Model<V>, t: Model<V>| s.next(t))
    }

    /// Every step keeps [`Model::inv`].
    pub proof fn next_keeps_inv(self, after: Model<V>)
        requires
            self.inv(),
            self.next(after),
        ensures
            after.inv(),
    {
        if self.destroy(after) {
            assert forall|t: int| !self.touches(t) by {}
            assert forall|t: int| !after.touches(t) by {}
            if self.ready {
                assert(self.received + self.dropped.push(self.slot->0) =~= self.accepted);
            }
        } else {
            let t = choose|t: int| self.step(after, t);
            assert forall|i: int| 0 <= i < self.threads.len() && i != t implies #[trigger] after.threads[i]
                == self.threads[i] by {}
            assert forall|i: int| i != t implies #[trigger] after.touches(i) == self.touches(i) by {}
            if self.touches(t) {
                assert forall|i: int| i != t implies !#[trigger] self.touches(i) by {
                    if self.touches(i) {
                        assert(self.touches(t));
                    }
                }
                assert(self.in_use && !self.ready);
            } else if !self.in_use || self.ready {
                assert forall|i: int| !#[trigger] self.touches(i) by {}
            }
            if let Thread::Taking = self.threads[t] {
                assert(self.received.push(self.slot->0) + self.dropped =~= self.accepted);
            }
            if let Thread::Claiming { message } = self.threads[t] {
                if admitted(self.in_use) {
                    assert(after.touches(t));
                    assert(after.accepted[0] == message);
                }
            }
            if !after.touches(t) && self.touches(t) {
                assert forall|i: int| !#[trigger] after.touches(i) by {}
            }
            if let Thread::Clearing = self.threads[t] {
                if available(self.ready) {
                    assert(after.touches(t));
                }
            }
            if after.in_use && !after.ready && (forall|i: int| !after.touches(i)) {
                assert(!after.touches(t));
                if !self.touches(t) {
                    assert forall|i: int| !self.touches(i) by {
                        if i != t {
                            assert(after.touches(i) == self.touches(i));
                        }
                    }
                }
            }
            assert(self.sound(self.threads[t]));
            assert forall|i: int| 0 <= i < after.threads.len() implies after.sound(
                #[trigger] after.threads[i],
            ) by {
                assert(self.sound(self.threads[i]));
                if i != t {
                    assert(after.threads[i] == self.threads[i]);
                    if after.touches(i) {
                        assert(self.touches(i));
                        assert(!self.touches(t));
                    }
                }
            }
        }
    }

    /// [`Model::inv`] holds of every state of a run.
    pub proof fn run_keeps_inv(states: Seq<Model<V>>, at: int)
        requires
            Self::run(states),
            0 <= at < states.len(),
        ensures
            states[at].inv(),
    {
        let init = |s: Model<V>| s.init();
        let next = |s: Model<V>, t: Model<V>| s.next(t);
        let inv = |s: Model<V>| s.inv();
        assert forall|s: Model<V>, t: Model<V>| inv(s) && #[trigger] next(s, t) implies inv(t) by {
            s.next_keeps_inv(t);
        }
        invariant_holds(states, init, next, inv, at);
    }
}

/// At most once: the channel accepts at most one message, and what receivers
/// were handed and what the destructor dropped are, together, at most that
/// one message.
pub proof fn at_most_once<V>(states: Seq<Model<V>>, at: int)
    requires
        Model::run(states),
        0 <= at < states.len(),
    ensures
        states[at].accepted.len() <= 1,
        states[at].received.len() + states[at].dropped.len() <= states[at].accepted.len(),
        forall|i: int| 0 <= i < states[at].received.len() ==> states[at].received[i] == states[at].accepted[0],
        forall|i: int| 0 <= i < states[at].dropped.len() ==> states[at].dropped[i] == states[at].accepted[0],
{
    Model::run_keeps_inv(states, at);
    let s = states[at];
    if s.in_use && !s.ready {
        if forall|t: int| !s.touches(t) {
            assert((s.received + s.dropped).len() == s.accepted.len());
            assert forall|i: int| 0 <= i < s.received.len() implies s.received[i]
                == s.accepted[0] by {
                assert((s.received + s.dropped)[i] == s.received[i]);
            }
            assert forall|i: int| 0 <= i < s.dropped.len() implies s.dropped[i]
                == s.accepted[0] by {
                assert((s.received + s.dropped)[s.received.len() + i] == s.dropped[i]);
            }
        } else {
            let t = choose|t: int| s.touches(t);
            assert(s.touches(t));
        }
    }
}

/// The slot is filled when it is read: a thread that is about to take the
/// message out, and a destructor that finds `ready` set, find in the slot the
/// message that the channel accepted.
pub proof fn read_slot_is_filled<V>(states: Seq<Model<V>>, at: int, t: int)
    requires
        Model::run(states),
        0 <= at < states.len(),
        states[at].ready || (0 <= t < states[at].threads.len() && states[at].threads[t] is Taking),
    ensures
        states[at].accepted.len() == 1,
        states[at].slot == Some(states[at].accepted[0]),
{
    Model::run_keeps_inv(states, at);
}

/// Exactly once: when the channel has been destroyed, a message that it had
/// accepted was either handed to one receiver or dropped by the destructor,
/// and not both.
pub proof fn exactly_once<V>(states: Seq<Model<V>>, at: int)
    requires
        Model::run(states),
        0 <= at < states.len(),
        states[at].destroyed,
    ensures
        states[at].received + states[at].dropped == states[at].accepted,
        states[at].slot is None,
{
    Model::run_keeps_inv(states, at);
    let s = states[at];
    assert forall|t: int| !s.touches(t) by {}
    if !s.in_use {
        assert(s.received + s.dropped =~= s.accepted);
    }
}

/// A receive without a message takes nothing: a thread that clears `ready`
/// while no message waits, as after another receive has succeeded, stops or
/// waits to try again, and leaves the slot alone.
pub proof fn empty_receive_fails<V>(states: Seq<Model<V>>, at: int, t: int)
    requires
        Model::run(states),
        0 <= at < states.len() - 1,
        states[at].step(states[at + 1], t),
        states[at].threads[t] is Clearing,
        !states[at].ready,
    ensures
        states[at + 1].threads[t] is Failed || states[at + 1].threads[t] is Idle,
        states[at + 1].slot == states[at].slot,
        states[at + 1].received == states[at].received,
{
}

/// After a receive has succeeded, no message waits: every later receive
/// finds `ready` cleared.
pub proof fn received_means_not_ready<V>(states: Seq<Model<V>>, at: int)
    requires
        Model::run(states),
        0 <= at < states.len(),
        states[at].received.len() > 0,
    ensures
        !states[at].ready,
{
    Model::run_keeps_inv(states, at);
}

} // verus!
