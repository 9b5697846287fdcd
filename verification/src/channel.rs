//! The broadcast channels on which waiting tasks are woken and shard loops
//! are told to close. They are `tokio::sync::broadcast` channels. Nothing is
//! proved of what a receiver gets; what the library hands to a channel it
//! writes down, and the contracts speak of that record.

use tokio::sync::broadcast::Receiver;
use tokio::sync::broadcast::Sender;
use vstd::prelude::*;

verus! {

/// `tokio::sync::broadcast::Sender`, the sending end of a channel.
#[verifier::external_type_specification]
#[verifier::external_body]
#[verifier::reject_recursive_types(T)]
pub struct ExSender<T>(Sender<T>);

/// `tokio::sync::broadcast::Receiver`, one receiving end of a channel.
#[verifier::external_type_specification]
#[verifier::external_body]
#[verifier::reject_recursive_types(T)]
pub struct ExReceiver<T>(Receiver<T>);

/// `tokio::sync::broadcast::channel` with room for one message: a new
/// channel and its first receiver.
#[verifier::external_body]
fn open<T: Clone>() -> (ends: (Sender<T>, Receiver<T>)) {
    tokio::sync::broadcast::channel(1)
}

/// `Sender::subscribe`: a new receiver, for what is sent from now on. (A
/// channel takes up to `usize::MAX >> 2` receivers, more than a process has
/// room for.)
#[verifier::external_body]
fn subscribe<T>(sender: &Sender<T>) -> (receiver: Receiver<T>) {
    sender.subscribe()
}

/// `Sender::send`: hands the value to the receivers that exist at this
/// moment and returns their number, which is at least one, or nothing if
/// there is no receiver.
#[verifier::external_body]
fn send<T>(sender: &Sender<T>, value: T) -> (receivers: Option<usize>)
    ensures
        receivers != Some(0usize),
{
    sender.send(value).ok()
}

/// The sending end of a channel, with a record of every value that was
/// handed to it. Nothing but `send` adds to the record.
#[verifier::reject_recursive_types(T)]
pub(crate) struct Outbox<T> {
    sender: Sender<T>,
    handed: Vec<T>,
}

impl<T: Copy> Outbox<T> {
    /// The values handed to the channel so far, in order.
    pub(crate) closed spec fn view(&self) -> Seq<T> {
        self.handed@
    }

    /// A new channel to which nothing has been handed yet, and its first
    /// receiver.
    pub(crate) fn new() -> (ends: (Outbox<T>, Receiver<T>))
        ensures
            ends.0@ == Seq::<T>::empty(),
    {
        let (sender, first) = open();
        (Outbox { sender, handed: Vec::new() }, first)
    }

    /// A new receiver, for what is sent from now on.
    pub(crate) fn subscribe(&self) -> (receiver: Receiver<T>) {
        subscribe(&self.sender)
    }

    /// Hands `value` to the channel and notes it down. Returns the number
    /// of receivers that there were to take it, or nothing if there was
    /// none.
    pub(crate) fn send(&mut self, value: T) -> (receivers: Option<usize>)
        ensures
            final(self)@ == old(self)@.push(value),
            receivers != Some(0usize),
    {
        self.handed.push(value);
        send(&self.sender, value)
    }
}

} // verus!
