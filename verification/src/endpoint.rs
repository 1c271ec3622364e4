//! Delivery endpoints: the channels of the `futures` crate through which the connection hands
//! messages to subscribers, to waiting callers and to the writer.
//!
//! What a delivery attempt returns depends on the other end of the channel, so nothing here
//! promises an outcome: the connection is verified for every outcome.

use dbus_message_parser::message::Message;
use futures::channel::mpsc::Receiver;
use futures::channel::mpsc::Sender;
use futures::channel::mpsc::UnboundedSender;
use std::collections::HashSet;
use vstd::prelude::*;

verus! {

#[verifier::external_type_specification]
#[verifier::external_body]
#[verifier::reject_recursive_types(T)]
pub struct ExSender<T>(Sender<T>);

#[verifier::external_type_specification]
#[verifier::external_body]
#[verifier::reject_recursive_types(T)]
pub struct ExReceiver<T>(Receiver<T>);

#[verifier::external_type_specification]
#[verifier::external_body]
#[verifier::reject_recursive_types(T)]
pub struct ExUnboundedSender<T>(UnboundedSender<T>);

#[verifier::external_type_specification]
#[verifier::external_body]
#[verifier::reject_recursive_types(T)]
pub struct ExOneshotSender<T>(futures::channel::oneshot::Sender<T>);

/// How a non-blocking delivery attempt on a subscriber's channel ended.
#[derive(Clone, Copy, Debug, PartialEq, Eq, Structural)]
pub enum Delivery {
    /// The channel took the message.
    Sent,
    /// The channel is alive but has no room: the message is dropped for this subscriber.
    Full,
    /// The receiving end is gone.
    Disconnected,
}

/// A delivery attempt together with the message, which comes back when it was not sent.
pub struct Attempt {
    pub delivery: Delivery,
    pub returned: Option<Message>,
}

/// `Sender::try_send`: offers `msg` to the channel without blocking. When the channel does not
/// take the message, the error carries it back unchanged and tells a full channel from a
/// disconnected one. The sender stays an end of the channel that it was an end of: the
/// attempt changes what the channel holds, not which receiver the sender feeds.
#[verifier::external_body]
pub(crate) fn try_deliver(endpoint: &mut Sender<Message>, msg: Message) -> (attempt: Attempt)
    ensures
        attempt.delivery == Delivery::Sent <==> attempt.returned.is_none(),
        attempt.returned.is_some() ==> attempt.returned.unwrap() == msg,
        same_channel(*final(endpoint), *old(endpoint)),
{
    match endpoint.try_send(msg) {
        Ok(()) => Attempt { delivery: Delivery::Sent, returned: None },
        Err(e) => if e.is_disconnected() {
            Attempt { delivery: Delivery::Disconnected, returned: Some(e.into_inner()) }
        } else {
            Attempt { delivery: Delivery::Full, returned: Some(e.into_inner()) }
        },
    }
}

/// `oneshot::Sender::send`: completes the one-shot channel with `value`. The result tells
/// whether the receiving end was still there to take it.
#[verifier::external_body]
pub(crate) fn complete<T>(sink: futures::channel::oneshot::Sender<T>, value: T) -> (taken: bool) {
    sink.send(value).is_ok()
}

/// `oneshot::Sender::send` for the answer to a listing: hands the names over as the set that
/// the waiting side expects.
#[verifier::external_body]
pub(crate) fn complete_listing(
    sink: futures::channel::oneshot::Sender<HashSet<String>>,
    names: Vec<String>,
) -> (taken: bool) {
    sink.send(names.into_iter().collect()).is_ok()
}

/// `UnboundedSender::unbounded_send`: appends `msg` to the queue. It fails only when the
/// receiving end has closed the queue or is gone.
#[verifier::external_body]
pub(crate) fn enqueue(queue: &UnboundedSender<Message>, msg: Message) -> (queued: bool) {
    queue.unbounded_send(msg).is_ok()
}

/// `UnboundedSender::close_channel`: closes the queue from the sending side.
#[verifier::external_body]
pub(crate) fn close_queue(queue: &UnboundedSender<Message>) {
    queue.close_channel()
}

/// Whether both senders feed the same receiver. Which channel a sender belongs to is part of
/// the sender: it stays the same for as long as the sender is not changed.
pub uninterp spec fn share_receiver(endpoint: Sender<Message>, other: Sender<Message>) -> bool;

/// Whether the sender feeds this receiver. Which channel a receiver belongs to is part of
/// the receiver: it stays the same for as long as the receiver is not changed.
pub uninterp spec fn connected_to(endpoint: Sender<Message>, receiver: Receiver<Message>) -> bool;

/// Whether two senders are ends of the same channel: each sender shares its receiver with
/// the one exactly when it does with the other, and the one feeds a receiver exactly when
/// the other does.
pub open spec fn same_channel(endpoint: Sender<Message>, other: Sender<Message>) -> bool {
    &&& forall|sender: Sender<Message>| #[trigger]
        share_receiver(sender, endpoint) == share_receiver(sender, other)
    &&& forall|receiver: Receiver<Message>| #[trigger]
        connected_to(endpoint, receiver) == connected_to(other, receiver)
}

/// `Sender::same_receiver`: whether both senders feed the same receiver. The answer goes by
/// the two senders alone, not by what the channel holds or has been through.
#[verifier::external_body]
pub(crate) fn same_receiver(endpoint: &Sender<Message>, other: &Sender<Message>) -> (same: bool)
    ensures
        same == share_receiver(*endpoint, *other),
{
    endpoint.same_receiver(other)
}

/// `Sender::is_connected_to`: whether the sender feeds this receiver. The answer goes by the
/// sender and the receiver alone, not by what the channel holds or has been through.
#[verifier::external_body]
pub(crate) fn is_connected_to(endpoint: &Sender<Message>, receiver: &Receiver<Message>) -> (connected: bool)
    ensures
        connected == connected_to(*endpoint, *receiver),
{
    endpoint.is_connected_to(receiver)
}

} // verus!
