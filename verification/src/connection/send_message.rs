//! The outbound path: stamping a message with the next serial and handing it to the writer.

use crate::connection::state::following;
use crate::connection::state::self_addressed;
use crate::connection::state::RouterState;
use crate::connection::state::PENDING_LIMIT;
use crate::command::SignalFilter;
use crate::connection::Connection;
use crate::endpoint::complete;
use crate::endpoint::enqueue;
use crate::connection::state::free_after;
use crate::connection::state::last_tried;
use crate::connection::state::lemma_try_next;
use crate::connection::state::tried_after;
use crate::pending::awaits;
use crate::pending::holds_waiter;
use crate::pending::pending_entries;
use crate::pending::put_waiter;
use crate::pending::remember;
use crate::pending::ReplySink;
use crate::pending::Waiter;
use crate::wire::destination_of;
use crate::wire::header_of;
use crate::wire::HeaderView;
use crate::wire::message_serial;
use crate::wire::same_but_serial;
use crate::wire::sender_of;
use crate::wire::stamp_serial;
use dbus_message_parser::message::Message;
use futures::channel::mpsc::Sender;
use vstd::prelude::*;

verus! {

/// What became of a message that was to be sent.
#[derive(Clone, Copy, Debug, PartialEq, Eq, Structural)]
pub enum Emission {
    /// The message names the same peer as sender and as destination: it was dropped, and no
    /// serial was used.
    Rejected,
    /// The message was stamped with this serial and queued for the writer.
    Queued(u32),
    /// The message was stamped with this serial, but the queue of the writer is closed.
    Lost(u32),
}

impl Emission {
    /// The serial that the message was stamped with, if it was stamped.
    pub open spec fn serial(self) -> Option<u32> {
        match self {
            Emission::Rejected => None,
            Emission::Queued(serial) => Some(serial),
            Emission::Lost(serial) => Some(serial),
        }
    }
}

/// What became of a message that was sent for a streamed reply.
#[derive(Clone, Copy, Debug, PartialEq, Eq, Structural)]
pub struct Streamed {
    /// What became of the message.
    pub emission: Emission,
    /// Whether the caller took the serial that was sent back to it.
    pub announced: bool,
}

impl RouterState {
    /// The state after a message with the header `head` was sent: a stamped message has
    /// used the next serial, and a queued message was handed to the writer under that serial
    /// and with the header fields that it came with.
    pub open spec fn after_emission(self, emission: Emission, head: HeaderView) -> RouterState {
        match emission {
            Emission::Rejected => self,
            Emission::Queued(serial) => self.stamped(serial).handed_over(
                HeaderView { serial, ..head },
            ),
            Emission::Lost(serial) => self.stamped(serial),
        }
    }

    /// The state after a message was sent for which a reply is awaited: a queued message
    /// has a waiter under its serial.
    pub open spec fn after_call(
        self,
        emission: Emission,
        head: HeaderView,
        stream: bool,
    ) -> RouterState {
        match emission {
            Emission::Queued(serial) => self.after_emission(emission, head).waiting(
                remember(self.pending, PENDING_LIMIT as nat, Waiter { serial, stream }),
            ),
            _ => self.after_emission(emission, head),
        }
    }
}

/// Whether an emission is one that a connection in `state` can produce for a message with
/// this header: a self-addressed message is rejected, every other is stamped with the
/// next serial that is not waited for.
pub open spec fn emission_of(state: RouterState, head: HeaderView, emission: Emission) -> bool {
    if self_addressed(head) {
        emission == Emission::Rejected
    } else {
        emission.serial() == Some(state.next_serial())
    }
}

/// The serial that follows `serial`. It is never zero.
pub fn next_serial(serial: u32) -> (next: u32)
    ensures
        next == following(serial),
        next != 0,
        serial < u32::MAX ==> next == serial + 1,
{
    if serial == u32::MAX {
        1
    } else {
        serial + 1
    }
}

/// Whether a message with these header fields names the same peer as its sender and as its
/// destination.
pub fn is_self_addressed(sender: &Option<String>, destination: &Option<String>) -> (same: bool)
    ensures
        same == (sender.is_some() && crate::wire::text_of(*sender) == crate::wire::text_of(
            *destination,
        )),
{
    match (sender, destination) {
        (Some(sender), Some(destination)) => *sender == *destination,
        _ => false,
    }
}

impl<F: SignalFilter> Connection<F> {
    /// Takes the next serial and stamps `msg` with it: the counter moves to the first serial
    /// after it that no reply is waited for, and the message that comes back carries that
    /// serial and is otherwise the one given.
    pub fn stamp(&mut self, msg: Message) -> (stamped: Message)
        requires
            old(self).wf(),
        ensures
            final(self).wf(),
            final(self).endpoints() == old(self).endpoints(),
            final(self).state() == old(self).state().stamped(old(self).state().next_serial()),
            message_serial(stamped) == old(self).state().next_serial(),
            message_serial(stamped) != 0,
            !awaits(old(self).state().pending, message_serial(stamped)),
            same_but_serial(header_of(stamped), header_of(msg)),
    {
        let mut msg = msg;
        let ghost start = self.serial;
        let ghost pending = pending_entries(self.replies);
        let ghost mut tried: Seq<u32> = Seq::empty();
        let mut serial = next_serial(self.serial);
        while holds_waiter(&self.replies, serial)
            invariant
                *self == *old(self),
                self.wf(),
                start == self.serial,
                pending == pending_entries(self.replies),
                tried.len() <= pending.len(),
                tried_after(pending, start, tried),
                serial == following(last_tried(start, tried)),
                self.state().next_serial() == free_after(
                    pending,
                    last_tried(start, tried),
                    (pending.len() - tried.len()) as nat,
                ),
            decreases pending.len() - tried.len(),
        {
            proof {
                lemma_try_next(pending, start, tried);
                tried = tried.push(serial);
            }
            serial = next_serial(serial);
        }
        proof {
            self.wrapped@ = self.wrapped@ || serial <= self.serial;
        }
        self.serial = serial;
        stamp_serial(&mut msg, serial);
        msg
    }

    /// Stamps `msg` with the next serial and hands it to the writer.
    pub(crate) fn emit(&mut self, msg: Message) -> (emission: Emission)
        requires
            old(self).wf(),
        ensures
            final(self).wf(),
            final(self).endpoints() == old(self).endpoints(),
            emission.serial() == Some(old(self).state().next_serial()),
            final(self).state() == old(self).state().after_emission(emission, header_of(msg)),
    {
        let ghost head = HeaderView { serial: old(self).state().next_serial(), ..header_of(msg) };
        let msg = self.stamp(msg);
        let serial = self.serial;
        if enqueue(&self.message_sink, msg) {
            proof {
                self.emitted@ = self.emitted@.push(head);
            }
            Emission::Queued(serial)
        } else {
            Emission::Lost(serial)
        }
    }

    /// Sends a message of a client: unless it is self-addressed, it is stamped with the next
    /// serial and handed to the writer.
    pub(crate) fn send(&mut self, msg: Message) -> (emission: Emission)
        requires
            old(self).wf(),
        ensures
            final(self).wf(),
            final(self).endpoints() == old(self).endpoints(),
            emission_of(old(self).state(), header_of(msg), emission),
            final(self).state() == old(self).state().after_emission(emission, header_of(msg)),
    {
        let sender = sender_of(&msg);
        let destination = destination_of(&msg);
        if is_self_addressed(&sender, &destination) {
            Emission::Rejected
        } else {
            self.emit(msg)
        }
    }

    /// Sends a message for which no reply is awaited.
    pub fn send_message(&mut self, msg: Message) -> (emission: Emission)
        requires
            old(self).wf(),
        ensures
            final(self).wf(),
            final(self).endpoints() == old(self).endpoints(),
            emission_of(old(self).state(), header_of(msg), emission),
            final(self).state() == old(self).state().after_emission(emission, header_of(msg)),
    {
        self.send(msg)
    }

    /// Sends a message and, once it is queued, registers `response` as the one-shot sink for
    /// its reply. When it is not queued, the sink is dropped, which its waiting end observes
    /// as a cancellation.
    pub fn send_message_oneshot(
        &mut self,
        msg: Message,
        response: futures::channel::oneshot::Sender<Message>,
    ) -> (emission: Emission)
        requires
            old(self).wf(),
        ensures
            final(self).wf(),
            final(self).endpoints() == old(self).endpoints(),
            emission_of(old(self).state(), header_of(msg), emission),
            final(self).state() == old(self).state().after_call(emission, header_of(msg), false),
    {
        let emission = self.send(msg);
        if let Emission::Queued(serial) = emission {
            put_waiter(&mut self.replies, serial, ReplySink::Oneshot(response));
        }
        emission
    }

    /// Sends a message and, once it is queued, first sends its serial back through
    /// `response_reply_serial` and then registers `response` as the stream sink for its
    /// reply.
    pub fn send_message_mpsc(
        &mut self,
        msg: Message,
        response_reply_serial: futures::channel::oneshot::Sender<u32>,
        response: Sender<Message>,
    ) -> (streamed: Streamed)
        requires
            old(self).wf(),
        ensures
            final(self).wf(),
            final(self).endpoints() == old(self).endpoints(),
            emission_of(old(self).state(), header_of(msg), streamed.emission),
            streamed.announced ==> streamed.emission is Queued,
            final(self).state() == old(self).state().after_call(
                streamed.emission,
                header_of(msg),
                true,
            ),
    {
        let emission = self.send(msg);
        let mut announced = false;
        if let Emission::Queued(serial) = emission {
            announced = complete(response_reply_serial, serial);
            put_waiter(&mut self.replies, serial, ReplySink::Stream(response));
        }
        Streamed { emission, announced }
    }
}

} // verus!
