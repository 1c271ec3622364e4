//! The frame codec as the reader and the writer use it: cutting the bytes that arrive from the
//! transport into messages, and lining up the bytes of the messages that leave.

use crate::endpoint::enqueue;
use bytes::Bytes;
use dbus_message_parser::decode::DecodeError;
use dbus_message_parser::message::Message;
use futures::channel::mpsc::UnboundedSender;
use vstd::prelude::*;
use vstd::slice::slice_subrange;

verus! {

/// What the codec makes of the bytes at the front of a buffer.
pub enum FrameKind {
    /// A message that takes up this many bytes.
    Complete(usize),
    /// The beginning of a message: more bytes are needed.
    Partial,
    /// Nothing that a message can begin with.
    Corrupt,
}

/// What the codec decoded from the front of a buffer.
pub enum Frame {
    /// This message, which takes up this many bytes.
    Complete(Message, usize),
    /// The beginning of a message: more bytes are needed.
    Partial,
    /// Nothing that a message can begin with.
    Corrupt,
}

/// What the codec decodes from the front of `bytes`.
pub uninterp spec fn frame_of(bytes: Seq<u8>) -> Frame;

/// What the codec makes of `bytes`.
pub open spec fn frame_kind(bytes: Seq<u8>) -> FrameKind {
    frame_of(bytes).kind()
}

impl Frame {
    /// The kind of the frame.
    pub open spec fn kind(self) -> FrameKind {
        match self {
            Frame::Complete(_, consumed) => FrameKind::Complete(consumed),
            Frame::Partial => FrameKind::Partial,
            Frame::Corrupt => FrameKind::Corrupt,
        }
    }
}

/// `Message::decode`: decodes one message from the front of the bytes and tells how many
/// bytes it took up. Of its errors, the one for too few bytes is told apart from the others.
#[verifier::external_body]
pub(crate) fn decode_frame(bytes: &Vec<u8>) -> (frame: Frame)
    ensures
        frame == frame_of(bytes@),
{
    match Message::decode(Bytes::copy_from_slice(bytes)) {
        Ok((msg, consumed)) => Frame::Complete(msg, consumed),
        Err(DecodeError::NotEnoughBytes(_, _)) => Frame::Partial,
        Err(_) => Frame::Corrupt,
    }
}

/// What is left of a buffer once every complete message at its front is taken off.
pub struct Drained {
    /// The bytes that stay in the buffer.
    pub rest: Seq<u8>,
    /// The number of messages that were taken off.
    pub count: nat,
    /// Whether the bytes that stay cannot begin a message.
    pub corrupt: bool,
}

/// Takes complete messages off the front of `bytes` until the buffer is empty, or begins
/// with a partial message, or with nothing that a message can begin with. A message that
/// claims no bytes, or more than there are, counts as corrupt.
pub open spec fn drained(bytes: Seq<u8>) -> Drained
    decreases bytes.len(),
{
    match frame_kind(bytes) {
        FrameKind::Complete(consumed) => if 0 < consumed <= bytes.len() {
            if consumed == bytes.len() {
                Drained { rest: Seq::empty(), count: 1, corrupt: false }
            } else {
                let after = drained(bytes.skip(consumed as int));
                Drained { count: after.count + 1, ..after }
            }
        } else {
            Drained { rest: bytes, count: 0, corrupt: true }
        },
        FrameKind::Partial => Drained { rest: bytes, count: 0, corrupt: false },
        FrameKind::Corrupt => Drained { rest: bytes, count: 0, corrupt: true },
    }
}

/// Draining loses no byte and takes no byte twice: what stays is the end of the buffer, and
/// every message that was taken off took up at least one byte before it.
pub proof fn lemma_drained_is_suffix(bytes: Seq<u8>)
    ensures
        drained(bytes).rest.len() + drained(bytes).count <= bytes.len(),
        drained(bytes).rest == bytes.skip(bytes.len() - drained(bytes).rest.len()),
    decreases bytes.len(),
{
    match frame_kind(bytes) {
        FrameKind::Complete(consumed) => {
            if 0 < consumed < bytes.len() {
                lemma_drained_is_suffix(bytes.skip(consumed as int));
            }
        },
        _ => {},
    }
}

/// The number of bytes that the first `count` messages at the front of `bytes` take up, as
/// far as there are that many complete messages.
pub open spec fn taken(bytes: Seq<u8>, count: nat) -> nat
    decreases count,
{
    if count == 0 {
        0
    } else {
        match frame_kind(bytes) {
            FrameKind::Complete(consumed) => if 0 < consumed <= bytes.len() {
                consumed as nat + taken(bytes.skip(consumed as int), (count - 1) as nat)
            } else {
                0
            },
            _ => 0,
        }
    }
}

/// One message more takes up the bytes of the messages before it and its own: where the
/// buffer holds more than `count` complete messages, the one that follows the first `count`
/// stands right behind them, and draining goes on from there as it does from the front.
pub proof fn lemma_taken_next(bytes: Seq<u8>, count: nat)
    requires
        count < drained(bytes).count,
    ensures
        taken(bytes, count) < bytes.len(),
        frame_kind(bytes.skip(taken(bytes, count) as int)) matches FrameKind::Complete(consumed)
            && 0 < consumed <= bytes.len() - taken(bytes, count) && taken(bytes, count + 1)
            == taken(bytes, count) + consumed,
        drained(bytes.skip(taken(bytes, count) as int)).count + count == drained(bytes).count,
        drained(bytes.skip(taken(bytes, count) as int)).rest == drained(bytes).rest,
        drained(bytes.skip(taken(bytes, count) as int)).corrupt == drained(bytes).corrupt,
    decreases count,
{
    match frame_kind(bytes) {
        FrameKind::Complete(consumed) => {
            if count == 0 {
                assert(bytes.skip(0) =~= bytes);
                assert(taken(bytes.skip(consumed as int), 0) == 0);
            } else {
                let tail = bytes.skip(consumed as int);
                lemma_taken_next(tail, (count - 1) as nat);
                let inner = taken(tail, (count - 1) as nat);
                assert(tail.skip(inner as int) =~= bytes.skip(consumed + inner));
            }
        },
        _ => {},
    }
}

/// How the reader goes on.
#[derive(Clone, Copy, Debug, PartialEq, Eq, Structural)]
pub enum ReadStep {
    /// More bytes are to be read.
    AwaitBytes,
    /// The stream is corrupt: the reader stops.
    Corrupt,
    /// Nobody takes the messages any more: the reader stops.
    Closed,
}

/// What the reader did with the bytes in its buffer.
#[derive(Clone, Copy, Debug, PartialEq, Eq, Structural)]
pub struct Intake {
    /// The number of messages that were handed on.
    pub delivered: usize,
    /// How the reader goes on.
    pub step: ReadStep,
}

/// What the reader found at the front of its buffer.
pub enum Taken {
    /// This message, which was taken off the buffer.
    Message(Message),
    /// The beginning of a message: the buffer stays as it is.
    Partial,
    /// Nothing that a message can begin with: the buffer stays as it is.
    Corrupt,
}

/// What [`take_frame`] finds in a buffer that holds `bytes`, and what it leaves there. A
/// message that claims no bytes, or more than there are, counts as corrupt.
pub open spec fn frame_taken(bytes: Seq<u8>, found: Taken, rest: Seq<u8>) -> bool {
    match frame_of(bytes) {
        Frame::Complete(msg, consumed) => if 0 < consumed <= bytes.len() {
            found == Taken::Message(msg) && rest == bytes.skip(consumed as int)
        } else {
            found is Corrupt && rest == bytes
        },
        Frame::Partial => found is Partial && rest == bytes,
        Frame::Corrupt => found is Corrupt && rest == bytes,
    }
}

/// Decodes the message at the front of `buffer` and takes it off the buffer, if there is a
/// complete one.
pub fn take_frame(buffer: &mut Vec<u8>) -> (found: Taken)
    ensures
        frame_taken(old(buffer)@, found, final(buffer)@),
{
    match decode_frame(buffer) {
        Frame::Complete(msg, consumed) => {
            if consumed == 0 || consumed > buffer.len() {
                return Taken::Corrupt;
            }
            let rest = buffer.split_off(consumed);
            *buffer = rest;
            Taken::Message(msg)
        },
        Frame::Partial => Taken::Partial,
        Frame::Corrupt => Taken::Corrupt,
    }
}

/// The step that the reader takes after every read: every complete message at the front of
/// `buffer` is taken off the buffer by [`take_frame`] and handed to `message_sink`, the
/// inbound queue of the connection. When the queue does not take a message, the reader
/// stops: that message is off the buffer, the ones behind it are not.
pub fn message_stream(buffer: &mut Vec<u8>, message_sink: &UnboundedSender<Message>) -> (intake: Intake)
    ensures
        intake.step != ReadStep::Closed ==> {
            &&& final(buffer)@ == drained(old(buffer)@).rest
            &&& intake.delivered == drained(old(buffer)@).count
            &&& (intake.step == ReadStep::Corrupt) == drained(old(buffer)@).corrupt
        },
        intake.step == ReadStep::Closed ==> {
            &&& intake.delivered < drained(old(buffer)@).count
            &&& final(buffer)@ == old(buffer)@.skip(
                taken(old(buffer)@, (intake.delivered + 1) as nat) as int,
            )
        },
{
    let ghost all = buffer@;
    let total = buffer.len();
    let mut delivered: usize = 0;
    loop
        invariant
            all == old(buffer)@,
            total == all.len(),
            delivered + buffer@.len() <= all.len(),
            delivered <= drained(all).count,
            buffer@ == all.skip(taken(all, delivered as nat) as int),
            drained(all).rest == drained(buffer@).rest,
            drained(all).corrupt == drained(buffer@).corrupt,
            drained(all).count == drained(buffer@).count + delivered,
        decreases buffer@.len(),
    {
        match take_frame(buffer) {
            Taken::Message(msg) => {
                proof {
                    lemma_taken_next(all, delivered as nat);
                }
                if !enqueue(message_sink, msg) {
                    return Intake { delivered, step: ReadStep::Closed };
                }
                delivered += 1;
                if buffer.len() == 0 {
                    return Intake { delivered, step: ReadStep::AwaitBytes };
                }
            },
            Taken::Partial => {
                return Intake { delivered, step: ReadStep::AwaitBytes };
            },
            Taken::Corrupt => {
                return Intake { delivered, step: ReadStep::Corrupt };
            },
        }
    }
}

/// The bytes that the codec encodes `msg` to, if it can encode it.
pub uninterp spec fn encoding(msg: Message) -> Option<Seq<u8>>;

/// `Message::encode`: the bytes of the message, or nothing if the codec cannot encode it.
#[verifier::external_body]
pub(crate) fn encode_message(msg: &Message) -> (bytes: Option<Vec<u8>>)
    ensures
        bytes.is_some() == encoding(*msg).is_some(),
        bytes.is_some() ==> bytes.unwrap()@ == encoding(*msg).unwrap(),
{
    match msg.encode() {
        Ok(buffer) => Some(buffer.to_vec()),
        Err(_) => None,
    }
}

/// The bytes of the writer: those that it has written to the transport, and those of the
/// messages it took that it has yet to write.
pub struct Outbox {
    buffer: Vec<u8>,
    cursor: usize,
    written: Ghost<Seq<u8>>,
}

/// The mathematical content of an [`Outbox`].
#[verifier::ext_equal]
pub struct OutboxView {
    /// Every byte that was written, in the order of writing.
    pub written: Seq<u8>,
    /// The bytes that are yet to be written, in the order in which they will be.
    pub unwritten: Seq<u8>,
}

impl OutboxView {
    /// Every byte that the writer took, in the order in which it reaches the transport.
    pub open spec fn stream(self) -> Seq<u8> {
        self.written + self.unwritten
    }
}

impl View for Outbox {
    type V = OutboxView;

    closed spec fn view(&self) -> OutboxView {
        OutboxView {
            written: self.written@,
            unwritten: if self.cursor <= self.buffer@.len() {
                self.buffer@.skip(self.cursor as int)
            } else {
                Seq::empty()
            },
        }
    }
}

impl Outbox {
    /// An outbox through which nothing has passed.
    pub fn new() -> (outbox: Outbox)
        ensures
            outbox@.written == Seq::<u8>::empty(),
            outbox@.unwritten == Seq::<u8>::empty(),
    {
        Outbox { buffer: Vec::new(), cursor: 0, written: Ghost(Seq::empty()) }
    }

    /// Whether every byte was written.
    pub fn is_empty(&self) -> (empty: bool)
        ensures
            empty == (self@.unwritten.len() == 0),
    {
        self.cursor >= self.buffer.len()
    }

    /// The bytes that are to be written next.
    pub fn unwritten(&self) -> (bytes: &[u8])
        ensures
            bytes@ == self@.unwritten,
    {
        if self.cursor <= self.buffer.len() {
            slice_subrange(self.buffer.as_slice(), self.cursor, self.buffer.len())
        } else {
            slice_subrange(self.buffer.as_slice(), 0, 0)
        }
    }

    /// Records that the transport took the first `size` of the unwritten bytes. A partial
    /// write moves on by what was written; nothing is lost and nothing changes places.
    pub fn advance(&mut self, size: usize)
        ensures
            size <= old(self)@.unwritten.len() ==> final(self)@.written == old(self)@.written
                + old(self)@.unwritten.take(size as int) && final(self)@.unwritten == old(
                self,
            )@.unwritten.skip(size as int),
            size > old(self)@.unwritten.len() ==> final(self)@ == old(self)@,
            final(self)@.stream() == old(self)@.stream(),
            final(self)@ == after_event(old(self)@, OutboxEvent::Wrote(size as nat)),
    {
        if self.cursor <= self.buffer.len() && size <= self.buffer.len() - self.cursor {
            proof {
                self.written@ = self.written@ + self.buffer@.subrange(
                    self.cursor as int,
                    self.cursor + size,
                );
            }
            self.cursor = self.cursor + size;
        }
    }
}

/// The step that the writer takes for every message from its queue: the message is encoded,
/// and its bytes are lined up behind those that are yet to be written. A message that the
/// codec cannot encode changes nothing.
pub fn message_sink(outbox: &mut Outbox, msg: &Message) -> (encoded: bool)
    ensures
        encoded == encoding(*msg).is_some(),
        final(outbox)@.written == old(outbox)@.written,
        final(outbox)@.unwritten == if encoded {
            old(outbox)@.unwritten + encoding(*msg).unwrap()
        } else {
            old(outbox)@.unwritten
        },
        encoded ==> final(outbox)@ == after_event(
            old(outbox)@,
            OutboxEvent::Lined(encoding(*msg).unwrap()),
        ),
{
    match encode_message(msg) {
        Some(bytes) => {
            let mut bytes = bytes;
            if outbox.is_empty() {
                outbox.buffer = bytes;
                outbox.cursor = 0;
            } else {
                outbox.buffer.append(&mut bytes);
            }
            true
        },
        None => false,
    }
}

/// What happens at the outbox: the writer takes a message with these bytes, or the
/// transport takes this many of the unwritten bytes.
pub enum OutboxEvent {
    /// The writer took a message with these bytes: what `message_sink` does.
    Lined(Seq<u8>),
    /// The transport took this many bytes: what `Outbox::advance` records.
    Wrote(nat),
}

/// The outbox after an event; a write beyond what is unwritten leaves it as it is.
pub open spec fn after_event(outbox: OutboxView, event: OutboxEvent) -> OutboxView {
    match event {
        OutboxEvent::Lined(bytes) => OutboxView { unwritten: outbox.unwritten + bytes, ..outbox },
        OutboxEvent::Wrote(size) => if size <= outbox.unwritten.len() {
            OutboxView {
                written: outbox.written + outbox.unwritten.take(size as int),
                unwritten: outbox.unwritten.skip(size as int),
            }
        } else {
            outbox
        },
    }
}

/// The outbox after these events, one after the other.
pub open spec fn after_events(outbox: OutboxView, events: Seq<OutboxEvent>) -> OutboxView
    decreases events.len(),
{
    if events.len() == 0 {
        outbox
    } else {
        after_event(after_events(outbox, events.drop_last()), events.last())
    }
}

/// The bytes of the messages that the writer takes in these events, in the order in which
/// it takes them.
pub open spec fn lined_up(events: Seq<OutboxEvent>) -> Seq<u8>
    decreases events.len(),
{
    if events.len() == 0 {
        Seq::empty()
    } else {
        match events.last() {
            OutboxEvent::Lined(bytes) => lined_up(events.drop_last()) + bytes,
            OutboxEvent::Wrote(_) => lined_up(events.drop_last()),
        }
    }
}

/// Wire order is queue order, for any number of messages: however the taking of messages
/// and the writes of the transport follow on each other, and however the transport splits
/// its writes, what reaches the transport is what was there before and then the bytes of
/// the messages in the order in which the writer took them, each message whole and once.
pub proof fn lemma_wire_order(before: OutboxView, events: Seq<OutboxEvent>)
    ensures
        after_events(before, events).stream() == before.stream() + lined_up(events),
    decreases events.len(),
{
    if events.len() > 0 {
        let earlier = after_events(before, events.drop_last());
        lemma_wire_order(before, events.drop_last());
        match events.last() {
            OutboxEvent::Lined(bytes) => {
                assert(after_event(earlier, events.last()).stream() =~= earlier.stream() + bytes);
            },
            OutboxEvent::Wrote(size) => {
                assert(after_event(earlier, events.last()).stream() =~= earlier.stream());
            },
        }
    }
}

/// Once everything is written, what was written is the bytes of the messages in the order
/// in which the writer took them.
pub proof fn lemma_all_written(events: Seq<OutboxEvent>)
    requires
        after_events(OutboxView { written: Seq::empty(), unwritten: Seq::empty() }, events)
            .unwritten.len() == 0,
    ensures
        after_events(OutboxView { written: Seq::empty(), unwritten: Seq::empty() }, events).written
            == lined_up(events),
{
    let start = OutboxView { written: Seq::<u8>::empty(), unwritten: Seq::<u8>::empty() };
    lemma_wire_order(start, events);
}

} // verus!
