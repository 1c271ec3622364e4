//! The bus message as the connection sees it.
//!
//! A message is encoded, decoded and built by the `dbus_message_parser` crate. The connection
//! never looks inside one directly: it reads the header fields it routes by through the
//! functions of this module, and reasons about them through the spec functions declared here.

use dbus_message_parser::match_rule::MatchRule;
use dbus_message_parser::message::Message;
use dbus_message_parser::message::MessageType;
use dbus_message_parser::value::Value;
use vstd::prelude::*;

verus! {

#[verifier::external_type_specification]
#[verifier::external_body]
pub struct ExMessage(Message);

#[verifier::external_type_specification]
#[verifier::external_body]
pub struct ExMatchRule(MatchRule);

/// The four kinds of message that the bus carries.
#[derive(Clone, Copy, Debug, PartialEq, Eq, Structural)]
pub enum MessageKind {
    MethodCall,
    MethodReturn,
    Error,
    Signal,
}

/// The message type stored in the header of `msg`.
pub uninterp spec fn message_kind(msg: Message) -> MessageKind;

/// The serial stored in the header of `msg`.
pub uninterp spec fn message_serial(msg: Message) -> u32;

/// The reply serial header field of `msg`.
pub uninterp spec fn message_reply_serial(msg: Message) -> Option<u32>;

/// The object path header field of `msg`, as text.
pub uninterp spec fn message_path(msg: Message) -> Option<Seq<char>>;

/// The interface header field of `msg`, as text.
pub uninterp spec fn message_interface(msg: Message) -> Option<Seq<char>>;

/// The member header field of `msg`, as text.
pub uninterp spec fn message_member(msg: Message) -> Option<Seq<char>>;

/// The sender header field of `msg`, as text.
pub uninterp spec fn message_sender(msg: Message) -> Option<Seq<char>>;

/// The destination header field of `msg`, as text.
pub uninterp spec fn message_destination(msg: Message) -> Option<Seq<char>>;

/// The error name header field of `msg`, as text.
pub uninterp spec fn message_error_name(msg: Message) -> Option<Seq<char>>;

/// The number of values in the body of `msg`.
pub uninterp spec fn message_body_len(msg: Message) -> nat;

/// The last value in the body of `msg`, if it is a string.
pub uninterp spec fn message_text(msg: Message) -> Option<Seq<char>>;

/// Whether every rule of `rules` accepts `msg`.
pub uninterp spec fn rules_accept(rules: Seq<MatchRule>, msg: Message) -> bool;

/// The header fields that routing decisions are made from, as plain values.
pub struct Header {
    pub kind: MessageKind,
    pub serial: u32,
    pub reply_serial: Option<u32>,
    pub path: Option<String>,
    pub interface: Option<String>,
    pub member: Option<String>,
    pub sender: Option<String>,
    pub destination: Option<String>,
    pub error_name: Option<String>,
}

/// The mathematical content of a [`Header`].
pub struct HeaderView {
    pub kind: MessageKind,
    pub serial: u32,
    pub reply_serial: Option<u32>,
    pub path: Option<Seq<char>>,
    pub interface: Option<Seq<char>>,
    pub member: Option<Seq<char>>,
    pub sender: Option<Seq<char>>,
    pub destination: Option<Seq<char>>,
    pub error_name: Option<Seq<char>>,
}

/// The content of an optional string.
pub open spec fn text_of(s: Option<String>) -> Option<Seq<char>> {
    match s {
        Some(s) => Some(s@),
        None => None,
    }
}

impl View for Header {
    type V = HeaderView;

    open spec fn view(&self) -> HeaderView {
        HeaderView {
            kind: self.kind,
            serial: self.serial,
            reply_serial: self.reply_serial,
            path: text_of(self.path),
            interface: text_of(self.interface),
            member: text_of(self.member),
            sender: text_of(self.sender),
            destination: text_of(self.destination),
            error_name: text_of(self.error_name),
        }
    }
}

/// The header of `msg` as the codec reports it.
pub open spec fn header_of(msg: Message) -> HeaderView {
    HeaderView {
        kind: message_kind(msg),
        serial: message_serial(msg),
        reply_serial: message_reply_serial(msg),
        path: message_path(msg),
        interface: message_interface(msg),
        member: message_member(msg),
        sender: message_sender(msg),
        destination: message_destination(msg),
        error_name: message_error_name(msg),
    }
}

/// Two headers that differ at most in their serial.
pub open spec fn same_but_serial(a: HeaderView, b: HeaderView) -> bool {
    a == (HeaderView { serial: a.serial, ..b })
}

/// `Message::get_type`: the kind of the message, one variant for each message type.
#[verifier::external_body]
pub(crate) fn kind_of(msg: &Message) -> (kind: MessageKind)
    ensures
        kind == message_kind(*msg),
{
    match msg.get_type() {
        MessageType::MethodCall => MessageKind::MethodCall,
        MessageType::MethodReturn => MessageKind::MethodReturn,
        MessageType::Error => MessageKind::Error,
        MessageType::Signal => MessageKind::Signal,
    }
}

/// `Message::get_serial`: the serial in the header.
#[verifier::external_body]
pub(crate) fn serial_of(msg: &Message) -> (serial: u32)
    ensures
        serial == message_serial(*msg),
{
    msg.get_serial()
}

/// `Message::get_reply_serial`: the reply serial header field, if the message has one.
#[verifier::external_body]
pub(crate) fn reply_serial_of(msg: &Message) -> (serial: Option<u32>)
    ensures
        serial == message_reply_serial(*msg),
{
    msg.get_reply_serial()
}

/// `Message::get_path`: the object path header field, if the message has one, copied out as
/// text.
#[verifier::external_body]
pub(crate) fn path_of(msg: &Message) -> (path: Option<String>)
    ensures
        text_of(path) == message_path(*msg),
{
    match msg.get_path() {
        Some(path) => Some(path.to_string()),
        None => None,
    }
}

/// `Message::get_interface`: the interface header field, if the message has one, copied out as
/// text.
#[verifier::external_body]
pub(crate) fn interface_of(msg: &Message) -> (interface: Option<String>)
    ensures
        text_of(interface) == message_interface(*msg),
{
    match msg.get_interface() {
        Some(interface) => Some(interface.to_string()),
        None => None,
    }
}

/// `Message::get_member`: the member header field, if the message has one, copied out as text.
#[verifier::external_body]
pub(crate) fn member_of(msg: &Message) -> (member: Option<String>)
    ensures
        text_of(member) == message_member(*msg),
{
    match msg.get_member() {
        Some(member) => Some(member.to_string()),
        None => None,
    }
}

/// `Message::get_sender`: the sender header field, if the message has one, copied out as text.
#[verifier::external_body]
pub(crate) fn sender_of(msg: &Message) -> (sender: Option<String>)
    ensures
        text_of(sender) == message_sender(*msg),
{
    match msg.get_sender() {
        Some(sender) => Some(sender.to_string()),
        None => None,
    }
}

/// `Message::get_destination`: the destination header field, if the message has one, copied
/// out as text.
#[verifier::external_body]
pub(crate) fn destination_of(msg: &Message) -> (destination: Option<String>)
    ensures
        text_of(destination) == message_destination(*msg),
{
    match msg.get_destination() {
        Some(destination) => Some(destination.to_string()),
        None => None,
    }
}

/// `Message::set_serial`: stores `serial` in the header and leaves every other header field
/// as it was.
#[verifier::external_body]
pub(crate) fn stamp_serial(msg: &mut Message, serial: u32)
    ensures
        message_serial(*final(msg)) == serial,
        same_but_serial(header_of(*final(msg)), header_of(*old(msg))),
{
    msg.set_serial(serial)
}

/// `Message::clone`: a copy equal to the original.
#[verifier::external_body]
pub(crate) fn duplicate(msg: &Message) -> (copy: Message)
    ensures
        copy == *msg,
{
    msg.clone()
}

/// `Message::unknown_path`: the error reply for a message whose object path nobody serves.
/// There is one exactly when the message has a path. It is an error message with serial 0
/// that answers the serial of `msg` and goes back to its sender, in the name of its
/// destination.
#[verifier::external_body]
pub(crate) fn unknown_path_reply(msg: &Message) -> (reply: Option<Message>)
    ensures
        reply.is_some() == message_path(*msg).is_some(),
        reply.is_some() ==> is_error_reply_to(header_of(reply.unwrap()), header_of(*msg))
            && message_error_name(reply.unwrap()) == Some(
            "org.freedesktop.DBus.Error.UnknownPath"@,
        ),
{
    msg.unknown_path()
}

/// The header of the codec's error reply to `request` under the error name `name`: an error
/// message with serial 0 that answers the serial of `request` and goes back to its sender,
/// in the name of its destination.
pub open spec fn error_reply(request: HeaderView, name: Seq<char>) -> HeaderView {
    HeaderView {
        kind: MessageKind::Error,
        serial: 0,
        reply_serial: Some(request.serial),
        path: None,
        interface: None,
        member: None,
        sender: request.destination,
        destination: request.sender,
        error_name: Some(name),
    }
}

/// The error name under which a message is answered whose object path nobody serves.
pub open spec fn unknown_path_name() -> Seq<char> {
    "org.freedesktop.DBus.Error.UnknownPath"@
}

/// An error reply to `request` is [`error_reply`] under the name it carries.
pub proof fn lemma_error_reply(reply: HeaderView, request: HeaderView)
    requires
        is_error_reply_to(reply, request),
        reply.error_name.is_some(),
    ensures
        reply == error_reply(request, reply.error_name.unwrap()),
{
}

/// What the codec's error builders promise of the header of an error reply to `request`.
pub open spec fn is_error_reply_to(reply: HeaderView, request: HeaderView) -> bool {
    &&& reply.kind == MessageKind::Error
    &&& reply.serial == 0
    &&& reply.reply_serial == Some(request.serial)
    &&& reply.destination == request.sender
    &&& reply.sender == request.destination
    &&& reply.path.is_none()
    &&& reply.interface.is_none()
    &&& reply.member.is_none()
}

/// `MatchRule::matching_rules`: whether every rule of the set accepts the message.
#[verifier::external_body]
pub(crate) fn accepts(rules: &Vec<MatchRule>, msg: &Message) -> (accepted: bool)
    ensures
        accepted == rules_accept(rules@, *msg),
{
    MatchRule::matching_rules(rules, msg)
}

/// `Message::get_error_name`: the error name header field, if the message has one, copied
/// out as text.
#[verifier::external_body]
pub(crate) fn error_name_of(msg: &Message) -> (name: Option<String>)
    ensures
        text_of(name) == message_error_name(*msg),
{
    match msg.get_error_name() {
        Some(name) => Some(name.to_string()),
        None => None,
    }
}

/// `Message::get_body`: the number of values in the body.
#[verifier::external_body]
pub(crate) fn body_len_of(msg: &Message) -> (len: usize)
    ensures
        len == message_body_len(*msg),
{
    msg.get_body().len()
}

/// What the codec promises of the header of a method return that answers `request`: it
/// has serial 0, answers the serial of the request and goes back to its sender, in the name
/// of its destination.
pub open spec fn is_return_to(reply: HeaderView, request: HeaderView) -> bool {
    &&& reply.kind == MessageKind::MethodReturn
    &&& reply.serial == 0
    &&& reply.reply_serial == Some(request.serial)
    &&& reply.destination == request.sender
    &&& reply.sender == request.destination
    &&& reply.path.is_none()
    &&& reply.interface.is_none()
    &&& reply.member.is_none()
}

/// `Message::method_return`: the method return that answers a method call, without a body.
/// For a message of another kind the codec gives an error reply instead.
#[verifier::external_body]
pub(crate) fn method_return_of(msg: &Message) -> (reply: Result<Message, Message>)
    ensures
        reply.is_ok() == (message_kind(*msg) == MessageKind::MethodCall),
        match reply {
            Ok(reply) => is_return_to(header_of(reply), header_of(*msg)) && message_body_len(reply)
                == 0,
            Err(reply) => is_error_reply_to(header_of(reply), header_of(*msg)),
        },
{
    msg.method_return()
}

/// `Message::invalid_args`: the error reply that tells the sender of `msg` that its
/// arguments are invalid, with `reason` as the one value of its body.
#[verifier::external_body]
pub(crate) fn invalid_args_of(msg: &Message, reason: String) -> (reply: Message)
    ensures
        is_error_reply_to(header_of(reply), header_of(*msg)),
        message_error_name(reply) == Some("org.freedesktop.DBus.Error.InvalidArgs"@),
        message_text(reply) == Some(reason@),
{
    msg.invalid_args(reason)
}

/// `Message::unknown_member`: the error reply for a message whose member nobody serves.
/// There is one exactly when the message has a member.
#[verifier::external_body]
pub(crate) fn unknown_member_of(msg: &Message) -> (reply: Option<Message>)
    ensures
        reply.is_some() == message_member(*msg).is_some(),
        reply.is_some() ==> is_error_reply_to(header_of(reply.unwrap()), header_of(*msg))
            && message_error_name(reply.unwrap()) == Some(
            "org.freedesktop.DBus.Error.UnknownMember"@,
        ),
{
    msg.unknown_member()
}

/// Whether an element of an error name may begin with `c`: a letter or an underscore.
pub open spec fn begins_element(c: char) -> bool {
    ('a' <= c && c <= 'z') || ('A' <= c && c <= 'Z') || c == '_'
}

/// Whether `name` is an error name: at most 255 characters, two or more elements with a
/// dot between them, each element one or more letters, digits and underscores, none of
/// them beginning with a digit.
pub open spec fn is_error_name(name: Seq<char>) -> bool {
    &&& 0 < name.len() <= 255
    &&& begins_element(name[0])
    &&& exists|i: int| 0 <= i < name.len() && #[trigger] name[i] == '.'
    &&& forall|i: int|
        0 <= i < name.len() ==> if #[trigger] name[i] == '.' {
            i + 1 < name.len() && begins_element(name[i + 1])
        } else {
            begins_element(name[i]) || ('0' <= name[i] && name[i] <= '9')
        }
}

/// `Error::try_from` and `Message::error`: the error reply to `msg` with the error name
/// `name` and `text` as the one value of its body. There is one exactly when `name` is an
/// error name.
#[verifier::external_body]
pub(crate) fn error_of(msg: &Message, name: &str, text: String) -> (reply: Option<Message>)
    ensures
        reply.is_some() == is_error_name(name@),
        reply.is_some() ==> is_error_reply_to(header_of(reply.unwrap()), header_of(*msg))
            && message_error_name(reply.unwrap()) == Some(name@) && message_text(reply.unwrap())
            == Some(text@),
{
    match dbus_message_parser::value::Error::try_from(name) {
        Ok(name) => Some(msg.error(name, text)),
        Err(_) => None,
    }
}

/// `Message::add_value`: appends `text` to the body as a string value. The header stays as
/// it is.
#[verifier::external_body]
pub(crate) fn add_text(msg: &mut Message, text: String)
    ensures
        header_of(*final(msg)) == header_of(*old(msg)),
        message_error_name(*final(msg)) == message_error_name(*old(msg)),
        message_body_len(*final(msg)) == message_body_len(*old(msg)) + 1,
        message_text(*final(msg)) == Some(text@),
{
    msg.add_value(Value::String(text))
}

/// Reads the header of `msg` into plain values.
pub fn read_header(msg: &Message) -> (head: Header)
    ensures
        head@ == header_of(*msg),
{
    Header {
        kind: kind_of(msg),
        serial: serial_of(msg),
        reply_serial: reply_serial_of(msg),
        path: path_of(msg),
        interface: interface_of(msg),
        member: member_of(msg),
        sender: sender_of(msg),
        destination: destination_of(msg),
        error_name: error_name_of(msg),
    }
}

} // verus!
