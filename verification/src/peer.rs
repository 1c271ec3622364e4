//! The `org.freedesktop.DBus.Peer` interface: `Ping` and `GetMachineId`.
//!
//! Reading the machine id is the business of whoever owns the file system. This module
//! decides what a request asks for, checks what was read, and builds the replies.

use crate::hexadecimal::hex_bytes;
use crate::hexadecimal::hex_decode;
use crate::hexadecimal::hex_of;
use crate::hexadecimal::hex_text;
use crate::hexadecimal::lemma_hex_bytes_len;
use crate::text::same_text;
use crate::wire::add_text;
use crate::wire::body_len_of;
use crate::wire::error_of;
use crate::wire::invalid_args_of;
use crate::wire::error_reply;
use crate::wire::is_error_name;
use crate::wire::is_error_reply_to;
use crate::wire::lemma_error_reply;
use crate::wire::is_return_to;
use crate::wire::header_of;
use crate::wire::kind_of;
use crate::wire::member_of;
use crate::wire::message_body_len;
use crate::wire::message_error_name;
use crate::wire::message_kind;
use crate::wire::message_member;
use crate::wire::message_text;
use crate::wire::method_return_of;
use crate::wire::unknown_member_of;
use crate::wire::MessageKind;
use dbus_message_parser::message::Message;
use std::str::Utf8Error;
use vstd::prelude::*;
use vstd::slice::slice_subrange;
use vstd::string::StringExecFns;
use vstd::utf8::decode_utf8;
use vstd::utf8::valid_utf8;

verus! {

#[verifier::external_type_specification]
#[verifier::external_body]
pub struct ExUtf8Error(Utf8Error);

/// `std::str::from_utf8`: the bytes as a string slice. It fails exactly when the bytes are
/// not valid UTF-8.
pub assume_specification<'a>[ core::str::from_utf8 ](bytes: &'a [u8]) -> (text: Result<&'a str, Utf8Error>)
    ensures
        text.is_ok() == valid_utf8(bytes@),
        text.is_ok() ==> text.unwrap()@ == decode_utf8(bytes@),
;

/// Why the contents of a machine-id file are no machine id.
#[derive(Debug)]
pub enum MachineIdError {
    /// The file could not be read.
    IoError(std::io::Error),
    /// The first 32 bytes are not UTF-8.
    Utf8Error(Utf8Error),
    /// More follows the id than one line feed.
    FileTooLarge,
    /// There are fewer than 32 bytes.
    FileTooSmall,
    /// The first 32 bytes are not all hexadecimal digits.
    FromHexError(hex::FromHexError),
}

/// What a [`MachineIdError`] says, without the details that the libraries keep.
pub enum MachineIdFault {
    IoError,
    Utf8Error,
    FileTooLarge,
    FileTooSmall,
    FromHexError,
}

impl MachineIdError {
    /// What the error says.
    pub open spec fn fault(self) -> MachineIdFault {
        match self {
            MachineIdError::IoError(_) => MachineIdFault::IoError,
            MachineIdError::Utf8Error(_) => MachineIdFault::Utf8Error,
            MachineIdError::FileTooLarge => MachineIdFault::FileTooLarge,
            MachineIdError::FileTooSmall => MachineIdFault::FileTooSmall,
            MachineIdError::FromHexError(_) => MachineIdFault::FromHexError,
        }
    }
}

/// The machine id that the contents of a machine-id file stand for: exactly 32 hexadecimal
/// digits, followed by nothing or by one line feed.
pub open spec fn machine_id(contents: Seq<u8>) -> Result<Seq<u8>, MachineIdFault> {
    if contents.len() < 32 {
        Err(MachineIdFault::FileTooSmall)
    } else if !valid_utf8(contents.take(32)) {
        Err(MachineIdFault::Utf8Error)
    } else if !(contents.len() == 32 || (contents.len() == 33 && contents[32] == 0x0a)) {
        Err(MachineIdFault::FileTooLarge)
    } else {
        match hex_bytes(contents.take(32)) {
            Some(id) => Ok(id),
            None => Err(MachineIdFault::FromHexError),
        }
    }
}

/// Checks the contents of a machine-id file and gives the 16 bytes of the id.
pub fn read_machine_id_from_file(contents: &Vec<u8>) -> (id: Result<Vec<u8>, MachineIdError>)
    ensures
        match id {
            Ok(id) => machine_id(contents@) == Ok::<Seq<u8>, MachineIdFault>(id@) && id@.len()
                == 16,
            Err(e) => machine_id(contents@) == Err::<Seq<u8>, MachineIdFault>(e.fault()),
        },
{
    if contents.len() < 32 {
        return Err(MachineIdError::FileTooSmall);
    }
    let digits = slice_subrange(contents.as_slice(), 0, 32);
    match core::str::from_utf8(digits) {
        Ok(_) => {},
        Err(e) => {
            return Err(MachineIdError::Utf8Error(e));
        },
    }
    if !(contents.len() == 32 || (contents.len() == 33 && contents[32] == 0x0a)) {
        return Err(MachineIdError::FileTooLarge);
    }
    proof {
        lemma_hex_bytes_len(digits@);
    }
    match hex_decode(digits) {
        Ok(id) => Ok(id),
        Err(e) => Err(MachineIdError::FromHexError(e)),
    }
}

/// What a request to the interface asks for.
pub enum PeerStep {
    /// Nothing: the request is no method call or names no member.
    Ignore,
    /// This reply is to be sent.
    Reply(Message),
    /// The machine id is to be read, and then [`get_machine_id`] builds the reply.
    ReadMachineId,
}

/// The kinds of reply that the interface gives.
pub enum PeerAnswer {
    /// The method return.
    Return,
    /// The error for a call with arguments.
    InvalidArgs,
    /// The error for a member that the interface does not have.
    UnknownMember,
}

/// What a request asks for, by its kind.
pub enum PeerStepKind {
    Ignore,
    Reply(PeerAnswer),
    ReadMachineId,
}

/// What a request with this kind, this member and this many values in its body asks for.
/// `Ping` and `GetMachineId` take no arguments.
pub open spec fn peer_step(kind: MessageKind, member: Option<Seq<char>>, body_len: nat) -> PeerStepKind {
    if kind != MessageKind::MethodCall || member.is_none() {
        PeerStepKind::Ignore
    } else if member.unwrap() == "GetMachineId"@ {
        if body_len == 0 {
            PeerStepKind::ReadMachineId
        } else {
            PeerStepKind::Reply(PeerAnswer::InvalidArgs)
        }
    } else if member.unwrap() == "Ping"@ {
        if body_len == 0 {
            PeerStepKind::Reply(PeerAnswer::Return)
        } else {
            PeerStepKind::Reply(PeerAnswer::InvalidArgs)
        }
    } else {
        PeerStepKind::Reply(PeerAnswer::UnknownMember)
    }
}

/// Whether `reply` is the answer of the given kind to `request`.
pub open spec fn is_answer(reply: Message, request: Message, answer: PeerAnswer) -> bool {
    match answer {
        PeerAnswer::Return => is_return_to(header_of(reply), header_of(request))
            && message_body_len(reply) == 0,
        PeerAnswer::InvalidArgs => is_error_reply_to(header_of(reply), header_of(request))
            && message_error_name(reply) == Some("org.freedesktop.DBus.Error.InvalidArgs"@)
            && message_text(reply) == Some("Too many arguments"@),
        PeerAnswer::UnknownMember => is_error_reply_to(header_of(reply), header_of(request))
            && message_error_name(reply) == Some("org.freedesktop.DBus.Error.UnknownMember"@),
    }
}

/// Whether `step` is what `request` asks for.
pub open spec fn is_peer_step(step: PeerStep, request: Message) -> bool {
    match peer_step(message_kind(request), message_member(request), message_body_len(request)) {
        PeerStepKind::Ignore => step is Ignore,
        PeerStepKind::ReadMachineId => step is ReadMachineId,
        PeerStepKind::Reply(answer) => match step {
            PeerStep::Reply(reply) => is_answer(reply, request, answer),
            _ => false,
        },
    }
}

/// Decides what a request to the interface asks for, and builds the reply where nothing
/// has to be read for it.
pub fn handle_peer(request: &Message) -> (step: PeerStep)
    ensures
        is_peer_step(step, *request),
{
    if kind_of(request) != MessageKind::MethodCall {
        return PeerStep::Ignore;
    }
    let member = match member_of(request) {
        Some(member) => member,
        None => {
            return PeerStep::Ignore;
        },
    };
    let no_arguments = body_len_of(request) == 0;
    if same_text(member.as_str(), "GetMachineId") {
        if no_arguments {
            PeerStep::ReadMachineId
        } else {
            PeerStep::Reply(invalid_args_of(request, String::from_str("Too many arguments")))
        }
    } else if same_text(member.as_str(), "Ping") {
        if no_arguments {
            match method_return_of(request) {
                Ok(reply) => PeerStep::Reply(reply),
                Err(_) => PeerStep::Ignore,
            }
        } else {
            PeerStep::Reply(invalid_args_of(request, String::from_str("Too many arguments")))
        }
    } else {
        match unknown_member_of(request) {
            Some(reply) => PeerStep::Reply(reply),
            None => PeerStep::Ignore,
        }
    }
}

/// The name of the error that answers `GetMachineId` when no id could be read is an error
/// name.
pub proof fn lemma_machine_id_error_name()
    ensures
        is_error_name("org.freedesktop.DBus.Peer.MachineIdError"@),
{
    reveal_strlit("org.freedesktop.DBus.Peer.MachineIdError");
    let name = "org.freedesktop.DBus.Peer.MachineIdError"@;
    assert(name[3] == '.');
}

/// Builds the reply to `GetMachineId`: the method return with the id as 32 lower-case
/// hexadecimal digits, or an error when no id could be read. There is no reply to a
/// request that is no method call.
pub fn get_machine_id(request: &Message, id: &Option<Vec<u8>>) -> (reply: Option<Message>)
    ensures
        reply.is_some() == (message_kind(*request) == MessageKind::MethodCall),
        reply.is_some() ==> match *id {
            Some(id) => is_return_to(header_of(reply.unwrap()), header_of(*request))
                && message_body_len(reply.unwrap()) == 1 && message_text(reply.unwrap()) == Some(
                hex_text(id@),
            ),
            None => header_of(reply.unwrap()) == error_reply(
                header_of(*request),
                "org.freedesktop.DBus.Peer.MachineIdError"@,
            ) && message_text(reply.unwrap()) == Some("Could not retrieve Machine ID."@),
        },
{
    let mut reply = match method_return_of(request) {
        Ok(reply) => reply,
        Err(_) => {
            return None;
        },
    };
    match id {
        Some(id) => {
            add_text(&mut reply, machine_id_text(id));
            Some(reply)
        },
        None => {
            let text = String::from_str("Could not retrieve Machine ID.");
            proof {
                lemma_machine_id_error_name();
            }
            let failure = error_of(request, "org.freedesktop.DBus.Peer.MachineIdError", text);
            proof {
                lemma_error_reply(header_of(failure.unwrap()), header_of(*request));
            }
            failure
        },
    }
}

/// The machine id as it is told to peers: lower-case hexadecimal digits.
pub fn machine_id_text(id: &Vec<u8>) -> (text: String)
    ensures
        text@ == hex_text(id@),
{
    hex_of(id.as_slice())
}

} // verus!
