//! The `org.freedesktop.DBus.Introspectable` interface: `Introspect` answers with the names
//! that are registered directly below the requested path, as the standard XML document.
//!
//! Listing the names is a command to the connection, so the handler works in two steps:
//! first it decides what a request asks for, then, given the names, it builds the reply.

use crate::text::same_text;
use crate::text::texts;
use crate::wire::add_text;
use crate::wire::body_len_of;
use crate::wire::header_of;
use crate::wire::invalid_args_of;
use crate::wire::is_error_reply_to;
use crate::wire::is_return_to;
use crate::wire::member_of;
use crate::wire::message_body_len;
use crate::wire::message_error_name;
use crate::wire::message_kind;
use crate::wire::message_member;
use crate::wire::message_path;
use crate::wire::message_text;
use crate::wire::method_return_of;
use crate::wire::path_of;
use crate::wire::unknown_member_of;
use crate::wire::MessageKind;
use dbus_message_parser::message::Message;
use vstd::prelude::*;
use vstd::string::StringExecFns;

verus! {

/// The text that the document begins with.
pub open spec fn xml_head() -> Seq<char> {
    "<!DOCTYPE node PUBLIC \"-//freedesktop//DTD D-BUS Object Introspection 1.0//EN\" \"http://www.freedesktop.org/standards/dbus/1.0/introspect.dtd\">\n<node>\n"@
}

/// The element that names one child.
pub open spec fn xml_child(name: Seq<char>) -> Seq<char> {
    "  <node name=\""@ + name + "\"/>\n"@
}

/// The elements that name the children, in order.
pub open spec fn xml_children(names: Seq<Seq<char>>) -> Seq<char>
    decreases names.len(),
{
    if names.len() == 0 {
        Seq::empty()
    } else {
        xml_children(names.drop_last()) + xml_child(names.last())
    }
}

/// The introspection document of an object with these children.
pub open spec fn introspection_xml(names: Seq<Seq<char>>) -> Seq<char> {
    xml_head() + xml_children(names) + "</node>"@
}

/// Writes the introspection document of an object with these children.
pub fn introspect_xml(names: &Vec<String>) -> (xml: String)
    ensures
        xml@ == introspection_xml(texts(names@)),
{
    let mut xml = String::from_str(
        "<!DOCTYPE node PUBLIC \"-//freedesktop//DTD D-BUS Object Introspection 1.0//EN\" \"http://www.freedesktop.org/standards/dbus/1.0/introspect.dtd\">\n<node>\n",
    );
    let mut i: usize = 0;
    while i < names.len()
        invariant
            i <= names.len(),
            xml@ == xml_head() + xml_children(texts(names@).take(i as int)),
        decreases names.len() - i,
    {
        let ghost done = texts(names@).take(i as int);
        let ghost more = texts(names@).take(i + 1);
        assert(more.drop_last() =~= done);
        xml.append("  <node name=\"");
        xml.append(names[i].as_str());
        xml.append("\"/>\n");
        i += 1;
    }
    assert(texts(names@).take(i as int) =~= texts(names@));
    xml.append("</node>");
    xml
}

/// What a request to the interface asks for.
pub enum IntrospectStep {
    /// Nothing: the request names no member, or `Introspect` names no path.
    Ignore,
    /// This reply is to be sent.
    Reply(Message),
    /// The names below this path are to be listed, and then [`introspect_reply`] builds
    /// the reply.
    List(String),
}

/// What a request asks for, by its kind.
pub enum IntrospectStepKind {
    Ignore,
    InvalidArgs,
    UnknownMember,
    List(Seq<char>),
}

/// What a request with this member, this path and this many values in its body asks for.
/// `Introspect` takes no arguments.
pub open spec fn introspect_step(member: Option<Seq<char>>, path: Option<Seq<char>>, body_len: nat) -> IntrospectStepKind {
    if member.is_none() {
        IntrospectStepKind::Ignore
    } else if member.unwrap() != "Introspect"@ {
        IntrospectStepKind::UnknownMember
    } else if body_len != 0 {
        IntrospectStepKind::InvalidArgs
    } else if path.is_none() {
        IntrospectStepKind::Ignore
    } else {
        IntrospectStepKind::List(path.unwrap())
    }
}

/// Whether `step` is what `request` asks for.
pub open spec fn is_introspect_step(step: IntrospectStep, request: Message) -> bool {
    match introspect_step(
        message_member(request),
        message_path(request),
        message_body_len(request),
    ) {
        IntrospectStepKind::Ignore => step is Ignore,
        IntrospectStepKind::List(path) => match step {
            IntrospectStep::List(listed) => listed@ == path,
            _ => false,
        },
        IntrospectStepKind::InvalidArgs => match step {
            IntrospectStep::Reply(reply) => is_error_reply_to(
                header_of(reply),
                header_of(request),
            ) && message_error_name(reply) == Some("org.freedesktop.DBus.Error.InvalidArgs"@)
                && message_text(reply) == Some("Too many arguments"@),
            _ => false,
        },
        IntrospectStepKind::UnknownMember => match step {
            IntrospectStep::Reply(reply) => is_error_reply_to(
                header_of(reply),
                header_of(request),
            ) && message_error_name(reply) == Some("org.freedesktop.DBus.Error.UnknownMember"@),
            _ => false,
        },
    }
}

/// Decides what a request to the interface asks for, and builds the reply where nothing
/// has to be listed for it.
pub fn introspect(request: &Message) -> (step: IntrospectStep)
    ensures
        is_introspect_step(step, *request),
{
    let member = match member_of(request) {
        Some(member) => member,
        None => {
            return IntrospectStep::Ignore;
        },
    };
    if !same_text(member.as_str(), "Introspect") {
        return match unknown_member_of(request) {
            Some(reply) => IntrospectStep::Reply(reply),
            None => IntrospectStep::Ignore,
        };
    }
    if body_len_of(request) != 0 {
        return IntrospectStep::Reply(
            invalid_args_of(request, String::from_str("Too many arguments")),
        );
    }
    match path_of(request) {
        Some(path) => IntrospectStep::List(path),
        None => IntrospectStep::Ignore,
    }
}

/// Builds the reply to `Introspect`: the method return with the introspection document of
/// an object with these children. For a request that is no method call the codec gives an
/// error reply, which is sent instead.
pub fn introspect_reply(request: &Message, names: &Vec<String>) -> (reply: Message)
    ensures
        if message_kind(*request) == MessageKind::MethodCall {
            is_return_to(header_of(reply), header_of(*request)) && message_body_len(reply) == 1
                && message_text(reply) == Some(introspection_xml(texts(names@)))
        } else {
            is_error_reply_to(header_of(reply), header_of(*request))
        },
{
    match method_return_of(request) {
        Ok(reply) => {
            let mut reply = reply;
            add_text(&mut reply, introspect_xml(names));
            reply
        },
        Err(reply) => reply,
    }
}

} // verus!
