//! The errors that a client of the connection sees.

use crate::command::Command;
use crate::stream::StreamError;
use crate::wire::error_name_of;
use crate::wire::kind_of;
use crate::wire::message_error_name;
use crate::wire::message_kind;
use crate::wire::MessageKind;
use dbus_message_parser::message::Message;
use vstd::prelude::*;

verus! {

/// What can go wrong for a client. A command that could not be submitted comes back as the
/// error of its kind, with what identifies it.
#[derive(Debug)]
pub enum DBusError {
    SendMessage(Message),
    AddMethodCall(String),
    DeleteMethodCall(Option<String>),
    ListMethodCall(String),
    AddMethodCallInterface(String),
    DeleteMethodCallInterface(Option<String>),
    AddSignal(String),
    DeleteSignal,
    AddMatchRules,
    DeleteMatchRules,
    ReceiveMessage(Option<Message>),
    StreamError(StreamError),
    DBusSessionBusAddress,
    Hello(String),
    Close,
}

impl DBusError {
    /// The error for a command that the connection did not take.
    pub fn from<F>(cmd: Command<F>) -> (error: DBusError)
        ensures
            match cmd {
                Command::SendMessage(msg) => error matches DBusError::SendMessage(m) && m == msg,
                Command::SendMessageOneshot(msg, _) => error matches DBusError::SendMessage(m)
                    && m == msg,
                Command::SendMessageMpcs(msg, _, _) => error matches DBusError::SendMessage(m)
                    && m == msg,
                Command::AddMethodCall(path, _) => error matches DBusError::AddMethodCall(p) && p
                    == path,
                Command::DeleteMethodCall(path) => error matches DBusError::DeleteMethodCall(
                    Some(p),
                ) && p == path,
                Command::DeleteMethodCallSender(_) => error matches DBusError::DeleteMethodCall(
                    None,
                ),
                Command::DeleteMethodCallReceiver(_) => error matches DBusError::DeleteMethodCall(
                    None,
                ),
                Command::ListMethodCall(path, _) => error matches DBusError::ListMethodCall(p) && p
                    == path,
                Command::AddMethodCallInterface(interface, _) => error
                    matches DBusError::AddMethodCallInterface(i) && i == interface,
                Command::DeleteMethodCallInterface(interface) => error
                    matches DBusError::DeleteMethodCallInterface(Some(i)) && i == interface,
                Command::DeleteMethodCallInterfaceSender(_) => error
                    matches DBusError::DeleteMethodCallInterface(None),
                Command::DeleteMethodCallInterfaceReceiver(_) => error
                    matches DBusError::DeleteMethodCallInterface(None),
                Command::AddSignal(path, _, _) => error matches DBusError::AddSignal(p) && p
                    == path,
                Command::DeleteSignalSender(_) => error is DeleteSignal,
                Command::DeleteSignalReceiver(_) => error is DeleteSignal,
                Command::AddMatchRules(_, _) => error is AddMatchRules,
                Command::DeleteMatchRulesSender(_) => error is DeleteMatchRules,
                Command::DeleteMatchRulesReceiver(_) => error is DeleteMatchRules,
                Command::Close => error is Close,
            },
    {
        match cmd {
            Command::SendMessage(msg) => DBusError::SendMessage(msg),
            Command::SendMessageOneshot(msg, _) => DBusError::SendMessage(msg),
            Command::SendMessageMpcs(msg, _, _) => DBusError::SendMessage(msg),
            Command::AddMethodCall(object_path, _) => DBusError::AddMethodCall(object_path),
            Command::DeleteMethodCall(object_path) => DBusError::DeleteMethodCall(
                Some(object_path),
            ),
            Command::DeleteMethodCallSender(_) => DBusError::DeleteMethodCall(None),
            Command::DeleteMethodCallReceiver(_) => DBusError::DeleteMethodCall(None),
            Command::ListMethodCall(object_path, _) => DBusError::ListMethodCall(object_path),
            Command::AddMethodCallInterface(interface, _) => DBusError::AddMethodCallInterface(
                interface,
            ),
            Command::DeleteMethodCallInterface(interface) => DBusError::DeleteMethodCallInterface(
                Some(interface),
            ),
            Command::DeleteMethodCallInterfaceSender(_) => DBusError::DeleteMethodCallInterface(
                None,
            ),
            Command::DeleteMethodCallInterfaceReceiver(_) => DBusError::DeleteMethodCallInterface(
                None,
            ),
            Command::AddSignal(object_path, _, _) => DBusError::AddSignal(object_path),
            Command::DeleteSignalSender(_) => DBusError::DeleteSignal,
            Command::DeleteSignalReceiver(_) => DBusError::DeleteSignal,
            Command::AddMatchRules(_, _) => DBusError::AddMatchRules,
            Command::DeleteMatchRulesSender(_) => DBusError::DeleteMatchRules,
            Command::DeleteMatchRulesReceiver(_) => DBusError::DeleteMatchRules,
            Command::Close => DBusError::Close,
        }
    }
}

/// The address list of the session bus: what `DBUS_SESSION_BUS_ADDRESS` holds. Without it
/// there is no session bus to connect to.
pub fn session(address: Option<String>) -> (list: Result<String, DBusError>)
    ensures
        match address {
            Some(given) => list matches Ok(taken) && taken == given,
            None => list matches Err(DBusError::DBusSessionBusAddress),
        },
{
    match address {
        Some(address) => Ok(address),
        None => Err(DBusError::DBusSessionBusAddress),
    }
}

/// The address list of the system bus: what `DBUS_SYSTEM_BUS_ADDRESS` holds, and without it
/// the well-known socket of the system bus.
pub fn system(address: Option<String>) -> (list: String)
    ensures
        list@ == match address {
            Some(given) => given@,
            None => "unix:path=/var/run/dbus/system_bus_socket"@,
        },
{
    match address {
        Some(address) => address,
        None => "unix:path=/var/run/dbus/system_bus_socket".to_owned(),
    }
}

/// Checks the reply of the daemon to `Hello`: an error reply fails the setup with its error
/// name, every other reply completes it.
pub fn call_hello(reply: &Message) -> (checked: Result<(), DBusError>)
    ensures
        checked.is_err() == (message_kind(*reply) == MessageKind::Error),
        match checked {
            Err(DBusError::Hello(name)) => message_error_name(*reply) == Some(name@)
                || message_error_name(*reply).is_none() && name@.len() == 0,
            Err(_) => false,
            Ok(()) => true,
        },
{
    if kind_of(reply) == MessageKind::Error {
        match error_name_of(reply) {
            Some(name) => Err(DBusError::Hello(name)),
            None => Err(DBusError::Hello(String::new())),
        }
    } else {
        Ok(())
    }
}

} // verus!
