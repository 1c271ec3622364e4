//! The commands that clients submit to the connection.

use dbus_message_parser::match_rule::MatchRule;
use dbus_message_parser::message::Message;
use futures::channel::mpsc::Receiver;
use futures::channel::mpsc::Sender;
use std::collections::HashSet;
use vstd::prelude::*;

verus! {

/// A predicate that a signal subscriber supplies: a signal on which it answers `true` is
/// withheld from that subscriber. What the predicate answers is the subscriber's business:
/// nothing is assumed of it.
pub trait SignalFilter {
    /// Whether `msg` is to be withheld from the subscriber.
    fn withholds(&self, msg: &Message) -> bool;
}

/// An enum representing all commands that the connection understands. Object paths and
/// interfaces are given as text, and `F` is the type of the filters of signal subscribers.
pub enum Command<F> {
    SendMessage(Message),
    SendMessageOneshot(Message, futures::channel::oneshot::Sender<Message>),
    SendMessageMpcs(Message, futures::channel::oneshot::Sender<u32>, Sender<Message>),
    AddMethodCall(String, Sender<Message>),
    DeleteMethodCall(String),
    DeleteMethodCallSender(Sender<Message>),
    DeleteMethodCallReceiver(Receiver<Message>),
    ListMethodCall(String, futures::channel::oneshot::Sender<HashSet<String>>),
    AddMethodCallInterface(String, Sender<Message>),
    DeleteMethodCallInterface(String),
    DeleteMethodCallInterfaceSender(Sender<Message>),
    DeleteMethodCallInterfaceReceiver(Receiver<Message>),
    AddSignal(String, Option<F>, Sender<Message>),
    DeleteSignalSender(Sender<Message>),
    DeleteSignalReceiver(Receiver<Message>),
    AddMatchRules(Vec<MatchRule>, Sender<Message>),
    DeleteMatchRulesSender(Sender<Message>),
    DeleteMatchRulesReceiver(Receiver<Message>),
    Close,
}

} // verus!
