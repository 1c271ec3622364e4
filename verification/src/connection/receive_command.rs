//! The control surface: the one place where commands change the routing tables.

use crate::command::Command;
use crate::command::SignalFilter;
use crate::connection::keys_of;
use crate::connection::list_path::children;
use crate::connection::list_path::list_children;
use crate::text::texts;
use crate::connection::route_keys;
use crate::connection::rule_sets;
use crate::connection::send_message::emission_of;
use crate::connection::send_message::Emission;
use crate::connection::send_message::Streamed;
use crate::connection::signal_keys;
use crate::connection::senders_of;
use crate::connection::state::displaced;
use crate::connection::state::kept;
use crate::connection::state::placed;
use crate::connection::state::lemma_kept_map;
use crate::connection::state::lemma_kept_no_duplicates;
use crate::connection::state::listed;
use crate::connection::state::unlisted;
use crate::connection::state::RouterState;
use crate::connection::state::SignalKey;
use crate::connection::tables::attach;
use crate::connection::tables::detach;
use crate::connection::tables::detach_key;
use crate::connection::tables::lemma_keys_kept;
use crate::connection::tables::pruned_by;
use crate::connection::tables::Target;
use crate::connection::Connection;
use crate::connection::Endpoints;
use crate::connection::Route;
use crate::connection::SignalSelector;
use crate::endpoint::close_queue;
use crate::endpoint::complete_listing;
use crate::wire::header_of;
use dbus_message_parser::match_rule::MatchRule;
use dbus_message_parser::message::Message;
use futures::channel::mpsc::Sender;
use vstd::prelude::*;

verus! {

/// What a command did.
#[derive(Debug, PartialEq, Eq)]
pub enum CommandReport {
    /// A message was sent for which no reply is awaited.
    Sent(Emission),
    /// A message was sent for which one reply is awaited.
    Called(Emission),
    /// A message was sent for a streamed reply.
    Streamed(Streamed),
    /// An endpoint was registered.
    Attached,
    /// The entry under a key was to be removed; the flag tells whether there was one.
    Detached(bool),
    /// The entries of a subscriber were removed; the flags tell of each entry of the table,
    /// in order, whether it was removed.
    Pruned(Vec<bool>),
    /// The names below a path were listed; the flag tells whether the waiting end took
    /// them.
    Listed(Vec<String>, bool),
    /// The connection was closed.
    Closed,
}

/// Whether `report` and the state `after` are what a connection in `state` can make of the
/// command `cmd`.
pub open spec fn command_outcome<F>(state: RouterState, cmd: Command<F>, report: CommandReport, after: RouterState) -> bool {
    match cmd {
        Command::SendMessage(msg) => match report {
            CommandReport::Sent(emission) => emission_of(state, header_of(msg), emission) && after
                == state.after_emission(emission, header_of(msg)),
            _ => false,
        },
        Command::SendMessageOneshot(msg, _) => match report {
            CommandReport::Called(emission) => emission_of(state, header_of(msg), emission)
                && after == state.after_call(emission, header_of(msg), false),
            _ => false,
        },
        Command::SendMessageMpcs(msg, _, _) => match report {
            CommandReport::Streamed(streamed) => {
                &&& emission_of(state, header_of(msg), streamed.emission)
                &&& streamed.announced ==> streamed.emission is Queued
                &&& after == state.after_call(streamed.emission, header_of(msg), true)
            },
            _ => false,
        },
        Command::AddMethodCall(path, _) => report is Attached && after == state.with_paths(
            listed(state.paths, path@),
        ),
        Command::DeleteMethodCall(path) => match report {
            CommandReport::Detached(removed) => removed == state.paths.contains(
                path@,
            ) && after == state.with_paths(unlisted(state.paths, path@)),
            _ => false,
        },
        Command::DeleteMethodCallSender(_) | Command::DeleteMethodCallReceiver(_) => match report {
            CommandReport::Pruned(dropped) => dropped.len() == state.paths.len() && after
                == state.with_paths(kept(state.paths, dropped@)),
            _ => false,
        },
        Command::ListMethodCall(path, _) => match report {
            CommandReport::Listed(names, _) => {
                &&& texts(names@).no_duplicates()
                &&& texts(names@).to_set() == children(state.paths, path@)
                &&& after == state
            },
            _ => false,
        },
        Command::AddMethodCallInterface(interface, _) => report is Attached && after
            == state.with_interfaces(listed(state.interfaces, interface@)),
        Command::DeleteMethodCallInterface(interface) => match report {
            CommandReport::Detached(removed) => removed == state.interfaces.contains(
                interface@,
            ) && after == state.with_interfaces(
                unlisted(state.interfaces, interface@),
            ),
            _ => false,
        },
        Command::DeleteMethodCallInterfaceSender(_)
        | Command::DeleteMethodCallInterfaceReceiver(_) => match report {
            CommandReport::Pruned(dropped) => dropped.len() == state.interfaces.len() && after
                == state.with_interfaces(kept(state.interfaces, dropped@)),
            _ => false,
        },
        Command::AddSignal(path, filter, _) => report is Attached && after == state.with_signals(
            state.signals.push(
                SignalKey { path: path@, filtered: filter.is_some() },
            ),
        ),
        Command::DeleteSignalSender(_) | Command::DeleteSignalReceiver(_) => match report {
            CommandReport::Pruned(dropped) => dropped.len() == state.signals.len() && after
                == state.with_signals(kept(state.signals, dropped@)),
            _ => false,
        },
        Command::AddMatchRules(rules, _) => report is Attached && after == state.with_matches(
            state.matches.push(rules@),
        ),
        Command::DeleteMatchRulesSender(_) | Command::DeleteMatchRulesReceiver(_) => match report {
            CommandReport::Pruned(dropped) => dropped.len() == state.matches.len() && after
                == state.with_matches(kept(state.matches, dropped@)),
            _ => false,
        },
        Command::Close => report is Closed && after == state.cleared(),
    }
}

/// Whether `report` flags exactly the endpoints that belong to the channel of `target`, and
/// `rest` are the others, in their order.
pub open spec fn pruned(
    endpoints: Seq<Sender<Message>>,
    target: Target,
    report: CommandReport,
    rest: Seq<Sender<Message>>,
) -> bool {
    match report {
        CommandReport::Pruned(dropped) => pruned_by(endpoints, target, dropped@) && rest == kept(
            endpoints,
            dropped@,
        ),
        _ => false,
    }
}

/// Whether the endpoints `after` are what the command `cmd` makes of the endpoints `before`
/// of a connection in `state`, and `report` tells the truth of them. An endpoint that is
/// attached under a path or an interface takes the place of the one that stood there, or
/// comes last where the key is new; a signal or match subscription comes last. Detaching a
/// key takes its endpoint off. Detaching a subscriber takes off exactly the endpoints that
/// belong to its channel, and the report flags exactly those. Closing takes off all. No
/// other command changes an endpoint, and none changes a table other than its own.
pub open spec fn command_endpoints<F>(
    state: RouterState,
    before: Endpoints,
    cmd: Command<F>,
    report: CommandReport,
    after: Endpoints,
) -> bool {
    match cmd {
        Command::AddMethodCall(path, endpoint) => after == (Endpoints {
            paths: placed(state.paths, before.paths, path@, endpoint),
            ..before
        }),
        Command::DeleteMethodCall(path) => after == (Endpoints {
            paths: displaced(state.paths, before.paths, path@),
            ..before
        }),
        Command::DeleteMethodCallSender(sender) => pruned(
            before.paths,
            Target::Sender(sender),
            report,
            after.paths,
        ) && after == (Endpoints { paths: after.paths, ..before }),
        Command::DeleteMethodCallReceiver(receiver) => pruned(
            before.paths,
            Target::Receiver(receiver),
            report,
            after.paths,
        ) && after == (Endpoints { paths: after.paths, ..before }),
        Command::AddMethodCallInterface(interface, endpoint) => after == (Endpoints {
            interfaces: placed(state.interfaces, before.interfaces, interface@, endpoint),
            ..before
        }),
        Command::DeleteMethodCallInterface(interface) => after == (Endpoints {
            interfaces: displaced(state.interfaces, before.interfaces, interface@),
            ..before
        }),
        Command::DeleteMethodCallInterfaceSender(sender) => pruned(
            before.interfaces,
            Target::Sender(sender),
            report,
            after.interfaces,
        ) && after == (Endpoints { interfaces: after.interfaces, ..before }),
        Command::DeleteMethodCallInterfaceReceiver(receiver) => pruned(
            before.interfaces,
            Target::Receiver(receiver),
            report,
            after.interfaces,
        ) && after == (Endpoints { interfaces: after.interfaces, ..before }),
        Command::AddSignal(_, _, endpoint) => after == (Endpoints {
            signals: before.signals.push(endpoint),
            ..before
        }),
        Command::DeleteSignalSender(sender) => pruned(
            before.signals,
            Target::Sender(sender),
            report,
            after.signals,
        ) && after == (Endpoints { signals: after.signals, ..before }),
        Command::DeleteSignalReceiver(receiver) => pruned(
            before.signals,
            Target::Receiver(receiver),
            report,
            after.signals,
        ) && after == (Endpoints { signals: after.signals, ..before }),
        Command::AddMatchRules(_, endpoint) => after == (Endpoints {
            matches: before.matches.push(endpoint),
            ..before
        }),
        Command::DeleteMatchRulesSender(sender) => pruned(
            before.matches,
            Target::Sender(sender),
            report,
            after.matches,
        ) && after == (Endpoints { matches: after.matches, ..before }),
        Command::DeleteMatchRulesReceiver(receiver) => pruned(
            before.matches,
            Target::Receiver(receiver),
            report,
            after.matches,
        ) && after == (Endpoints { matches: after.matches, ..before }),
        Command::Close => after == (Endpoints {
            paths: Seq::empty(),
            interfaces: Seq::empty(),
            signals: Seq::empty(),
            matches: Seq::empty(),
        }),
        Command::SendMessage(_)
        | Command::SendMessageOneshot(_, _)
        | Command::SendMessageMpcs(_, _, _)
        | Command::ListMethodCall(_, _) => after == before,
    }
}

impl<F: SignalFilter> Connection<F> {
    /// Removes the method-call routes of paths that belong to the channel of `target`.
    pub(crate) fn prune_paths(&mut self, target: &Target) -> (dropped: Vec<bool>)
        requires
            old(self).wf(),
        ensures
            final(self).wf(),
            dropped.len() == old(self).state().paths.len(),
            pruned_by(old(self).endpoints().paths, *target, dropped@),
            final(self).endpoints() == (Endpoints {
                paths: kept(old(self).endpoints().paths, dropped@),
                ..old(self).endpoints()
            }),
            final(self).state() == old(self).state().with_paths(
                kept(old(self).state().paths, dropped@),
            ),
    {
        let ghost routes = self.method_calls@;
        let dropped = detach(&mut self.method_calls, target);
        proof {
            lemma_keys_kept(routes, dropped@);
            lemma_kept_no_duplicates(keys_of(routes), dropped@);
        }
        dropped
    }

    /// Removes the method-call routes of interfaces that belong to the channel of `target`.
    pub(crate) fn prune_interfaces(&mut self, target: &Target) -> (dropped: Vec<bool>)
        requires
            old(self).wf(),
        ensures
            final(self).wf(),
            dropped.len() == old(self).state().interfaces.len(),
            pruned_by(old(self).endpoints().interfaces, *target, dropped@),
            final(self).endpoints() == (Endpoints {
                interfaces: kept(old(self).endpoints().interfaces, dropped@),
                ..old(self).endpoints()
            }),
            final(self).state() == old(self).state().with_interfaces(
                kept(old(self).state().interfaces, dropped@),
            ),
    {
        let ghost routes = self.method_calls_interface@;
        let dropped = detach(&mut self.method_calls_interface, target);
        proof {
            lemma_keys_kept(routes, dropped@);
            lemma_kept_no_duplicates(keys_of(routes), dropped@);
        }
        dropped
    }

    /// Removes the signal subscriptions that belong to the channel of `target`.
    pub(crate) fn prune_signals(&mut self, target: &Target) -> (dropped: Vec<bool>)
        requires
            old(self).wf(),
        ensures
            final(self).wf(),
            dropped.len() == old(self).state().signals.len(),
            pruned_by(old(self).endpoints().signals, *target, dropped@),
            final(self).endpoints() == (Endpoints {
                signals: kept(old(self).endpoints().signals, dropped@),
                ..old(self).endpoints()
            }),
            final(self).state() == old(self).state().with_signals(
                kept(old(self).state().signals, dropped@),
            ),
    {
        let ghost routes = self.signals@;
        let dropped = detach(&mut self.signals, target);
        proof {
            lemma_kept_map(routes, dropped@, |route: Route<SignalSelector<F>>| route.key);
            lemma_kept_map(
                route_keys(routes),
                dropped@,
                |key: SignalSelector<F>| SignalKey { path: key.path@, filtered: key.filter.is_some() },
            );
        }
        dropped
    }

    /// Removes the match subscriptions that belong to the channel of `target`.
    pub(crate) fn prune_match_rules(&mut self, target: &Target) -> (dropped: Vec<bool>)
        requires
            old(self).wf(),
        ensures
            final(self).wf(),
            dropped.len() == old(self).state().matches.len(),
            pruned_by(old(self).endpoints().matches, *target, dropped@),
            final(self).endpoints() == (Endpoints {
                matches: kept(old(self).endpoints().matches, dropped@),
                ..old(self).endpoints()
            }),
            final(self).state() == old(self).state().with_matches(
                kept(old(self).state().matches, dropped@),
            ),
    {
        let ghost routes = self.match_rules@;
        let dropped = detach(&mut self.match_rules, target);
        proof {
            lemma_kept_map(routes, dropped@, |route: Route<Vec<MatchRule>>| route.key);
            lemma_kept_map(route_keys(routes), dropped@, |key: Vec<MatchRule>| key@);
        }
        dropped
    }

    /// Closes the connection: the queue of the writer is closed and every subscription is
    /// dropped, which its subscriber observes as the end of its channel.
    pub(crate) fn close(&mut self)
        requires
            old(self).wf(),
        ensures
            final(self).wf(),
            final(self).state() == old(self).state().cleared(),
            final(self).endpoints() == (Endpoints {
                paths: Seq::empty(),
                interfaces: Seq::empty(),
                signals: Seq::empty(),
                matches: Seq::empty(),
            }),
    {
        close_queue(&self.message_sink);
        self.method_calls.clear();
        self.method_calls_interface.clear();
        self.signals.clear();
        self.match_rules.clear();
    }

    /// Carries out one command of a client.
    pub fn receive_command(&mut self, cmd: Command<F>) -> (report: CommandReport)
        requires
            old(self).wf(),
        ensures
            final(self).wf(),
            command_outcome(old(self).state(), cmd, report, final(self).state()),
            command_endpoints(
                old(self).state(),
                old(self).endpoints(),
                cmd,
                report,
                final(self).endpoints(),
            ),
    {
        match cmd {
            Command::SendMessage(msg) => CommandReport::Sent(self.send_message(msg)),
            Command::SendMessageOneshot(msg, response) => CommandReport::Called(
                self.send_message_oneshot(msg, response),
            ),
            Command::SendMessageMpcs(msg, response_reply_serial, response) => {
                CommandReport::Streamed(self.send_message_mpsc(msg, response_reply_serial, response))
            },
            Command::AddMethodCall(object_path, sender) => {
                attach(&mut self.method_calls, object_path, sender);
                CommandReport::Attached
            },
            Command::DeleteMethodCall(object_path) => {
                let removed = detach_key(&mut self.method_calls, &object_path);
                CommandReport::Detached(removed)
            },
            Command::DeleteMethodCallSender(sender) => CommandReport::Pruned(
                self.prune_paths(&Target::Sender(sender)),
            ),
            Command::DeleteMethodCallReceiver(receiver) => CommandReport::Pruned(
                self.prune_paths(&Target::Receiver(receiver)),
            ),
            Command::ListMethodCall(object_path, sender) => {
                let names = list_children(&self.method_calls, &object_path);
                let mut copy: Vec<String> = Vec::new();
                let mut i: usize = 0;
                while i < names.len()
                    invariant
                        i <= names.len(),
                        copy@ =~= names@.take(i as int),
                    decreases names.len() - i,
                {
                    copy.push(names[i].clone());
                    i += 1;
                }
                let taken = complete_listing(sender, copy);
                CommandReport::Listed(names, taken)
            },
            Command::AddMethodCallInterface(interface, sender) => {
                attach(&mut self.method_calls_interface, interface, sender);
                CommandReport::Attached
            },
            Command::DeleteMethodCallInterface(interface) => {
                let removed = detach_key(
                    &mut self.method_calls_interface,
                    &interface,
                );
                CommandReport::Detached(removed)
            },
            Command::DeleteMethodCallInterfaceSender(sender) => CommandReport::Pruned(
                self.prune_interfaces(&Target::Sender(sender)),
            ),
            Command::DeleteMethodCallInterfaceReceiver(receiver) => CommandReport::Pruned(
                self.prune_interfaces(&Target::Receiver(receiver)),
            ),
            Command::AddSignal(object_path, filter, sender) => {
                let ghost keys = signal_keys(self.signals@);
                let ghost key = SignalKey {
                    path: object_path@,
                    filtered: filter.is_some(),
                };
                let ghost senders = senders_of(self.signals@);
                self.signals.push(
                    Route {
                        key: SignalSelector { path: object_path, filter },
                        endpoint: sender,
                        attached: Ghost(sender),
                    },
                );
                assert(signal_keys(self.signals@) =~= keys.push(key));
                assert(senders_of(self.signals@) =~= senders.push(sender));
                CommandReport::Attached
            },
            Command::DeleteSignalSender(sender) => CommandReport::Pruned(
                self.prune_signals(&Target::Sender(sender)),
            ),
            Command::DeleteSignalReceiver(receiver) => CommandReport::Pruned(
                self.prune_signals(&Target::Receiver(receiver)),
            ),
            Command::AddMatchRules(match_rules, sender) => {
                let ghost sets = rule_sets(self.match_rules@);
                let ghost rules = match_rules@;
                let ghost senders = senders_of(self.match_rules@);
                self.match_rules.push(
                    Route { key: match_rules, endpoint: sender, attached: Ghost(sender) },
                );
                assert(rule_sets(self.match_rules@) =~= sets.push(rules));
                assert(senders_of(self.match_rules@) =~= senders.push(sender));
                CommandReport::Attached
            },
            Command::DeleteMatchRulesSender(sender) => CommandReport::Pruned(
                self.prune_match_rules(&Target::Sender(sender)),
            ),
            Command::DeleteMatchRulesReceiver(receiver) => CommandReport::Pruned(
                self.prune_match_rules(&Target::Receiver(receiver)),
            ),
            Command::Close => {
                self.close();
                CommandReport::Closed
            },
        }
    }

    /// Whether any subscription is left.
    pub fn has_channels(&self) -> (any: bool)
        ensures
            any == self.state().has_channels(),
    {
        !self.signals.is_empty() || !self.method_calls.is_empty()
            || !self.method_calls_interface.is_empty() || !self.match_rules.is_empty()
    }
}

} // verus!
