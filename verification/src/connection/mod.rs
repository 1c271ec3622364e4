//! The connection core: the routing tables, the serial counter and the pending-reply index,
//! and every change that is made to them.

pub mod laws;
pub mod list_path;
pub mod receive_command;
pub mod receive_message;
pub mod send_message;
pub mod state;
pub mod tables;

use crate::command::SignalFilter;
use crate::connection::state::RouterState;
use crate::connection::state::SignalKey;
use crate::connection::state::PENDING_LIMIT;
use crate::endpoint::same_channel;
use crate::pending::new_cache;
use crate::pending::pending_entries;
use crate::pending::pending_limit;
use crate::pending::ReplySink;
use crate::wire::HeaderView;
use dbus_message_parser::match_rule::MatchRule;
use dbus_message_parser::message::Message;
use futures::channel::mpsc::Sender;
use futures::channel::mpsc::UnboundedSender;
use lru::LruCache;
use vstd::prelude::*;

verus! {

/// An entry of a routing table: the endpoint that is registered under `key`. The entry
/// remembers the endpoint as it was attached; the endpoint itself is used for deliveries
/// and stays an end of the same channel.
pub struct Route<K> {
    pub(crate) key: K,
    pub(crate) endpoint: Sender<Message>,
    pub(crate) attached: Ghost<Sender<Message>>,
}

/// The endpoints of the four routing tables as they were attached, each sequence in the
/// order of the entries of its table.
#[verifier::ext_equal]
pub struct Endpoints {
    /// The endpoints of the method-call routes of object paths.
    pub paths: Seq<Sender<Message>>,
    /// The endpoints of the method-call routes of interfaces.
    pub interfaces: Seq<Sender<Message>>,
    /// The endpoints of the signal subscriptions.
    pub signals: Seq<Sender<Message>>,
    /// The endpoints of the match subscriptions.
    pub matches: Seq<Sender<Message>>,
}

impl Endpoints {
    /// Whether there is one endpoint for each entry that `state` records.
    pub open spec fn aligned(self, state: RouterState) -> bool {
        &&& self.paths.len() == state.paths.len()
        &&& self.interfaces.len() == state.interfaces.len()
        &&& self.signals.len() == state.signals.len()
        &&& self.matches.len() == state.matches.len()
    }
}

/// What a signal subscription is registered under: the object path it listens on, and the
/// filter of the subscriber, if it gave one.
pub struct SignalSelector<F> {
    pub(crate) path: String,
    pub(crate) filter: Option<F>,
}

/// The connection core. It owns the routing tables, the serial counter and the
/// pending-reply index; whoever drives it hands it one inbound message or one command at a
/// time. `F` is the type of the filters of signal subscribers.
pub struct Connection<F> {
    pub(crate) serial: u32,
    pub(crate) replies: LruCache<u32, ReplySink>,
    pub(crate) signals: Vec<Route<SignalSelector<F>>>,
    pub(crate) method_calls: Vec<Route<String>>,
    pub(crate) method_calls_interface: Vec<Route<String>>,
    pub(crate) match_rules: Vec<Route<Vec<MatchRule>>>,
    pub(crate) message_sink: UnboundedSender<Message>,
    pub(crate) emitted: Ghost<Seq<HeaderView>>,
    pub(crate) wrapped: Ghost<bool>,
}

/// The keys of a routing table, in the order of its entries.
pub open(crate) spec fn route_keys<K>(routes: Seq<Route<K>>) -> Seq<K> {
    routes.map_values(|route: Route<K>| route.key)
}

/// The endpoints of a routing table as they were attached, in the order of its entries.
pub open(crate) spec fn senders_of<K>(routes: Seq<Route<K>>) -> Seq<Sender<Message>> {
    routes.map_values(|route: Route<K>| route.attached@)
}

/// Whether the endpoint of every entry is an end of the channel of the endpoint that was
/// attached.
pub open(crate) spec fn linked<K>(routes: Seq<Route<K>>) -> bool {
    forall|i: int|
        0 <= i < routes.len() ==> same_channel(
            (#[trigger] routes[i]).endpoint,
            routes[i].attached@,
        )
}

/// The texts of the keys of a table of method-call routes.
pub open(crate) spec fn keys_of(routes: Seq<Route<String>>) -> Seq<Seq<char>> {
    route_keys(routes).map_values(|key: String| key@)
}

/// What the state records of a table of signal subscriptions.
pub open(crate) spec fn signal_keys<F>(routes: Seq<Route<SignalSelector<F>>>) -> Seq<SignalKey> {
    route_keys(routes).map_values(
        |key: SignalSelector<F>| SignalKey { path: key.path@, filtered: key.filter.is_some() },
    )
}

/// The rule sets of a table of match subscriptions.
pub open(crate) spec fn rule_sets(routes: Seq<Route<Vec<MatchRule>>>) -> Seq<Seq<MatchRule>> {
    route_keys(routes).map_values(|key: Vec<MatchRule>| key@)
}

impl<F: SignalFilter> Connection<F> {
    /// The state of the connection.
    pub open(crate) spec fn state(&self) -> RouterState {
        RouterState {
            serial: self.serial,
            pending: pending_entries(self.replies),
            paths: keys_of(self.method_calls@),
            interfaces: keys_of(self.method_calls_interface@),
            signals: signal_keys(self.signals@),
            matches: rule_sets(self.match_rules@),
            emitted: self.emitted@,
            wrapped: self.wrapped@,
        }
    }

    /// The endpoints of the routing tables, as they were attached.
    pub open(crate) spec fn endpoints(&self) -> Endpoints {
        Endpoints {
            paths: senders_of(self.method_calls@),
            interfaces: senders_of(self.method_calls_interface@),
            signals: senders_of(self.signals@),
            matches: senders_of(self.match_rules@),
        }
    }

    /// The invariant of the connection: its state is valid, its pending-reply index was
    /// made for `PENDING_LIMIT` entries, and every endpoint is an end of the channel of the
    /// endpoint that was attached.
    pub open(crate) spec fn wf(&self) -> bool {
        &&& self.state().valid()
        &&& pending_limit(self.replies) == PENDING_LIMIT
        &&& linked(self.method_calls@)
        &&& linked(self.method_calls_interface@)
        &&& linked(self.signals@)
        &&& linked(self.match_rules@)
    }

    /// There is one endpoint for each entry that the state records.
    pub proof fn lemma_aligned(&self)
        ensures
            self.endpoints().aligned(self.state()),
    {
    }

    /// A connection without subscriptions that has stamped no message yet and hands what it
    /// sends to `message_sink`, the queue of the writer.
    pub fn from(message_sink: UnboundedSender<Message>) -> (connection: Connection<F>)
        ensures
            connection.wf(),
            connection.state() == RouterState::initial(),
            connection.endpoints() == (Endpoints {
                paths: Seq::empty(),
                interfaces: Seq::empty(),
                signals: Seq::empty(),
                matches: Seq::empty(),
            }),
    {
        let connection = Connection {
            serial: 0,
            replies: new_cache(PENDING_LIMIT),
            signals: Vec::new(),
            method_calls: Vec::new(),
            method_calls_interface: Vec::new(),
            match_rules: Vec::new(),
            message_sink,
            emitted: Ghost(Seq::empty()),
            wrapped: Ghost(false),
        };
        connection
    }
}

} // verus!
