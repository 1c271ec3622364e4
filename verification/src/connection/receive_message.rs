//! The inbound path: offering a message to the match subscriptions and dispatching it by its
//! kind.

use crate::command::SignalFilter;
use crate::connection::keys_of;
use crate::connection::linked;
use crate::connection::senders_of;
use crate::connection::state::displaced;
use crate::connection::Endpoints;
use crate::connection::rule_sets;
use crate::connection::send_message::Emission;
use crate::connection::signal_keys;
use crate::connection::state::kept;
use crate::connection::state::unlisted;
use crate::connection::state::RouterState;
use crate::connection::state::SignalKey;
use crate::connection::tables::find_route;
use crate::connection::tables::lemma_kept_step;
use crate::connection::Connection;
use crate::connection::Route;
use crate::endpoint::complete;
use crate::endpoint::try_deliver;
use crate::endpoint::Delivery;
use crate::pending::awaits;
use crate::pending::forget;
use crate::pending::pop_waiter;
use crate::pending::put_waiter;
use crate::pending::slot_of;
use crate::pending::ReplySink;
use crate::pending::Waiter;
use crate::wire::accepts;
use crate::wire::duplicate;
use crate::wire::header_of;
use crate::wire::interface_of;
use crate::wire::kind_of;
use crate::wire::message_kind;
use crate::wire::message_path;
use crate::wire::path_of;
use crate::wire::reply_serial_of;
use crate::wire::rules_accept;
use crate::wire::text_of;
use crate::wire::error_reply;
use crate::wire::lemma_error_reply;
use crate::wire::unknown_path_name;
use crate::wire::unknown_path_reply;
use crate::wire::HeaderView;
use crate::wire::MessageKind;
use dbus_message_parser::match_rule::MatchRule;
use dbus_message_parser::message::Message;
use vstd::prelude::*;

verus! {

/// What a match subscription did with an inbound message.
#[derive(Clone, Copy, Debug, PartialEq, Eq)]
pub struct MatchOffer {
    /// Whether the rules of the subscription accept the message.
    pub accepted: bool,
    /// How the delivery of its copy ended, if one was attempted.
    pub delivery: Option<Delivery>,
}

/// What a signal subscription did with an inbound signal.
#[derive(Clone, Copy, Debug, PartialEq, Eq)]
pub struct SignalOffer {
    /// Whether the subscription listens on the path of the signal.
    pub addressed: bool,
    /// What the filter of the subscription answered, if it was asked.
    pub verdict: Option<bool>,
    /// How the delivery of its copy ended, if one was attempted.
    pub delivery: Option<Delivery>,
}

/// What became of an inbound method call.
#[derive(Clone, Copy, Debug, PartialEq, Eq)]
pub struct CallReport {
    /// How the delivery to the route of its path ended, if there is such a route.
    pub path: Option<Delivery>,
    /// How the delivery to the route of its interface ended, if it was attempted.
    pub interface: Option<Delivery>,
    /// What became of the error reply, if the call was not handled and one was built.
    pub reply: Option<Emission>,
}

/// What became of an inbound method return or error.
#[derive(Clone, Copy, Debug, PartialEq, Eq)]
pub enum ReplyReport {
    /// Nobody waits for it: it was dropped.
    Orphan,
    /// It went to the one-shot sink registered under its reply serial; the flag tells
    /// whether the waiting end was still there.
    Oneshot(bool),
    /// It went to the stream sink registered under its reply serial.
    Stream(Delivery),
}

/// What became of an inbound message, by its kind.
#[derive(Debug, PartialEq, Eq)]
pub enum Routed {
    Call(CallReport),
    Reply(ReplyReport),
    Signal(Vec<SignalOffer>),
}

/// What became of an inbound message.
#[derive(Debug, PartialEq, Eq)]
pub struct Dispatch {
    /// What each match subscription did with it, in the order of attachment.
    pub matches: Vec<MatchOffer>,
    /// Where it went by its kind.
    pub routed: Routed,
}

/// A delivery attempt on a route that may not exist, with the message when it was not sent.
pub struct Offer {
    pub delivery: Option<Delivery>,
    pub returned: Option<Message>,
}

/// Whether `keys` holds the key, if one is given.
pub open spec fn has_route(keys: Seq<Seq<char>>, key: Option<Seq<char>>) -> bool {
    key.is_some() && keys.contains(key.unwrap())
}

/// Whether the offers are those of match subscriptions with these rule sets to `msg`: each
/// subscription whose rules accept the message is offered one copy, and no other is.
pub open spec fn fan_out_of(matches: Seq<Seq<MatchRule>>, msg: Message, offers: Seq<MatchOffer>) -> bool {
    &&& offers.len() == matches.len()
    &&& forall|i: int|
        0 <= i < offers.len() ==> {
            &&& (#[trigger] offers[i]).accepted == rules_accept(matches[i], msg)
            &&& offers[i].delivery.is_some() == offers[i].accepted
        }
}

/// Whether the report is one that a connection in `state` can give of a method call with
/// this header. The route of the path comes first. The route of the interface is tried when
/// there is no route for the path or its endpoint is disconnected. A call that neither took
/// is answered with an error reply, if the codec builds one: it does for a call with a path.
/// The reply is stamped with the next serial that is not waited for.
pub open spec fn call_report_of(state: RouterState, head: HeaderView, report: CallReport) -> bool {
    &&& report.path.is_some() == has_route(state.paths, head.path)
    &&& report.interface.is_some() == (has_route(state.interfaces, head.interface) && (
    report.path.is_none() || report.path == Some(Delivery::Disconnected)))
    &&& report.reply.is_some() == (head.path.is_some() && report.path != Some(Delivery::Sent)
        && report.interface != Some(Delivery::Sent))
    &&& report.reply.is_some() ==> report.reply.unwrap().serial() == Some(state.next_serial())
}

/// Whether the report is one that a connection in `state` can give of a method return or an
/// error with this header.
pub open spec fn reply_report_of(state: RouterState, head: HeaderView, report: ReplyReport) -> bool {
    let waited = head.reply_serial.is_some() && awaits(state.pending, head.reply_serial.unwrap());
    match report {
        ReplyReport::Orphan => !waited,
        ReplyReport::Oneshot(_) => waited && !state.pending[slot_of(
            state.pending,
            head.reply_serial.unwrap(),
        )].stream,
        ReplyReport::Stream(_) => waited && state.pending[slot_of(
            state.pending,
            head.reply_serial.unwrap(),
        )].stream,
    }
}

/// Whether the offers are those of these signal subscriptions to a signal with this header.
/// A subscription is addressed when it listens on the path of the signal. Its filter, if it
/// has one, is asked then, and a copy is offered unless the filter answered `true`.
pub open spec fn signal_offers_of(signals: Seq<SignalKey>, head: HeaderView, offers: Seq<SignalOffer>) -> bool {
    &&& offers.len() == signals.len()
    &&& forall|i: int|
        0 <= i < offers.len() ==> {
            &&& (#[trigger] offers[i]).addressed == (head.path == Some(signals[i].path))
            &&& offers[i].verdict.is_some() == (offers[i].addressed && signals[i].filtered)
            &&& offers[i].delivery.is_some() == (offers[i].addressed && offers[i].verdict != Some(
                true,
            ))
        }
}

/// For each offer, whether it found the endpoint of its subscription disconnected.
pub open spec fn disconnected(offers: Seq<SignalOffer>) -> Seq<bool> {
    offers.map_values(|offer: SignalOffer| offer.delivery == Some(Delivery::Disconnected))
}

impl RouterState {
    /// The state after a method call: a route whose endpoint was found disconnected is gone,
    /// and where an error reply was queued, it is the codec's reply to the call under the
    /// name for an unknown object path.
    pub open spec fn after_method_call(self, head: HeaderView, report: CallReport) -> RouterState {
        let routed = RouterState {
            paths: if report.path == Some(Delivery::Disconnected) {
                unlisted(self.paths, head.path.unwrap())
            } else {
                self.paths
            },
            interfaces: if report.interface == Some(Delivery::Disconnected) {
                unlisted(self.interfaces, head.interface.unwrap())
            } else {
                self.interfaces
            },
            ..self
        };
        match report.reply {
            Some(emission) => routed.after_emission(
                emission,
                error_reply(head, unknown_path_name()),
            ),
            None => routed,
        }
    }

    /// The state after a method return or an error: a one-shot sink is used up, a stream
    /// sink stays, as the most recently used waiter, unless its endpoint was found
    /// disconnected.
    pub open spec fn after_reply(self, head: HeaderView, report: ReplyReport) -> RouterState {
        match report {
            ReplyReport::Orphan => self,
            ReplyReport::Oneshot(_) => self.waiting(forget(self.pending, head.reply_serial.unwrap())),
            ReplyReport::Stream(delivery) => if delivery == Delivery::Disconnected {
                self.waiting(forget(self.pending, head.reply_serial.unwrap()))
            } else {
                self.waiting(
                    seq![Waiter { serial: head.reply_serial.unwrap(), stream: true }] + forget(
                        self.pending,
                        head.reply_serial.unwrap(),
                    ),
                )
            },
        }
    }

    /// The state after a signal: the subscriptions whose endpoint was found disconnected are
    /// gone.
    pub open spec fn after_signal(self, offers: Seq<SignalOffer>) -> RouterState {
        self.with_signals(kept(self.signals, disconnected(offers)))
    }
}

impl Endpoints {
    /// The endpoints after a method call: the endpoint of a route that was found
    /// disconnected is gone with its route.
    pub open spec fn after_method_call(
        self,
        state: RouterState,
        head: HeaderView,
        report: CallReport,
    ) -> Endpoints {
        Endpoints {
            paths: if report.path == Some(Delivery::Disconnected) {
                displaced(state.paths, self.paths, head.path.unwrap())
            } else {
                self.paths
            },
            interfaces: if report.interface == Some(Delivery::Disconnected) {
                displaced(state.interfaces, self.interfaces, head.interface.unwrap())
            } else {
                self.interfaces
            },
            ..self
        }
    }

    /// The endpoints after a signal: those that were found disconnected are gone.
    pub open spec fn after_signal(self, offers: Seq<SignalOffer>) -> Endpoints {
        Endpoints { signals: kept(self.signals, disconnected(offers)), ..self }
    }
}

/// The endpoints that are left of the endpoints `before` of a connection in `state` once the
/// inbound message `msg` was dispatched as `dispatch` tells. A reply changes none, and no
/// inbound message changes a match subscription.
pub open spec fn dispatch_endpoints(
    state: RouterState,
    before: Endpoints,
    msg: Message,
    dispatch: Dispatch,
) -> Endpoints {
    match dispatch.routed {
        Routed::Call(report) => before.after_method_call(state, header_of(msg), report),
        Routed::Reply(_) => before,
        Routed::Signal(offers) => before.after_signal(offers@),
    }
}

/// Whether `dispatch` and the state `after` are what a connection in `state` can make of the
/// inbound message `msg`.
pub open spec fn dispatch_of(state: RouterState, msg: Message, dispatch: Dispatch, after: RouterState) -> bool {
    &&& fan_out_of(state.matches, msg, dispatch.matches@)
    &&& match dispatch.routed {
        Routed::Call(report) => {
            &&& message_kind(msg) == MessageKind::MethodCall
            &&& call_report_of(state, header_of(msg), report)
            &&& after == state.after_method_call(header_of(msg), report)
        },
        Routed::Reply(report) => {
            &&& message_kind(msg) == MessageKind::MethodReturn || message_kind(msg)
                == MessageKind::Error
            &&& reply_report_of(state, header_of(msg), report)
            &&& after == state.after_reply(header_of(msg), report)
        },
        Routed::Signal(offers) => {
            &&& message_kind(msg) == MessageKind::Signal
            &&& signal_offers_of(state.signals, header_of(msg), offers@)
            &&& after == state.after_signal(offers@)
        },
    }
}

/// Offers `msg` to the route registered under `key`, if a key is given and has a route. A
/// route whose endpoint is found disconnected is removed.
pub(crate) fn offer_to_route(routes: &mut Vec<Route<String>>, key: &Option<String>, msg: Message) -> (offer: Offer)
    requires
        keys_of(old(routes)@).no_duplicates(),
        linked(old(routes)@),
    ensures
        offer.delivery.is_some() == has_route(keys_of(old(routes)@), text_of(*key)),
        offer.returned.is_none() == (offer.delivery == Some(Delivery::Sent)),
        offer.returned.is_some() ==> offer.returned.unwrap() == msg,
        keys_of(final(routes)@) == if offer.delivery == Some(Delivery::Disconnected) {
            unlisted(keys_of(old(routes)@), key.unwrap()@)
        } else {
            keys_of(old(routes)@)
        },
        senders_of(final(routes)@) == if offer.delivery == Some(Delivery::Disconnected) {
            displaced(keys_of(old(routes)@), senders_of(old(routes)@), key.unwrap()@)
        } else {
            senders_of(old(routes)@)
        },
        linked(final(routes)@),
{
    let found = match key {
        Some(key) => find_route(routes, key),
        None => None,
    };
    match found {
        None => Offer { delivery: None, returned: Some(msg) },
        Some(i) => {
            let attempt = try_deliver(&mut routes[i].endpoint, msg);
            if attempt.delivery == Delivery::Disconnected {
                let _ = routes.remove(i);
            }
            Offer { delivery: Some(attempt.delivery), returned: attempt.returned }
        },
    }
}

impl<F: SignalFilter> Connection<F> {
    /// Offers a copy of `msg` to every match subscription whose rules accept it.
    pub fn fan_out(&mut self, msg: &Message) -> (offers: Vec<MatchOffer>)
        requires
            old(self).wf(),
        ensures
            final(self).wf(),
            final(self).state() == old(self).state(),
            final(self).endpoints() == old(self).endpoints(),
            fan_out_of(old(self).state().matches, *msg, offers@),
    {
        let mut offers: Vec<MatchOffer> = Vec::new();
        let mut i: usize = 0;
        while i < self.match_rules.len()
            invariant
                i <= self.match_rules.len(),
                offers.len() == i,
                self.wf(),
                self.state() == old(self).state(),
                self.endpoints() == old(self).endpoints(),
                forall|j: int|
                    0 <= j < i ==> {
                        &&& (#[trigger] offers[j]).accepted == rules_accept(
                            old(self).state().matches[j],
                            *msg,
                        )
                        &&& offers[j].delivery.is_some() == offers[j].accepted
                    },
            decreases self.match_rules.len() - i,
        {
            let ghost sets = rule_sets(self.match_rules@);
            let accepted = accepts(&self.match_rules[i].key, msg);
            let mut delivery: Option<Delivery> = None;
            if accepted {
                let attempt = try_deliver(&mut self.match_rules[i].endpoint, duplicate(msg));
                delivery = Some(attempt.delivery);
            }
            assert(rule_sets(self.match_rules@) =~= sets);
            offers.push(MatchOffer { accepted, delivery });
            i += 1;
        }
        offers
    }

    /// Offers a method call to the route of its object path.
    pub(crate) fn find_sender_by_object_path(&mut self, msg: Message) -> (offer: Offer)
        requires
            old(self).wf(),
        ensures
            final(self).wf(),
            offer.delivery.is_some() == has_route(old(self).state().paths, message_path(msg)),
            offer.returned.is_none() == (offer.delivery == Some(Delivery::Sent)),
            offer.returned.is_some() ==> offer.returned.unwrap() == msg,
            final(self).state() == old(self).state().with_paths(
                if offer.delivery == Some(Delivery::Disconnected) {
                    unlisted(old(self).state().paths, message_path(msg).unwrap())
                } else {
                    old(self).state().paths
                },
            ),
            final(self).endpoints() == (Endpoints {
                paths: if offer.delivery == Some(Delivery::Disconnected) {
                    displaced(
                        old(self).state().paths,
                        old(self).endpoints().paths,
                        message_path(msg).unwrap(),
                    )
                } else {
                    old(self).endpoints().paths
                },
                ..old(self).endpoints()
            }),
    {
        let path = path_of(&msg);
        offer_to_route(&mut self.method_calls, &path, msg)
    }

    /// Offers a method call to the route of its interface.
    pub(crate) fn find_sender_by_interface(&mut self, msg: Message) -> (offer: Offer)
        requires
            old(self).wf(),
        ensures
            final(self).wf(),
            offer.delivery.is_some() == has_route(
                old(self).state().interfaces,
                crate::wire::message_interface(msg),
            ),
            offer.returned.is_none() == (offer.delivery == Some(Delivery::Sent)),
            offer.returned.is_some() ==> offer.returned.unwrap() == msg,
            final(self).state() == old(self).state().with_interfaces(
                if offer.delivery == Some(Delivery::Disconnected) {
                    unlisted(
                        old(self).state().interfaces,
                        crate::wire::message_interface(msg).unwrap(),
                    )
                } else {
                    old(self).state().interfaces
                },
            ),
            final(self).endpoints() == (Endpoints {
                interfaces: if offer.delivery == Some(Delivery::Disconnected) {
                    displaced(
                        old(self).state().interfaces,
                        old(self).endpoints().interfaces,
                        crate::wire::message_interface(msg).unwrap(),
                    )
                } else {
                    old(self).endpoints().interfaces
                },
                ..old(self).endpoints()
            }),
    {
        let interface = interface_of(&msg);
        offer_to_route(&mut self.method_calls_interface, &interface, msg)
    }

    /// Answers a method call that nobody took: the codec builds the error reply, which is
    /// stamped with the next serial and handed to the writer. It is an error message under
    /// the name for an unknown object path that answers the serial of the call and goes back
    /// to its sender. There is no reply for a call without a path.
    pub fn unhandled(&mut self, msg: Message) -> (reply: Option<Emission>)
        requires
            old(self).wf(),
        ensures
            final(self).wf(),
            final(self).endpoints() == old(self).endpoints(),
            reply.is_some() == message_path(msg).is_some(),
            reply.is_some() ==> reply.unwrap().serial() == Some(old(self).state().next_serial()),
            final(self).state() == if reply.is_some() {
                old(self).state().after_emission(
                    reply.unwrap(),
                    error_reply(header_of(msg), unknown_path_name()),
                )
            } else {
                old(self).state()
            },
    {
        match unknown_path_reply(&msg) {
            Some(reply) => {
                proof {
                    lemma_error_reply(header_of(reply), header_of(msg));
                }
                Some(self.emit(reply))
            },
            None => None,
        }
    }

    /// Dispatches an inbound method call: to the route of its path, else to the route of its
    /// interface, else it is answered as unhandled.
    pub fn method_call(&mut self, msg: Message) -> (report: CallReport)
        requires
            old(self).wf(),
        ensures
            final(self).wf(),
            call_report_of(old(self).state(), header_of(msg), report),
            final(self).state() == old(self).state().after_method_call(header_of(msg), report),
            final(self).endpoints() == old(self).endpoints().after_method_call(
                old(self).state(),
                header_of(msg),
                report,
            ),
    {
        let Offer { delivery: path, returned } = self.find_sender_by_object_path(msg);
        let msg = match returned {
            Some(msg) => msg,
            None => {
                return CallReport { path, interface: None, reply: None };
            },
        };
        if let Some(Delivery::Full) = path {
            let reply = self.unhandled(msg);
            return CallReport { path, interface: None, reply };
        }
        let Offer { delivery: interface, returned } = self.find_sender_by_interface(msg);
        let msg = match returned {
            Some(msg) => msg,
            None => {
                return CallReport { path, interface, reply: None };
            },
        };
        let reply = self.unhandled(msg);
        CallReport { path, interface, reply }
    }

    /// Hands a reply to the sink that waits for its reply serial.
    pub(crate) fn deliver_reply(&mut self, msg: Message) -> (report: ReplyReport)
        requires
            old(self).wf(),
        ensures
            final(self).wf(),
            reply_report_of(old(self).state(), header_of(msg), report),
            final(self).state() == old(self).state().after_reply(header_of(msg), report),
            final(self).endpoints() == old(self).endpoints(),
    {
        let serial = match reply_serial_of(&msg) {
            Some(serial) => serial,
            None => {
                return ReplyReport::Orphan;
            },
        };
        match pop_waiter(&mut self.replies, serial) {
            None => ReplyReport::Orphan,
            Some(ReplySink::Oneshot(sink)) => {
                let taken = complete(sink, msg);
                ReplyReport::Oneshot(taken)
            },
            Some(ReplySink::Stream(sink)) => {
                let mut sink = sink;
                let attempt = try_deliver(&mut sink, msg);
                if attempt.delivery != Delivery::Disconnected {
                    put_waiter(&mut self.replies, serial, ReplySink::Stream(sink));
                }
                ReplyReport::Stream(attempt.delivery)
            },
        }
    }

    /// Dispatches an inbound method return.
    pub fn method_return(&mut self, msg: Message) -> (report: ReplyReport)
        requires
            old(self).wf(),
        ensures
            final(self).wf(),
            reply_report_of(old(self).state(), header_of(msg), report),
            final(self).state() == old(self).state().after_reply(header_of(msg), report),
            final(self).endpoints() == old(self).endpoints(),
    {
        self.deliver_reply(msg)
    }

    /// Dispatches an inbound error.
    pub fn error(&mut self, msg: Message) -> (report: ReplyReport)
        requires
            old(self).wf(),
        ensures
            final(self).wf(),
            reply_report_of(old(self).state(), header_of(msg), report),
            final(self).state() == old(self).state().after_reply(header_of(msg), report),
            final(self).endpoints() == old(self).endpoints(),
    {
        self.deliver_reply(msg)
    }

    /// Dispatches an inbound signal to the subscriptions on its path, in the order in which
    /// they were attached. A subscription whose endpoint is found disconnected is removed.
    pub fn signal(&mut self, msg: Message) -> (offers: Vec<SignalOffer>)
        requires
            old(self).wf(),
        ensures
            final(self).wf(),
            signal_offers_of(old(self).state().signals, header_of(msg), offers@),
            final(self).state() == old(self).state().after_signal(offers@),
            final(self).endpoints() == old(self).endpoints().after_signal(offers@),
    {
        let path = path_of(&msg);
        let ghost before = self.state().signals;
        let ghost ends = self.endpoints().signals;
        let mut offers: Vec<SignalOffer> = Vec::new();
        let mut i: usize = 0;
        while i < self.signals.len()
            invariant
                i <= self.signals.len(),
                offers.len() + (self.signals.len() - i) == before.len(),
                before == old(self).state().signals,
                text_of(path) == message_path(msg),
                self.wf(),
                self.state().with_signals(before) == old(self).state(),
                ends == old(self).endpoints().signals,
                ends.len() == before.len(),
                self.endpoints() == (Endpoints {
                    signals: self.endpoints().signals,
                    ..old(self).endpoints()
                }),
                self.endpoints().signals == kept(
                    ends.take(offers.len() as int),
                    disconnected(offers@),
                ) + ends.skip(offers.len() as int),
                i == kept(before.take(offers.len() as int), disconnected(offers@)).len(),
                self.state().signals == kept(
                    before.take(offers.len() as int),
                    disconnected(offers@),
                ) + before.skip(offers.len() as int),
                forall|j: int|
                    0 <= j < offers.len() ==> {
                        &&& (#[trigger] offers[j]).addressed == (message_path(msg) == Some(
                            before[j].path,
                        ))
                        &&& offers[j].verdict.is_some() == (offers[j].addressed
                            && before[j].filtered)
                        &&& offers[j].delivery.is_some() == (offers[j].addressed
                            && offers[j].verdict != Some(true))
                    },
            decreases self.signals.len() - i,
        {
            let ghost keys = signal_keys(self.signals@);
            let ghost senders = senders_of(self.signals@);
            let ghost k = offers.len() as int;
            assert(keys[i as int] == before[k]);
            let addressed = match &path {
                Some(path) => *path == self.signals[i].key.path,
                None => false,
            };
            let mut verdict: Option<bool> = None;
            let mut delivery: Option<Delivery> = None;
            if addressed {
                if let Some(filter) = &self.signals[i].key.filter {
                    verdict = Some(filter.withholds(&msg));
                }
                let withheld = match verdict {
                    Some(answer) => answer,
                    None => false,
                };
                if !withheld {
                    let attempt = try_deliver(&mut self.signals[i].endpoint, duplicate(&msg));
                    delivery = Some(attempt.delivery);
                }
            }
            assert(signal_keys(self.signals@) =~= keys);
            assert(senders_of(self.signals@) =~= senders);
            let offer = SignalOffer { addressed, verdict, delivery };
            proof {
                lemma_kept_step(before, disconnected(offers@), delivery == Some(Delivery::Disconnected));
                lemma_kept_step(ends, disconnected(offers@), delivery == Some(Delivery::Disconnected));
                assert(disconnected(offers@.push(offer)) =~= disconnected(offers@).push(
                    delivery == Some(Delivery::Disconnected),
                ));
            }
            if let Some(Delivery::Disconnected) = delivery {
                let _ = self.signals.remove(i);
                assert(signal_keys(self.signals@) =~= keys.remove(i as int));
                assert(senders_of(self.signals@) =~= senders.remove(i as int));
            } else {
                i += 1;
            }
            offers.push(offer);
        }
        proof {
            assert(before.take(offers.len() as int) =~= before);
            assert(ends.take(offers.len() as int) =~= ends);
        }
        offers
    }

    /// Takes an inbound message: it is offered to every match subscription whose rules
    /// accept it, and then dispatched by its kind.
    pub fn receive_message(&mut self, msg: Message) -> (dispatch: Dispatch)
        requires
            old(self).wf(),
        ensures
            final(self).wf(),
            dispatch_of(old(self).state(), msg, dispatch, final(self).state()),
            final(self).endpoints() == dispatch_endpoints(
                old(self).state(),
                old(self).endpoints(),
                msg,
                dispatch,
            ),
    {
        let matches = self.fan_out(&msg);
        let routed = match kind_of(&msg) {
            MessageKind::MethodCall => Routed::Call(self.method_call(msg)),
            MessageKind::MethodReturn => Routed::Reply(self.method_return(msg)),
            MessageKind::Error => Routed::Reply(self.error(msg)),
            MessageKind::Signal => Routed::Signal(self.signal(msg)),
        };
        Dispatch { matches, routed }
    }
}

} // verus!
