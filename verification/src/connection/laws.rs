//! What holds of a connection whatever the other ends of its channels do.

use crate::command::Command;
use crate::connection::receive_command::command_endpoints;
use crate::connection::receive_command::command_outcome;
use crate::connection::receive_command::CommandReport;
use crate::connection::receive_message::call_report_of;
use crate::connection::receive_message::fan_out_of;
use crate::connection::receive_message::has_route;
use crate::connection::receive_message::reply_report_of;
use crate::connection::receive_message::signal_offers_of;
use crate::connection::receive_message::dispatch_of;
use crate::connection::receive_message::CallReport;
use crate::connection::receive_message::Dispatch;
use crate::connection::receive_message::Routed;
use crate::connection::receive_message::MatchOffer;
use crate::connection::receive_message::ReplyReport;
use crate::connection::receive_message::SignalOffer;
use crate::connection::send_message::emission_of;
use crate::connection::send_message::Emission;
use crate::connection::state::following;
use crate::connection::state::kept;
use crate::connection::state::lemma_free_after;
use crate::connection::state::lemma_kept_no_duplicates;
use crate::connection::state::listed;
use crate::connection::state::unlisted;
use crate::connection::state::RouterState;
use crate::connection::state::SignalKey;
use crate::connection::state::PENDING_LIMIT;
use crate::connection::tables::belongs_to;
use crate::connection::tables::pruned_by;
use crate::connection::tables::Target;
use crate::connection::Endpoints;
use crate::endpoint::Delivery;
use crate::pending::awaits;
use crate::pending::lemma_forget;
use crate::pending::lemma_remember;
use crate::pending::slot_of;
use crate::pending::Waiter;
use crate::wire::rules_accept;
use crate::wire::HeaderView;
use crate::wire::MessageKind;
use dbus_message_parser::match_rule::MatchRule;
use dbus_message_parser::message::Message;
use futures::channel::mpsc::Sender;
use vstd::prelude::*;

verus! {

/// The `count` serials that follow `start`, one after the other.
pub open spec fn serials_from(start: u32, count: nat) -> Seq<u32>
    decreases count,
{
    if count == 0 {
        Seq::empty()
    } else {
        seq![following(start)] + serials_from(following(start), (count - 1) as nat)
    }
}

/// Serial monotonicity: the serial that follows another is never zero, and as long as the
/// counter does not pass the largest serial, it is the one before it plus one.
pub proof fn lemma_serials_increase(start: u32, count: nat)
    ensures
        serials_from(start, count).len() == count,
        forall|i: int| 0 <= i < count ==> #[trigger] serials_from(start, count)[i] != 0,
        start + count <= u32::MAX ==> forall|i: int|
            0 <= i < count ==> #[trigger] serials_from(start, count)[i] == start + i + 1,
        start + count <= u32::MAX ==> forall|i: int, j: int|
            0 <= i < j < count ==> serials_from(start, count)[i] < serials_from(start, count)[j],
    decreases count,
{
    if count > 0 {
        lemma_serials_increase(following(start), (count - 1) as nat);
    }
}

/// The serial of the next message is never zero and never one that a reply is waited for,
/// also after the counter has begun anew. Until then, and while no waiter stands in the
/// way, it is the last serial plus one.
pub proof fn lemma_next_serial_is_free(state: RouterState)
    requires
        state.valid(),
    ensures
        state.next_serial() != 0,
        !awaits(state.pending, state.next_serial()),
        !awaits(state.pending, following(state.serial)) ==> state.next_serial() == following(
            state.serial,
        ),
        !state.wrapped && state.serial < u32::MAX ==> state.next_serial() == state.serial + 1,
{
    lemma_free_after(state.pending, state.serial, Seq::empty());
}

/// A message that is sent either uses exactly the next serial that is not waited for, or,
/// if it is self-addressed, uses none and leaves the connection as it was. A message that
/// was queued is the last that was handed to the writer, with its header fields as they
/// came and the serial it was stamped with.
pub proof fn lemma_emission_uses_next_serial(state: RouterState, head: HeaderView, emission: Emission)
    requires
        emission_of(state, head, emission),
    ensures
        emission == Emission::Rejected ==> state.after_emission(emission, head) == state,
        emission != Emission::Rejected ==> emission.serial() == Some(state.next_serial())
            && state.after_emission(emission, head).serial == state.next_serial(),
        emission is Queued ==> state.after_emission(emission, head).emitted
            == state.emitted.push(HeaderView { serial: state.next_serial(), ..head }),
{
}

/// Reply correlation, registration: once a call is queued with serial `serial`, a one-shot
/// waiter stands under `serial`, and it is the most recently used one.
pub proof fn lemma_call_registers_waiter(state: RouterState, head: HeaderView, serial: u32)
    requires
        state.valid(),
        serial == state.next_serial(),
    ensures
        state.after_call(Emission::Queued(serial), head, false).valid(),
        awaits(state.after_call(Emission::Queued(serial), head, false).pending, serial),
        state.after_call(Emission::Queued(serial), head, false).pending[0] == (Waiter {
            serial,
            stream: false,
        }),
{
    lemma_next_serial_is_free(state);
    lemma_remember(state.pending, PENDING_LIMIT as nat, Waiter { serial, stream: false });
}

/// Reply correlation, delivery: a reply whose reply serial has a one-shot waiter goes to
/// that waiter and uses it up, so that a second reply with the same reply serial is
/// dropped; every other waiter stays. A reply without a waiter is dropped and changes
/// nothing.
pub proof fn lemma_reply_correlation(state: RouterState, head: HeaderView, report: ReplyReport, serial: u32)
    requires
        state.valid(),
        head.reply_serial == Some(serial),
        reply_report_of(state, head, report),
    ensures
        !awaits(state.pending, serial) ==> report == ReplyReport::Orphan && state.after_reply(
            head,
            report,
        ) == state,
        awaits(state.pending, serial) && !state.pending[slot_of(state.pending, serial)].stream
            ==> report is Oneshot && !awaits(state.after_reply(head, report).pending, serial),
        forall|other: u32|
            other != serial ==> (awaits(state.after_reply(head, report).pending, other) <==> awaits(
                state.pending,
                other,
            )),
        state.after_reply(head, report).valid(),
{
    lemma_forget(state.pending, serial);
    let rest = crate::pending::forget(state.pending, serial);
    let again = Waiter { serial, stream: true };
    let kept = seq![again] + rest;
    assert forall|other: u32| other != serial implies (awaits(kept, other) <==> awaits(
        rest,
        other,
    )) by {
        if awaits(rest, other) {
            let j = slot_of(rest, other);
            assert(kept[j + 1] == rest[j]);
        }
    }
}

/// Unhandled method call: a call with a path that no endpoint took is answered, and where
/// the answer was queued, the last message handed to the writer is the codec's error reply
/// to the call: an error under the name for an unknown object path that answers the serial
/// of the call, goes to its sender and carries the next serial.
pub proof fn lemma_unhandled_reply(state: RouterState, head: HeaderView, report: CallReport)
    requires
        call_report_of(state, head, report),
        head.path.is_some(),
        report.path != Some(Delivery::Sent),
        report.interface != Some(Delivery::Sent),
    ensures
        report.reply.is_some(),
        report.reply.unwrap().serial() == Some(state.next_serial()),
        report.reply.unwrap() is Queued ==> state.after_method_call(head, report).emitted
            == state.emitted.push(
            HeaderView {
                kind: MessageKind::Error,
                serial: state.next_serial(),
                reply_serial: Some(head.serial),
                path: None,
                interface: None,
                member: None,
                sender: head.destination,
                destination: head.sender,
                error_name: Some("org.freedesktop.DBus.Error.UnknownPath"@),
            },
        ),
{
}

/// Path dispatch exclusivity: when a method call has a route for its path and a route for
/// its interface, the route of the path is tried, and the route of the interface is tried
/// exactly when the endpoint of the path route was found disconnected.
pub proof fn lemma_path_before_interface(state: RouterState, head: HeaderView, report: CallReport)
    requires
        has_route(state.paths, head.path),
        has_route(state.interfaces, head.interface),
        call_report_of(state, head, report),
    ensures
        report.path.is_some(),
        report.interface.is_some() <==> report.path == Some(Delivery::Disconnected),
        report.path == Some(Delivery::Sent) ==> report.reply.is_none() && state.after_method_call(
            head,
            report,
        ) == state,
{
}

/// Signal filter semantics: a subscription on the path of a signal that has a filter is
/// offered the signal exactly when its filter answered `false`; one that has no filter is
/// always offered it; one on another path never is.
pub proof fn lemma_signal_filter(signals: Seq<SignalKey>, head: HeaderView, offers: Seq<SignalOffer>, i: int)
    requires
        signal_offers_of(signals, head, offers),
        0 <= i < signals.len(),
    ensures
        head.path != Some(signals[i].path) ==> offers[i].delivery.is_none(),
        head.path == Some(signals[i].path) && signals[i].filtered ==> (
        offers[i].delivery.is_some() <==> offers[i].verdict == Some(false)),
        head.path == Some(signals[i].path) && !signals[i].filtered
            ==> offers[i].delivery.is_some(),
{
    match offers[i].verdict {
        Some(answer) => {},
        None => {},
    }
}

/// The number of subscriptions whose rules accept `msg`.
pub open spec fn accepting(matches: Seq<Seq<MatchRule>>, msg: Message) -> nat
    decreases matches.len(),
{
    if matches.len() == 0 {
        0
    } else {
        accepting(matches.drop_last(), msg) + if rules_accept(matches.last(), msg) {
            1nat
        } else {
            0nat
        }
    }
}

/// The number of offers with a delivery attempt.
pub open spec fn attempts(offers: Seq<MatchOffer>) -> nat
    decreases offers.len(),
{
    if offers.len() == 0 {
        0
    } else {
        attempts(offers.drop_last()) + if offers.last().delivery.is_some() {
            1nat
        } else {
            0nat
        }
    }
}

/// Match-rule fan-out: each match subscription whose rules accept a message is offered one
/// copy of it and no other subscription is, so that as many copies are offered as
/// subscriptions accept the message.
pub proof fn lemma_fan_out(matches: Seq<Seq<MatchRule>>, msg: Message, offers: Seq<MatchOffer>)
    requires
        fan_out_of(matches, msg, offers),
    ensures
        offers.len() == matches.len(),
        forall|i: int|
            0 <= i < matches.len() ==> (offers[i].delivery.is_some() <==> rules_accept(
                #[trigger] matches[i],
                msg,
            )),
        attempts(offers) == accepting(matches, msg),
    decreases matches.len(),
{
    if matches.len() > 0 {
        let fewer = offers.drop_last();
        lemma_fan_out(matches.drop_last(), msg, fewer);
    }
}

/// Idempotent detach: removing the route of a path that has none changes nothing, and
/// removing a route twice is the same as removing it once.
pub proof fn lemma_detach_idempotent(state: RouterState, path: Seq<char>)
    requires
        state.valid(),
    ensures
        !state.paths.contains(path) ==> state.with_paths(unlisted(state.paths, path)) == state,
        unlisted(unlisted(state.paths, path), path) == unlisted(state.paths, path),
{
}

/// Idempotent detach, as a command: `DeleteMethodCall` for a path without a route reports
/// that nothing was removed and leaves the connection as it was.
pub proof fn lemma_delete_unregistered<F>(state: RouterState, path: String, report: CommandReport, after: RouterState)
    requires
        state.valid(),
        !state.paths.contains(path@),
        command_outcome(state, Command::<F>::DeleteMethodCall(path), report, after),
    ensures
        report == CommandReport::Detached(false),
        after == state,
{
}

/// Attach replaces: after an endpoint was attached under a path, it is the endpoint of that
/// path, whether the path had a route before or not, and every other path has the
/// endpoint that it had.
pub proof fn lemma_attach_replaces<F>(
    state: RouterState,
    before: Endpoints,
    path: String,
    endpoint: Sender<Message>,
    report: CommandReport,
    next: RouterState,
    after: Endpoints,
)
    requires
        state.valid(),
        before.aligned(state),
        command_outcome(state, Command::<F>::AddMethodCall(path, endpoint), report, next),
        command_endpoints(state, before, Command::<F>::AddMethodCall(path, endpoint), report, after),
    ensures
        after.aligned(next),
        next.paths.contains(path@),
        after.paths[next.paths.index_of(path@)] == endpoint,
        forall|other: Seq<char>|
            other != path@ && state.paths.contains(other) ==> next.paths.contains(other)
                && after.paths[next.paths.index_of(other)] == before.paths[state.paths.index_of(
                other,
            )],
{
    lemma_listed(state.paths, path@);
    assert forall|other: Seq<char>| other != path@ && state.paths.contains(other) implies (
    next.paths.contains(other) && after.paths[next.paths.index_of(other)]
        == before.paths[state.paths.index_of(other)]) by {
        let i = state.paths.index_of(other);
        assert(next.paths[i] == other);
    }
}

/// Detach by endpoint: a command that detaches a subscriber flags exactly the endpoints
/// that belong to its channel, and none of the endpoints that are left belongs to it.
pub proof fn lemma_pruned_leaves_none(endpoints: Seq<Sender<Message>>, target: Target, dropped: Seq<bool>)
    requires
        pruned_by(endpoints, target, dropped),
    ensures
        forall|j: int| 0 <= j < endpoints.len() ==> (dropped[j] <==> belongs_to(endpoints[j], target)),
        forall|i: int|
            0 <= i < kept(endpoints, dropped).len() ==> !belongs_to(
                #[trigger] kept(endpoints, dropped)[i],
                target,
            ),
    decreases endpoints.len(),
{
    if endpoints.len() > 0 {
        let fewer = dropped.drop_last();
        assert forall|j: int| 0 <= j < fewer.len() implies #[trigger] fewer[j] == belongs_to(
            endpoints.drop_last()[j],
            target,
        ) by {
            assert(fewer[j] == dropped[j]);
        }
        lemma_pruned_leaves_none(endpoints.drop_last(), target, fewer);
        let shorter = kept(endpoints.drop_last(), fewer);
        let all = kept(endpoints, dropped);
        assert(dropped.last() == belongs_to(endpoints.last(), target));
        assert forall|i: int| 0 <= i < all.len() implies !belongs_to(#[trigger] all[i], target) by {
            if i < shorter.len() {
                assert(all[i] == shorter[i]);
            }
        }
    }
}

/// Detaching a route takes the route of that key off and no other, and leaves at most one
/// route for every key.
pub proof fn lemma_unlisted(keys: Seq<Seq<char>>, key: Seq<char>)
    requires
        keys.no_duplicates(),
    ensures
        unlisted(keys, key).no_duplicates(),
        !unlisted(keys, key).contains(key),
        forall|other: Seq<char>|
            other != key ==> (unlisted(keys, key).contains(other) <==> keys.contains(other)),
{
    let rest = unlisted(keys, key);
    if keys.contains(key) {
        let k = keys.index_of(key);
        assert forall|i: int| 0 <= i < rest.len() implies rest[i] != key by {
        }
        assert forall|other: Seq<char>| other != key && keys.contains(other) implies rest.contains(
            other,
        ) by {
            let j = keys.index_of(other);
            if j < k {
                assert(rest[j] == other);
            } else {
                assert(rest[j - 1] == other);
            }
        }
    }
}

/// Attaching a route leaves at most one route for every key: the key is added unless it has
/// a route already.
pub proof fn lemma_listed(keys: Seq<Seq<char>>, key: Seq<char>)
    requires
        keys.no_duplicates(),
    ensures
        listed(keys, key).no_duplicates(),
        listed(keys, key).contains(key),
{
    if !keys.contains(key) {
        assert(keys.push(key)[keys.len() as int] == key);
    }
}

/// The invariant of the state holds after every inbound message, whatever the channels do:
/// a path and an interface keep at most one route each, a serial at most one waiter, and
/// the waiters stay within the limit.
pub proof fn lemma_dispatch_keeps_valid(state: RouterState, msg: Message, dispatch: Dispatch, after: RouterState)
    requires
        state.valid(),
        dispatch_of(state, msg, dispatch, after),
    ensures
        after.valid(),
{
    lemma_next_serial_is_free(state);
}

/// The invariant of the state holds after every command.
pub proof fn lemma_command_keeps_valid<F>(state: RouterState, cmd: Command<F>, report: CommandReport, after: RouterState)
    requires
        state.valid(),
        command_outcome(state, cmd, report, after),
    ensures
        after.valid(),
{
    lemma_next_serial_is_free(state);
    match report {
        CommandReport::Pruned(dropped) => {
            if dropped.len() == state.paths.len() {
                lemma_kept_no_duplicates(state.paths, dropped@);
            }
            if dropped.len() == state.interfaces.len() {
                lemma_kept_no_duplicates(state.interfaces, dropped@);
            }
        },
        _ => {},
    }
}

/// The serial counter moves only when a message is stamped, and then to the next serial
/// that is not waited for: after an inbound message it stands where it stood, or there if
/// an error reply was sent.
pub proof fn lemma_dispatch_moves_serial_one_step(state: RouterState, msg: Message, dispatch: Dispatch, after: RouterState)
    requires
        dispatch_of(state, msg, dispatch, after),
    ensures
        after.serial == state.serial || after.serial == state.next_serial(),
        after.serial != state.serial ==> (dispatch.routed matches Routed::Call(report)
            && report.reply.is_some()),
{
}

/// A new connection is in a valid state.
pub proof fn lemma_initial_valid()
    ensures
        RouterState::initial().valid(),
{
}

/// Serial monotonicity, of the messages that reach the writer: in every valid state none of
/// them carries the serial zero, and until the counter begins anew their serials increase
/// strictly in the order in which they were handed over.
pub proof fn lemma_emitted_serials_increase(state: RouterState, i: int, j: int)
    requires
        state.valid(),
        0 <= i < j < state.emitted.len(),
    ensures
        state.emitted[i].serial != 0,
        state.emitted[j].serial != 0,
        !state.wrapped ==> state.emitted[i].serial < state.emitted[j].serial,
{
}

/// Wire order is command order: a command hands at most one message to the writer, which
/// comes after all that were handed over before it, and carries the next serial that is
/// not waited for.
pub proof fn lemma_command_appends<F>(state: RouterState, cmd: Command<F>, report: CommandReport, after: RouterState)
    requires
        command_outcome(state, cmd, report, after),
    ensures
        after.emitted == state.emitted || (after.emitted.len() == state.emitted.len() + 1
            && after.emitted.drop_last() == state.emitted && after.emitted.last().serial
            == state.next_serial()),
        after.emitted != state.emitted ==> after.serial == state.next_serial(),
{
}

/// An inbound message hands at most one message to the writer, which comes after all that
/// were handed over before it: the error reply to a method call that nobody took.
pub proof fn lemma_dispatch_appends(state: RouterState, msg: Message, dispatch: Dispatch, after: RouterState)
    requires
        dispatch_of(state, msg, dispatch, after),
    ensures
        after.emitted == state.emitted || (after.emitted.len() == state.emitted.len() + 1
            && after.emitted.drop_last() == state.emitted && after.emitted.last().serial
            == state.next_serial()),
        after.emitted != state.emitted ==> (dispatch.routed matches Routed::Call(report)
            && report.reply.is_some()),
{
}

} // verus!
