//! Looking up and pruning the entries of a routing table.

use crate::connection::keys_of;
use crate::connection::linked;
use crate::connection::senders_of;
use crate::connection::state::displaced;
use crate::connection::state::lemma_kept_len;
use crate::connection::state::placed;
use crate::endpoint::same_channel;
use crate::connection::route_keys;
use crate::connection::state::kept;
use crate::connection::state::lemma_kept_map;
use crate::connection::state::listed;
use crate::connection::state::unlisted;
use crate::connection::Route;
use crate::endpoint::connected_to;
use crate::endpoint::is_connected_to;
use crate::endpoint::same_receiver;
use crate::endpoint::share_receiver;
use dbus_message_parser::message::Message;
use futures::channel::mpsc::Receiver;
use futures::channel::mpsc::Sender;
use vstd::prelude::*;

verus! {

/// One end of a subscriber's channel, by which its subscriptions are found again.
pub enum Target {
    /// A sender of the channel.
    Sender(Sender<Message>),
    /// The receiver of the channel.
    Receiver(Receiver<Message>),
}

/// Whether `endpoint` belongs to the channel that `target` is an end of: it shares its
/// receiver with a sender, or feeds a receiver.
pub open spec fn belongs_to(endpoint: Sender<Message>, target: Target) -> bool {
    match target {
        Target::Sender(sender) => share_receiver(sender, endpoint),
        Target::Receiver(receiver) => connected_to(endpoint, receiver),
    }
}

/// Two ends of one channel belong to the same targets.
pub proof fn lemma_same_channel(endpoint: Sender<Message>, other: Sender<Message>, target: Target)
    requires
        same_channel(endpoint, other),
    ensures
        belongs_to(endpoint, target) == belongs_to(other, target),
{
}

/// Whether `dropped` flags, of the endpoints in their order, exactly those that belong to
/// the channel that `target` is an end of.
pub open spec fn pruned_by(endpoints: Seq<Sender<Message>>, target: Target, dropped: Seq<bool>) -> bool {
    &&& dropped.len() == endpoints.len()
    &&& forall|j: int|
        0 <= j < dropped.len() ==> #[trigger] dropped[j] == belongs_to(endpoints[j], target)
}

/// Whether `endpoint` belongs to the channel that `target` is an end of.
pub(crate) fn feeds(endpoint: &Sender<Message>, target: &Target) -> (fed: bool)
    ensures
        fed == belongs_to(*endpoint, *target),
{
    match target {
        Target::Sender(sender) => same_receiver(sender, endpoint),
        Target::Receiver(receiver) => is_connected_to(endpoint, receiver),
    }
}

/// One more flag decides about one more item.
pub proof fn lemma_kept_step<T>(items: Seq<T>, dropped: Seq<bool>, flag: bool)
    requires
        dropped.len() < items.len(),
    ensures
        kept(items.take(dropped.len() as int + 1), dropped.push(flag)) == if flag {
            kept(items.take(dropped.len() as int), dropped)
        } else {
            kept(items.take(dropped.len() as int), dropped).push(items[dropped.len() as int])
        },
{
    let k = dropped.len() as int;
    assert(items.take(k + 1).drop_last() =~= items.take(k));
    assert(dropped.push(flag).drop_last() =~= dropped);
}

/// The position of the route registered under `key`, if there is one.
pub(crate) fn find_route(routes: &Vec<Route<String>>, key: &String) -> (found: Option<usize>)
    ensures
        match found {
            Some(i) => i < routes.len() && keys_of(routes@)[i as int] == key@,
            None => !keys_of(routes@).contains(key@),
        },
{
    let mut i: usize = 0;
    while i < routes.len()
        invariant
            i <= routes.len(),
            forall|j: int| 0 <= j < i ==> keys_of(routes@)[j] != key@,
        decreases routes.len() - i,
    {
        if routes[i].key == *key {
            return Some(i);
        }
        i += 1;
    }
    None
}

/// Registers `endpoint` under `key`. It takes the place of an endpoint that was registered
/// under the same key before.
pub(crate) fn attach(routes: &mut Vec<Route<String>>, key: String, endpoint: Sender<Message>)
    requires
        keys_of(old(routes)@).no_duplicates(),
        linked(old(routes)@),
    ensures
        keys_of(final(routes)@) == listed(keys_of(old(routes)@), key@),
        keys_of(final(routes)@).no_duplicates(),
        senders_of(final(routes)@) == placed(
            keys_of(old(routes)@),
            senders_of(old(routes)@),
            key@,
            endpoint,
        ),
        linked(final(routes)@),
{
    let ghost keys = keys_of(routes@);
    match find_route(routes, &key) {
        Some(i) => {
            routes[i] = Route { key, endpoint, attached: Ghost(endpoint) };
            assert(keys_of(routes@) =~= keys);
        },
        None => {
            routes.push(Route { key, endpoint, attached: Ghost(endpoint) });
        },
    }
}

/// Removes the route registered under `key`, if there is one.
pub(crate) fn detach_key(routes: &mut Vec<Route<String>>, key: &String) -> (removed: bool)
    requires
        keys_of(old(routes)@).no_duplicates(),
        linked(old(routes)@),
    ensures
        removed == keys_of(old(routes)@).contains(key@),
        keys_of(final(routes)@) == unlisted(keys_of(old(routes)@), key@),
        keys_of(final(routes)@).no_duplicates(),
        senders_of(final(routes)@) == displaced(
            keys_of(old(routes)@),
            senders_of(old(routes)@),
            key@,
        ),
        linked(final(routes)@),
{
    match find_route(routes, key) {
        Some(i) => {
            let _ = routes.remove(i);
            true
        },
        None => false,
    }
}

/// Pruning a table prunes its keys.
pub proof fn lemma_keys_kept(routes: Seq<Route<String>>, dropped: Seq<bool>)
    requires
        dropped.len() == routes.len(),
    ensures
        keys_of(kept(routes, dropped)) == kept(keys_of(routes), dropped),
{
    lemma_kept_map(routes, dropped, |route: Route<String>| route.key);
    lemma_kept_map(route_keys(routes), dropped, |key: String| key@);
}

/// Removes every route whose endpoint belongs to the channel of `target`, and tells of each
/// route, in the order of the table, whether it was removed.
pub(crate) fn detach<K>(routes: &mut Vec<Route<K>>, target: &Target) -> (dropped: Vec<bool>)
    requires
        linked(old(routes)@),
    ensures
        dropped.len() == old(routes).len(),
        pruned_by(senders_of(old(routes)@), *target, dropped@),
        final(routes)@ == kept(old(routes)@, dropped@),
        senders_of(final(routes)@) == kept(senders_of(old(routes)@), dropped@),
        linked(final(routes)@),
{
    let ghost before = routes@;

    let mut dropped: Vec<bool> = Vec::new();
    let mut i: usize = 0;
    while i < routes.len()
        invariant
            i <= routes.len(),
            dropped.len() + (routes.len() - i) == before.len(),
            i == kept(before.take(dropped.len() as int), dropped@).len(),
            routes@ == kept(before.take(dropped.len() as int), dropped@) + before.skip(
                dropped.len() as int,
            ),
            forall|j: int|
                0 <= j < dropped.len() ==> #[trigger] dropped[j] == belongs_to(
                    before[j].endpoint,
                    *target,
                ),
        decreases routes.len() - i,
    {
        let hit = feeds(&routes[i].endpoint, target);
        proof {
            lemma_kept_step(before, dropped@, hit);
        }
        if hit {
            let _ = routes.remove(i);
        } else {
            i += 1;
        }
        dropped.push(hit);
    }
    proof {
        assert(before.take(before.len() as int) =~= before);
        lemma_kept_map(before, dropped@, |route: Route<K>| route.attached@);
        lemma_kept_len(before, dropped@);
        assert forall|j: int| 0 <= j < dropped.len() implies #[trigger] dropped[j] == belongs_to(
            senders_of(before)[j],
            *target,
        ) by {
            lemma_same_channel(before[j].endpoint, before[j].attached@, *target);
        }
    }
    dropped
}

} // verus!
