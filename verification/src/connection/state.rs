//! The mathematical state of a connection, and the pure rules by which it changes.

use crate::pending::awaits;
use crate::pending::distinct_serials;
use crate::pending::lemma_awaited_within;
use crate::pending::Waiter;
use crate::wire::HeaderView;
use dbus_message_parser::match_rule::MatchRule;
use vstd::prelude::*;

verus! {

/// The number of replies that a connection waits for at most.
pub const PENDING_LIMIT: usize = 1024;

/// What the state records of one signal subscription.
#[verifier::ext_equal]
pub struct SignalKey {
    /// The object path that the subscription listens on.
    pub path: Seq<char>,
    /// Whether the subscription has a filter predicate.
    pub filtered: bool,
}

/// The state of a connection as the contracts speak of it.
#[verifier::ext_equal]
pub struct RouterState {
    /// The serial of the last message that was stamped; 0 before the first.
    pub serial: u32,
    /// The replies waited for, the most recently used first.
    pub pending: Seq<Waiter>,
    /// The object paths that have a method-call route.
    pub paths: Seq<Seq<char>>,
    /// The interfaces that have a method-call route.
    pub interfaces: Seq<Seq<char>>,
    /// The signal subscriptions, in the order in which they were attached.
    pub signals: Seq<SignalKey>,
    /// The rule sets of the match subscriptions, in the order in which they were attached.
    pub matches: Seq<Seq<MatchRule>>,
    /// The headers of the messages that were handed to the writer, in the order in which
    /// they were handed over.
    pub emitted: Seq<HeaderView>,
    /// Whether the serial counter has passed the largest serial and begun anew.
    pub wrapped: bool,
}

/// The serial that follows `serial`: the counter wraps past zero, which no message carries.
pub open spec fn following(serial: u32) -> u32 {
    if serial == u32::MAX {
        1
    } else {
        (serial + 1) as u32
    }
}

/// The keys without `key`.
pub open spec fn unlisted(keys: Seq<Seq<char>>, key: Seq<char>) -> Seq<Seq<char>> {
    if keys.contains(key) {
        keys.remove(keys.index_of(key))
    } else {
        keys
    }
}

/// The keys with `key` among them once.
pub open spec fn listed(keys: Seq<Seq<char>>, key: Seq<char>) -> Seq<Seq<char>> {
    if keys.contains(key) {
        keys
    } else {
        keys.push(key)
    }
}

/// What stands beside the keys once `item` stands beside `key`: it takes the place of what
/// stood beside `key`, or comes last where the key is new. `items` holds one item for each
/// of `keys`, in their order.
pub open spec fn placed<T>(keys: Seq<Seq<char>>, items: Seq<T>, key: Seq<char>, item: T) -> Seq<T> {
    if keys.contains(key) {
        items.update(keys.index_of(key), item)
    } else {
        items.push(item)
    }
}

/// What stands beside the keys without what stood beside `key`.
pub open spec fn displaced<T>(keys: Seq<Seq<char>>, items: Seq<T>, key: Seq<char>) -> Seq<T> {
    if keys.contains(key) {
        items.remove(keys.index_of(key))
    } else {
        items
    }
}

/// The items of `items` whose flag in `dropped` is not set, in their order. Both sequences
/// have the same length.
pub open spec fn kept<T>(items: Seq<T>, dropped: Seq<bool>) -> Seq<T>
    decreases items.len(),
{
    if items.len() == 0 || dropped.len() != items.len() {
        items
    } else if dropped.last() {
        kept(items.drop_last(), dropped.drop_last())
    } else {
        kept(items.drop_last(), dropped.drop_last()).push(items.last())
    }
}

/// Headers whose serials increase strictly, none of them beyond `bound`.
pub open spec fn increasing_up_to(heads: Seq<HeaderView>, bound: u32) -> bool {
    &&& forall|i: int, j: int|
        0 <= i < j < heads.len() ==> (#[trigger] heads[i]).serial < (#[trigger] heads[j]).serial
    &&& forall|i: int| 0 <= i < heads.len() ==> (#[trigger] heads[i]).serial <= bound
}

/// The first serial after `serial` that no entry of `pending` waits for, among the
/// `budget + 1` serials that follow it; the last of them where all the others are waited
/// for.
pub open spec fn free_after(pending: Seq<Waiter>, serial: u32, budget: nat) -> u32
    decreases budget,
{
    if budget == 0 || !awaits(pending, following(serial)) {
        following(serial)
    } else {
        free_after(pending, following(serial), (budget - 1) as nat)
    }
}

/// Whether `tried` are the serials that follow `start`, one after the other and past the
/// largest serial back to one, and each of them is waited for.
pub open spec fn tried_after(pending: Seq<Waiter>, start: u32, tried: Seq<u32>) -> bool {
    &&& forall|i: int| 0 <= i < tried.len() ==> awaits(pending, #[trigger] tried[i])
    &&& forall|i: int|
        0 <= i < tried.len() ==> (#[trigger] tried[i] == start + i + 1 || tried[i] == start + i
            + 1 - u32::MAX)
}

/// The serial that was tried last; `start` where none was.
pub open spec fn last_tried(start: u32, tried: Seq<u32>) -> u32 {
    if tried.len() == 0 {
        start
    } else {
        tried.last()
    }
}

/// Where the serial that follows the last one tried is waited for as well, it differs from
/// all that were tried, so that fewer serials were tried than there are waiters, and the
/// search goes on behind it.
pub proof fn lemma_try_next(pending: Seq<Waiter>, start: u32, tried: Seq<u32>)
    requires
        pending.len() <= PENDING_LIMIT,
        tried.len() <= pending.len(),
        tried_after(pending, start, tried),
        awaits(pending, following(last_tried(start, tried))),
    ensures
        tried.len() < pending.len(),
        tried_after(pending, start, tried.push(following(last_tried(start, tried)))),
        free_after(pending, last_tried(start, tried), (pending.len() - tried.len()) as nat)
            == free_after(
            pending,
            following(last_tried(start, tried)),
            (pending.len() - tried.len() - 1) as nat,
        ),
{
    lemma_awaited_within(pending, tried.push(following(last_tried(start, tried))));
}

/// The search for a free serial ends at a serial that is not zero and not waited for.
pub proof fn lemma_free_after(pending: Seq<Waiter>, start: u32, tried: Seq<u32>)
    requires
        pending.len() <= PENDING_LIMIT,
        tried.len() <= pending.len(),
        tried_after(pending, start, tried),
    ensures
        free_after(pending, last_tried(start, tried), (pending.len() - tried.len()) as nat) != 0,
        !awaits(
            pending,
            free_after(pending, last_tried(start, tried), (pending.len() - tried.len()) as nat),
        ),
    decreases pending.len() - tried.len(),
{
    let next = following(last_tried(start, tried));
    if awaits(pending, next) {
        lemma_try_next(pending, start, tried);
        lemma_free_after(pending, start, tried.push(next));
    }
}

/// A message whose sender and destination are both given and equal.
pub open spec fn self_addressed(head: HeaderView) -> bool {
    head.sender.is_some() && head.sender == head.destination
}

impl RouterState {
    /// The state of a new connection.
    pub open spec fn initial() -> RouterState {
        RouterState {
            serial: 0,
            pending: Seq::empty(),
            paths: Seq::empty(),
            interfaces: Seq::empty(),
            signals: Seq::empty(),
            matches: Seq::empty(),
            emitted: Seq::empty(),
            wrapped: false,
        }
    }

    /// What holds of every state that a connection reaches: a path and an interface have at
    /// most one route each, a serial at most one waiter, and the waiters stay within the
    /// limit. No message was handed to the writer with the serial zero, and until the
    /// counter begins anew the serials of the messages handed to the writer increase
    /// strictly, and neither they nor the serials waited for lie beyond the counter.
    pub open spec fn valid(self) -> bool {
        &&& self.paths.no_duplicates()
        &&& self.interfaces.no_duplicates()
        &&& distinct_serials(self.pending)
        &&& self.pending.len() <= PENDING_LIMIT
        &&& forall|i: int| 0 <= i < self.emitted.len() ==> (#[trigger] self.emitted[i]).serial != 0
        &&& !self.wrapped ==> increasing_up_to(self.emitted, self.serial)
        &&& !self.wrapped ==> forall|i: int|
            0 <= i < self.pending.len() ==> (#[trigger] self.pending[i]).serial <= self.serial
    }

    /// Whether any subscription is left.
    pub open spec fn has_channels(self) -> bool {
        self.signals.len() > 0 || self.paths.len() > 0 || self.interfaces.len() > 0
            || self.matches.len() > 0
    }

    /// The state after the serial counter has moved on to `serial`. A counter that does not
    /// move upwards has begun anew.
    pub open spec fn stamped(self, serial: u32) -> RouterState {
        RouterState { serial, wrapped: self.wrapped || serial <= self.serial, ..self }
    }

    /// The state after a message with the header `head` was handed to the writer.
    pub open spec fn handed_over(self, head: HeaderView) -> RouterState {
        RouterState { emitted: self.emitted.push(head), ..self }
    }

    /// The serial of the next message to be stamped: the first after the counter that is
    /// not waited for. With fewer waiters than serials there is one among the serials that
    /// follow the counter, one more of them than there are waiters.
    pub open spec fn next_serial(self) -> u32 {
        free_after(self.pending, self.serial, self.pending.len())
    }

    /// The state with other waiters.
    pub open spec fn waiting(self, pending: Seq<Waiter>) -> RouterState {
        RouterState { pending, ..self }
    }

    /// The state with other path routes.
    pub open spec fn with_paths(self, paths: Seq<Seq<char>>) -> RouterState {
        RouterState { paths, ..self }
    }

    /// The state with other interface routes.
    pub open spec fn with_interfaces(self, interfaces: Seq<Seq<char>>) -> RouterState {
        RouterState { interfaces, ..self }
    }

    /// The state with other signal subscriptions.
    pub open spec fn with_signals(self, signals: Seq<SignalKey>) -> RouterState {
        RouterState { signals, ..self }
    }

    /// The state with other match subscriptions.
    pub open spec fn with_matches(self, matches: Seq<Seq<MatchRule>>) -> RouterState {
        RouterState { matches, ..self }
    }

    /// The state after `Close`: no subscription is left.
    pub open spec fn cleared(self) -> RouterState {
        RouterState {
            paths: Seq::empty(),
            interfaces: Seq::empty(),
            signals: Seq::empty(),
            matches: Seq::empty(),
            ..self
        }
    }
}

/// Dropping flagged items never lengthens a sequence, and keeps only items that were there.
pub proof fn lemma_kept_len<T>(items: Seq<T>, dropped: Seq<bool>)
    requires
        dropped.len() == items.len(),
    ensures
        kept(items, dropped).len() <= items.len(),
        forall|i: int|
            0 <= i < kept(items, dropped).len() ==> items.contains(
                #[trigger] kept(items, dropped)[i],
            ),
    decreases items.len(),
{
    if items.len() > 0 {
        lemma_kept_len(items.drop_last(), dropped.drop_last());
        let all = kept(items, dropped);
        assert forall|i: int| 0 <= i < all.len() implies items.contains(#[trigger] all[i]) by {
            if i < kept(items.drop_last(), dropped.drop_last()).len() {
                assert(items.drop_last().contains(all[i]));
            }
        }
    }
}

/// Dropping flagged items of a sequence without duplicates leaves no duplicates.
pub proof fn lemma_kept_no_duplicates<T>(items: Seq<T>, dropped: Seq<bool>)
    requires
        dropped.len() == items.len(),
        items.no_duplicates(),
    ensures
        kept(items, dropped).no_duplicates(),
    decreases items.len(),
{
    if items.len() > 0 {
        let front = items.drop_last();
        let flags = dropped.drop_last();
        lemma_kept_no_duplicates(front, flags);
        lemma_kept_len(front, flags);
        let shorter = kept(front, flags);
        let all = kept(items, dropped);
        if !dropped.last() {
            assert forall|i: int, j: int| 0 <= i < j < all.len() implies all[i] != all[j] by {
                if j == shorter.len() {
                    assert(front.contains(shorter[i]));
                }
            }
        }
    }
}

/// Dropping flagged items commutes with mapping each item.
pub proof fn lemma_kept_map<T, U>(items: Seq<T>, dropped: Seq<bool>, f: spec_fn(T) -> U)
    requires
        dropped.len() == items.len(),
    ensures
        kept(items.map_values(f), dropped) == kept(items, dropped).map_values(f),
    decreases items.len(),
{
    if items.len() > 0 {
        lemma_kept_map(items.drop_last(), dropped.drop_last(), f);
        assert(items.map_values(f).drop_last() =~= items.drop_last().map_values(f));
    }
}

} // verus!
