//! The pending-reply index: a bounded cache of the `lru` crate that maps the serial of an
//! outbound method call to the sink that waits for its reply.

use dbus_message_parser::message::Message;
use futures::channel::mpsc::Sender;
use lru::LruCache;
use vstd::prelude::*;
use vstd::set_lib::lemma_len_subset;

verus! {

#[verifier::external_type_specification]
#[verifier::external_body]
#[verifier::reject_recursive_types(K)]
#[verifier::reject_recursive_types(V)]
#[verifier::reject_recursive_types(S)]
pub struct ExLruCache<K, V, S>(LruCache<K, V, S>);

#[verifier::external_type_specification]
#[verifier::external_body]
pub struct ExCacheHasher(lru::DefaultHasher);

/// Where the reply to an outbound method call goes.
pub enum ReplySink {
    /// A caller that waits for exactly one reply.
    Oneshot(futures::channel::oneshot::Sender<Message>),
    /// A subscriber's channel that takes the reply in line with other messages.
    Stream(Sender<Message>),
}

impl ReplySink {
    /// Whether the sink is a stream.
    pub open spec fn is_stream(self) -> bool {
        self is Stream
    }
}

/// One entry of the pending-reply index: the serial that is waited for, and whether the sink
/// registered under it is a stream.
pub struct Waiter {
    pub serial: u32,
    pub stream: bool,
}

/// The entries of the cache, the most recently used first.
pub uninterp spec fn pending_entries(cache: LruCache<u32, ReplySink>) -> Seq<Waiter>;

/// The number of entries that the cache was made for.
pub uninterp spec fn pending_limit(cache: LruCache<u32, ReplySink>) -> nat;

/// Whether some entry waits for `serial`.
pub open spec fn awaits(entries: Seq<Waiter>, serial: u32) -> bool {
    exists|i: int| 0 <= i < entries.len() && (#[trigger] entries[i]).serial == serial
}

/// The position of the entry that waits for `serial`.
pub open spec fn slot_of(entries: Seq<Waiter>, serial: u32) -> int {
    choose|i: int| 0 <= i < entries.len() && (#[trigger] entries[i]).serial == serial
}

/// No two entries wait for the same serial.
pub open spec fn distinct_serials(entries: Seq<Waiter>) -> bool {
    forall|i: int, j: int|
        0 <= i < j < entries.len() ==> (#[trigger] entries[i]).serial != (#[trigger] entries[j]).serial
}

/// The entries without the one that waits for `serial`.
pub open spec fn forget(entries: Seq<Waiter>, serial: u32) -> Seq<Waiter> {
    if awaits(entries, serial) {
        entries.remove(slot_of(entries, serial))
    } else {
        entries
    }
}

/// The entries after `waiter` was put into a cache made for `limit` entries: it replaces an
/// entry for the same serial, else it pushes out the least recently used entry of a full
/// cache, and in both cases becomes the most recently used one.
pub open spec fn remember(entries: Seq<Waiter>, limit: nat, waiter: Waiter) -> Seq<Waiter> {
    if awaits(entries, waiter.serial) {
        seq![waiter] + forget(entries, waiter.serial)
    } else if limit == 0 {
        entries
    } else if entries.len() == limit {
        seq![waiter] + entries.drop_last()
    } else {
        seq![waiter] + entries
    }
}

/// Forgetting a serial keeps the serials distinct, removes that serial and no other.
pub proof fn lemma_forget(entries: Seq<Waiter>, serial: u32)
    requires
        distinct_serials(entries),
    ensures
        distinct_serials(forget(entries, serial)),
        !awaits(forget(entries, serial), serial),
        forget(entries, serial).len() <= entries.len(),
        awaits(entries, serial) ==> forget(entries, serial).len() + 1 == entries.len(),
        forall|other: u32|
            other != serial ==> (awaits(forget(entries, serial), other) <==> awaits(
                entries,
                other,
            )),
{
    let rest = forget(entries, serial);
    if awaits(entries, serial) {
        let k = slot_of(entries, serial);
        assert forall|i: int| 0 <= i < rest.len() implies (#[trigger] rest[i]).serial != serial by {
        }
        assert forall|other: u32| other != serial && awaits(entries, other) implies awaits(
            rest,
            other,
        ) by {
            let j = slot_of(entries, other);
            if j < k {
                assert(rest[j] == entries[j]);
            } else {
                assert(rest[j - 1] == entries[j]);
            }
        }
    }
}

/// Remembering a waiter keeps the serials distinct and the cache within its limit.
pub proof fn lemma_remember(entries: Seq<Waiter>, limit: nat, waiter: Waiter)
    requires
        distinct_serials(entries),
        entries.len() <= limit,
    ensures
        distinct_serials(remember(entries, limit, waiter)),
        remember(entries, limit, waiter).len() <= limit,
        limit > 0 ==> awaits(remember(entries, limit, waiter), waiter.serial),
        limit > 0 ==> remember(entries, limit, waiter)[0] == waiter,
{
    if limit > 0 || awaits(entries, waiter.serial) {
        assert(remember(entries, limit, waiter)[0] == waiter);
    }
}

/// Distinct serials that are all waited for are no more than the waiters.
pub proof fn lemma_awaited_within(entries: Seq<Waiter>, serials: Seq<u32>)
    requires
        serials.no_duplicates(),
        forall|i: int| 0 <= i < serials.len() ==> awaits(entries, #[trigger] serials[i]),
    ensures
        serials.len() <= entries.len(),
{
    let waited = entries.map_values(|w: Waiter| w.serial);
    serials.unique_seq_to_set();
    waited.lemma_cardinality_of_set();
    assert forall|s: u32| serials.to_set().contains(s) implies waited.to_set().contains(s) by {
        let j = choose|j: int| 0 <= j < entries.len() && #[trigger] entries[j].serial == s;
        assert(waited[j] == s);
    }
    lemma_len_subset(serials.to_set(), waited.to_set());
}

/// `LruCache::new`: an empty cache that holds at most `limit` entries.
#[verifier::external_body]
pub(crate) fn new_cache(limit: usize) -> (cache: LruCache<u32, ReplySink>)
    ensures
        pending_entries(cache) == Seq::<Waiter>::empty(),
        pending_limit(cache) == limit,
{
    LruCache::new(limit)
}

/// `LruCache::put`: stores `sink` under `serial` as the most recently used entry. An entry
/// for the same serial is replaced; otherwise a full cache first drops its least recently
/// used entry, and a cache made for no entries stores nothing.
#[verifier::external_body]
pub(crate) fn put_waiter(cache: &mut LruCache<u32, ReplySink>, serial: u32, sink: ReplySink)
    ensures
        pending_entries(*final(cache)) == remember(
            pending_entries(*old(cache)),
            pending_limit(*old(cache)),
            Waiter { serial, stream: sink.is_stream() },
        ),
        pending_limit(*final(cache)) == pending_limit(*old(cache)),
{
    cache.put(serial, sink);
}

/// `LruCache::contains`: whether the cache holds an entry for `serial`. The order of the
/// entries stays as it was.
#[verifier::external_body]
pub(crate) fn holds_waiter(cache: &LruCache<u32, ReplySink>, serial: u32) -> (found: bool)
    ensures
        found == awaits(pending_entries(*cache), serial),
{
    cache.contains(&serial)
}

/// `LruCache::pop`: removes the entry for `serial` and returns its sink, if there is one.
#[verifier::external_body]
pub(crate) fn pop_waiter(cache: &mut LruCache<u32, ReplySink>, serial: u32) -> (sink: Option<
    ReplySink,
>)
    ensures
        sink.is_some() == awaits(pending_entries(*old(cache)), serial),
        sink.is_some() ==> sink.unwrap().is_stream() == pending_entries(*old(cache))[slot_of(
            pending_entries(*old(cache)),
            serial,
        )].stream,
        pending_entries(*final(cache)) == forget(pending_entries(*old(cache)), serial),
        pending_limit(*final(cache)) == pending_limit(*old(cache)),
{
    cache.pop(&serial)
}

} // verus!
