//! Conversion between the Responses format and the Chat Completions format.

use dashmap::DashMap;
use vstd::prelude::*;
use vstd::string::*;

pub mod laws;
pub mod request;
pub mod request_laws;
pub mod response;
pub mod response_laws;
pub mod stream;

verus! {

/// How long a stored reasoning text stays valid, in seconds.
pub const REASONING_TTL_SECS: u64 = 3600;

/// The same time in nanoseconds.
pub const REASONING_TTL_NANOS: u128 = 3_600_000_000_000;

/// How long to wait between two removals of expired entries, in seconds.
pub const CLEANUP_INTERVAL_SECS: u64 = 60;

/// A concurrent hash map of `dashmap`.
#[verifier::external_type_specification]
#[verifier::external_body]
#[verifier::reject_recursive_types(K)]
#[verifier::reject_recursive_types(V)]
#[verifier::reject_recursive_types(S)]
pub struct ExDashMap<K, V, S>(DashMap<K, V, S>);

/// A point in time on the monotonic clock of the machine.
#[verifier::external_type_specification]
#[verifier::external_body]
pub struct ExInstant(std::time::Instant);

/// Reasoning texts by call identifier, each with the time at which it was stored.
pub type Entries = Map<Seq<char>, (Seq<char>, u128)>;

/// No entries at all.
pub open spec fn no_entries() -> Entries {
    Map::empty()
}

/// What the map holds: for each call identifier the text and the time at which it was stored.
pub uninterp spec fn map_entries(m: DashMap<String, (String, u128)>) -> Entries;

/// `DashMap::new` makes an empty map.
#[verifier::external_body]
fn map_new() -> (m: DashMap<String, (String, u128)>)
    ensures
        map_entries(m) == no_entries(),
{
    DashMap::new()
}

/// `DashMap::insert` sets the entry of the key, in place of an earlier one.
#[verifier::external_body]
fn map_insert(m: &mut DashMap<String, (String, u128)>, key: String, text: String, stored_at: u128)
    ensures
        map_entries(*final(m)) == map_entries(*old(m)).insert(key@, (text@, stored_at)),
{
    m.insert(key, (text, stored_at));
}

/// `DashMap::remove` takes the entry of the key out, where there is one, and hands it over.
#[verifier::external_body]
fn map_remove(m: &mut DashMap<String, (String, u128)>, key: &str) -> (r: Option<(String, u128)>)
    ensures
        map_entries(*final(m)) == map_entries(*old(m)).remove(key@),
        r is Some <==> map_entries(*old(m)).contains_key(key@),
        r matches Some(e) ==> map_entries(*old(m))[key@] == (e.0@, e.1),
{
    m.remove(key).map(|e| e.1)
}

/// `DashMap::retain` keeps the entries for which the closure answers yes, here those that
/// [`fresh`] finds valid.
#[verifier::external_body]
fn map_retain(m: &mut DashMap<String, (String, u128)>, now: u128)
    ensures
        map_entries(*final(m)) == purged(map_entries(*old(m)), now),
{
    m.retain(|_, e| fresh(e.1, now))
}

/// `Instant::now`.
#[verifier::external_body]
fn clock_start() -> (t: std::time::Instant) {
    std::time::Instant::now()
}

/// `Instant::elapsed`: the time since `start`. Nothing is claimed of the clock.
#[verifier::external_body]
fn clock_elapsed(start: &std::time::Instant) -> (nanos: u128) {
    start.elapsed().as_nanos()
}

/// An entry stored at `stored_at` is still valid at `now`.
pub open spec fn is_fresh(stored_at: u128, now: u128) -> bool {
    now < stored_at + REASONING_TTL_NANOS
}

/// The entries that are still valid at `now`.
pub open spec fn purged(m: Entries, now: u128) -> Entries {
    m.restrict(Set::new(|k: Seq<char>| m.contains_key(k) && is_fresh(m[k].1, now)))
}

/// The entries after `text` was stored under `call_id` at `now`.
pub open spec fn stored(
    m: Entries,
    call_id: Seq<char>,
    text: Seq<char>,
    now: u128,
) -> Entries {
    purged(m.insert(call_id, (text, now)), now)
}

/// The text that is valid under `call_id` at `now`.
pub open spec fn valid_text(
    m: Entries,
    call_id: Seq<char>,
    now: u128,
) -> Option<Seq<char>> {
    if m.contains_key(call_id) && is_fresh(m[call_id].1, now) {
        Some(m[call_id].0)
    } else {
        None
    }
}

/// Whether an entry stored at `stored_at` is still valid at `now`.
pub fn fresh(stored_at: u128, now: u128) -> (r: bool)
    ensures
        r == is_fresh(stored_at, now),
{
    now < stored_at || now - stored_at < REASONING_TTL_NANOS
}

/// The reasoning texts of function calls, by call identifier, until the next request fetches them.
pub struct ReasoningStore {
    entries: DashMap<String, (String, u128)>,
    start: std::time::Instant,
}

impl View for ReasoningStore {
    type V = Entries;

    closed spec fn view(&self) -> Entries {
        map_entries(self.entries)
    }
}

impl ReasoningStore {
    /// An empty store.
    pub fn new() -> (r: ReasoningStore)
        ensures
            r@ == no_entries(),
    {
        ReasoningStore { entries: map_new(), start: clock_start() }
    }

    /// The time on the store's clock, in nanoseconds since the store was made.
    pub fn now(&self) -> (nanos: u128) {
        clock_elapsed(&self.start)
    }

    /// Stores `text` under `call_id` at the time `now`, and drops what has expired.
    pub fn put_at(&mut self, call_id: &str, text: &str, now: u128)
        ensures
            final(self)@ == stored(old(self)@, call_id@, text@, now),
    {
        map_insert(&mut self.entries, call_id.to_owned(), text.to_owned(), now);
        map_retain(&mut self.entries, now);
    }

    /// Takes out what is stored under `call_id`, and hands it over if it is valid at `now`.
    pub fn take_at(&mut self, call_id: &str, now: u128) -> (r: Option<String>)
        ensures
            final(self)@ == old(self)@.remove(call_id@),
            match r {
                Some(t) => valid_text(old(self)@, call_id@, now) == Some(t@),
                None => valid_text(old(self)@, call_id@, now) is None,
            },
    {
        match map_remove(&mut self.entries, call_id) {
            Some((text, stored_at)) => if fresh(stored_at, now) {
                Some(text)
            } else {
                None
            },
            None => None,
        }
    }

    /// Drops what has expired at the time `now`.
    pub fn purge_at(&mut self, now: u128)
        ensures
            final(self)@ == purged(old(self)@, now),
    {
        map_retain(&mut self.entries, now);
    }
}

/// Takes out the reasoning text stored under `call_id`, and hands it over if it is still valid at
/// the time of the call.
pub fn get_and_remove_reasoning(store: &mut ReasoningStore, call_id: &str) -> (r: Option<String>)
    ensures
        final(store)@ == old(store)@.remove(call_id@),
        exists|now: u128|
            match r {
                Some(t) => #[trigger] valid_text(old(store)@, call_id@, now) == Some(t@),
                None => valid_text(old(store)@, call_id@, now) is None,
            },
{
    let now: u128 = store.now();
    store.take_at(call_id, now)
}

/// Stores a reasoning text under `call_id` at the time of the call, and drops what has expired.
pub fn set_reasoning(store: &mut ReasoningStore, call_id: String, text: String)
    ensures
        exists|now: u128| final(store)@ == #[trigger] stored(old(store)@, call_id@, text@, now),
{
    let now: u128 = store.now();
    store.put_at(call_id.as_str(), text.as_str(), now);
}

} // verus!
