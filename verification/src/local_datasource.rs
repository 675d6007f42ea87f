//! The local store of spell batches: a bounded store that keeps the last batch of each
//! key for as long as the key is not evicted, beside one that also lets a batch expire.

use crate::spell_model::{clone_spells, spells_view, SpellView, SpellsQuerySpells};
use lru_time_cache::LruCache;
use vstd::prelude::*;

verus! {

/// The keys of a store with their batches, the least recently used first.
pub type Items = Seq<(u8, Seq<SpellView>)>;

/// The cache of the crate `lru_time_cache`. Nothing inside it is visible here.
#[verifier::external_type_specification]
#[verifier::external_body]
#[verifier::reject_recursive_types(Key)]
#[verifier::reject_recursive_types(Value)]
pub struct ExLruCache<Key, Value>(LruCache<Key, Value>);

/// What a cache holds: its keys with their batches, the least recently used first.
/// Batches that have expired and were not removed yet are among them.
pub uninterp spec fn lru_items(cache: LruCache<u8, Vec<SpellsQuerySpells>>) -> Items;

/// The number of keys that a cache was made to hold.
pub uninterp spec fn lru_capacity(cache: LruCache<u8, Vec<SpellsQuerySpells>>) -> nat;

/// Whether a cache was made with a time to live.
pub uninterp spec fn lru_expires(cache: LruCache<u8, Vec<SpellsQuerySpells>>) -> bool;

/// `key` is among `items`.
pub open spec fn holds_key(items: Items, key: u8) -> bool {
    exists|i: int| 0 <= i < items.len() && (#[trigger] items[i]).0 == key
}

/// A place of `key` among `items`.
pub open spec fn place_of(items: Items, key: u8) -> int {
    choose|i: int| 0 <= i < items.len() && (#[trigger] items[i]).0 == key
}

/// The batch that `items` hold under `key`.
pub open spec fn batch_of(items: Items, key: u8) -> Option<Seq<SpellView>> {
    if holds_key(items, key) {
        Some(items[place_of(items, key)].1)
    } else {
        None
    }
}

/// No key occurs twice.
pub open spec fn distinct_keys(items: Items) -> bool {
    forall|i: int, j: int|
        0 <= i < j < items.len() ==> (#[trigger] items[i]).0 != (#[trigger] items[j]).0
}

/// `items` after `key` was used: it is now the most recently used.
pub open spec fn touched(items: Items, key: u8) -> Items {
    if holds_key(items, key) {
        items.remove(place_of(items, key)).push(items[place_of(items, key)])
    } else {
        items
    }
}

/// `items` after `batch` was stored under `key` in a store made for `capacity` keys. A key
/// that is held keeps its place in the count and becomes the most recently used. For a new
/// key the least recently used keys leave until there is room for it.
pub open spec fn stored(items: Items, key: u8, batch: Seq<SpellView>, capacity: nat) -> Items {
    if holds_key(items, key) {
        items.remove(place_of(items, key)).push((key, batch))
    } else if items.len() >= capacity {
        items.skip(items.len() - capacity + 1).push((key, batch))
    } else {
        items.push((key, batch))
    }
}

/// What an optional batch holds.
pub open spec fn batch_view(batch: Option<Vec<SpellsQuerySpells>>) -> Option<Seq<SpellView>> {
    match batch {
        Some(spells) => Some(spells_view(spells@)),
        None => None,
    }
}

/// Calls `LruCache::with_capacity`: an empty cache for `capacity` keys, without a time to
/// live.
#[verifier::external_body]
fn lru_with_capacity(capacity: usize) -> (cache: LruCache<u8, Vec<SpellsQuerySpells>>)
    ensures
        lru_items(cache) == Seq::<(u8, Seq<SpellView>)>::empty(),
        lru_capacity(cache) == capacity,
        !lru_expires(cache),
{
    LruCache::with_capacity(capacity)
}

/// Calls `LruCache::with_expiry_duration_and_capacity`: an empty cache for `capacity` keys,
/// whose batches expire `millis` milliseconds after they were stored.
#[verifier::external_body]
fn lru_with_expiry(millis: u64, capacity: usize) -> (cache: LruCache<u8, Vec<SpellsQuerySpells>>)
    ensures
        lru_items(cache) == Seq::<(u8, Seq<SpellView>)>::empty(),
        lru_capacity(cache) == capacity,
        lru_expires(cache),
{
    LruCache::with_expiry_duration_and_capacity(std::time::Duration::from_millis(millis), capacity)
}

/// Calls `LruCache::insert`. The cache first drops the batches that have expired, which are
/// the `n` least recently used for some `n` that the clock decides (none in a cache
/// without a time to live), and then stores the batch as `stored` says. A cache made for
/// no key at all panics here, so it is left out.
#[verifier::external_body]
fn lru_insert(cache: &mut LruCache<u8, Vec<SpellsQuerySpells>>, key: u8, batch: Vec<SpellsQuerySpells>)
    requires
        lru_capacity(*old(cache)) >= 1,
    ensures
        lru_capacity(*final(cache)) == lru_capacity(*old(cache)),
        lru_expires(*final(cache)) == lru_expires(*old(cache)),
        exists|n: int|
            {
                &&& 0 <= n <= lru_items(*old(cache)).len()
                &&& !lru_expires(*old(cache)) ==> n == 0
                &&& lru_items(*final(cache)) == stored(
                    #[trigger] lru_items(*old(cache)).skip(n),
                    key,
                    spells_view(batch@),
                    lru_capacity(*old(cache)),
                )
            },
{
    let _ = cache.insert(key, batch);
}

/// Calls `LruCache::get`, and copies what it finds. The cache first drops the batches that
/// have expired, as at an insert; the batch under `key`, if one is left, is handed out and
/// `key` becomes the most recently used.
#[verifier::external_body]
fn lru_get(cache: &mut LruCache<u8, Vec<SpellsQuerySpells>>, key: u8) -> (found: Option<
    Vec<SpellsQuerySpells>,
>)
    ensures
        lru_capacity(*final(cache)) == lru_capacity(*old(cache)),
        lru_expires(*final(cache)) == lru_expires(*old(cache)),
        exists|n: int|
            {
                &&& 0 <= n <= lru_items(*old(cache)).len()
                &&& !lru_expires(*old(cache)) ==> n == 0
                &&& lru_items(*final(cache)) == touched(
                    #[trigger] lru_items(*old(cache)).skip(n),
                    key,
                )
                &&& batch_view(found) == batch_of(lru_items(*old(cache)).skip(n), key)
            },
{
    cache.get(&key).cloned()
}

/// Calls `LruCache::peek`, and copies what it finds: the batch under `key` if the cache
/// holds one that has not expired. The cache is left as it is. Whether a batch has expired
/// the clock decides; in a cache without a time to live none has.
#[verifier::external_body]
fn lru_peek(cache: &LruCache<u8, Vec<SpellsQuerySpells>>, key: u8) -> (found: Option<
    Vec<SpellsQuerySpells>,
>)
    ensures
        found is Some ==> batch_view(found) == batch_of(lru_items(*cache), key),
        found is None && !lru_expires(*cache) ==> batch_of(lru_items(*cache), key) is None,
{
    cache.peek(&key).cloned()
}

/// A suffix of items without repeated keys has none either, and holds each of its keys
/// with the batch that the whole holds.
pub proof fn lemma_skip_keeps(items: Items, n: int, key: u8)
    requires
        distinct_keys(items),
        0 <= n <= items.len(),
    ensures
        distinct_keys(items.skip(n)),
        holds_key(items.skip(n), key) ==> batch_of(items.skip(n), key) == batch_of(items, key),
{
    let rest = items.skip(n);
    if holds_key(rest, key) {
        let i = place_of(rest, key);
        assert(items[i + n].0 == key);
        let j = place_of(items, key);
        assert(j == i + n);
    }
}

/// Storing a batch keeps the keys distinct and the store within its capacity, and the
/// stored batch is then the one held under its key; every other key that is still held
/// has the batch that it had.
pub proof fn lemma_stored(items: Items, key: u8, batch: Seq<SpellView>, capacity: nat)
    requires
        distinct_keys(items),
        capacity >= 1,
    ensures
        distinct_keys(stored(items, key, batch, capacity)),
        batch_of(stored(items, key, batch, capacity), key) == Some(batch),
        items.len() <= capacity ==> stored(items, key, batch, capacity).len() <= capacity,
        forall|other: u8|
            other != key && holds_key(stored(items, key, batch, capacity), other) ==> batch_of(
                stored(items, key, batch, capacity),
                other,
            ) == batch_of(items, other),
{
    let after = stored(items, key, batch, capacity);
    let last = after.len() - 1;
    assert(after[last] == (key, batch));
    // Every entry of `after` but the last is an entry of `items` with another key.
    assert forall|i: int| 0 <= i < last implies exists|j: int|
        0 <= j < items.len() && items[j] == #[trigger] after[i] && items[j].0 != key by {
        if holds_key(items, key) {
            let p = place_of(items, key);
            let j = if i < p { i } else { i + 1 };
            assert(items[j] == after[i]);
        } else if items.len() >= capacity {
            let j = i + items.len() - capacity + 1;
            assert(items[j] == after[i]);
        } else {
            assert(items[i] == after[i]);
        }
    }
    assert forall|i: int, j: int| 0 <= i < j < after.len() implies after[i].0 != after[j].0 by {
        if holds_key(items, key) {
            let p = place_of(items, key);
            let a = if i < p { i } else { i + 1 };
            if j < last {
                let b = if j < p { j } else { j + 1 };
                assert(items[a] == after[i] && items[b] == after[j]);
            } else {
                assert(items[a] == after[i]);
            }
        } else if items.len() >= capacity {
            let d = items.len() - capacity + 1;
            if j < last {
                assert(items[i + d] == after[i] && items[j + d] == after[j]);
            } else {
                assert(items[i + d] == after[i]);
            }
        } else {
            if j < last {
                assert(items[i] == after[i] && items[j] == after[j]);
            } else {
                assert(items[i] == after[i]);
            }
        }
    }
    assert(holds_key(after, key));
    assert(place_of(after, key) == last);
    assert forall|other: u8| other != key && holds_key(after, other) implies batch_of(
        after,
        other,
    ) == batch_of(items, other) by {
        let i = place_of(after, other);
        assert(i < last);
        let j = choose|j: int| 0 <= j < items.len() && items[j] == after[i] && items[j].0 != key;
        assert(items[j].0 == other);
        assert(holds_key(items, other));
        assert(place_of(items, other) == j);
    }
}

/// Using a key keeps the keys distinct and moves no batch to another key.
pub proof fn lemma_touched(items: Items, key: u8, other: u8)
    requires
        distinct_keys(items),
    ensures
        distinct_keys(touched(items, key)),
        touched(items, key).len() == items.len(),
        batch_of(touched(items, key), other) == batch_of(items, other),
{
    let after = touched(items, key);
    if holds_key(items, key) {
        let p = place_of(items, key);
        let last = after.len() - 1;
        assert(after[last] == items[p]);
        assert forall|i: int| 0 <= i < last implies #[trigger] after[i] == items[if i < p {
            i
        } else {
            i + 1
        }] by {}
        assert forall|i: int, j: int| 0 <= i < j < after.len() implies after[i].0 != after[j].0 by {
            let a = if i < p { i } else { i + 1 };
            let b = if j == last { p } else if j < p { j } else { j + 1 };
            assert(after[i] == items[a] && after[j] == items[b]);
        }
        if holds_key(items, other) {
            let q = place_of(items, other);
            let to = if q == p { last } else if q < p { q } else { q - 1 };
            assert(after[to] == items[q]);
            assert(holds_key(after, other));
            assert(place_of(after, other) == to);
        } else {
            if holds_key(after, other) {
                let i = place_of(after, other);
                let b = if i == last { p } else if i < p { i } else { i + 1 };
                assert(after[i] == items[b]);
                assert(items[b].0 == other);
            }
        }
    }
}

/// Right after a batch was stored under a key, both parts of the store hold that batch
/// under the key: the permanent read gives it, and the fresh read gives it or, where the
/// time to live has run out already, nothing. `expired` is the number of batches that had
/// expired in the timed part when the batch was stored.
pub proof fn law_stored_batch_is_read(
    permanent: Items,
    timed: Items,
    expired: int,
    key: u8,
    batch: Seq<SpellView>,
    capacity: nat,
)
    requires
        distinct_keys(permanent),
        distinct_keys(timed),
        0 <= expired <= timed.len(),
        capacity >= 1,
    ensures
        batch_of(stored(permanent, key, batch, capacity), key) == Some(batch),
        batch_of(stored(timed.skip(expired), key, batch, capacity), key) == Some(batch),
{
    lemma_stored(permanent, key, batch, capacity);
    lemma_skip_keeps(timed, expired, key);
    lemma_stored(timed.skip(expired), key, batch, capacity);
}

/// A batch does not leave the permanent part by growing old: whatever keys are read
/// after it was stored, the permanent part holds it under its key as before. Only storing
/// under another key can evict it.
pub proof fn law_reads_keep_the_batch(permanent: Items, key: u8, read: u8)
    requires
        distinct_keys(permanent),
    ensures
        batch_of(touched(permanent, read), key) == batch_of(permanent, key),
        distinct_keys(touched(permanent, read)),
{
    lemma_touched(permanent, read, key);
}

/// The local store of spell batches. Each key has at most one batch in each of its two
/// parts: the permanent part, which keeps a batch until its key is evicted, and the timed
/// part, in which a batch also expires a fixed time after it was stored.
pub struct LocalDatasource {
    cache: LruCache<u8, Vec<SpellsQuerySpells>>,
    time_cache: LruCache<u8, Vec<SpellsQuerySpells>>,
}

impl LocalDatasource {
    /// The permanent part: keys with their batches, the least recently used first.
    pub closed spec fn permanent(&self) -> Items {
        lru_items(self.cache)
    }

    /// The timed part: keys with their batches, the least recently stored first. A batch
    /// that has expired may still be among them.
    pub closed spec fn timed(&self) -> Items {
        lru_items(self.time_cache)
    }

    /// The number of keys that each part holds at most.
    pub closed spec fn capacity(&self) -> nat {
        lru_capacity(self.cache)
    }

    /// The store is in order: both parts were made for the same number of keys, one at
    /// least, and neither holds a key twice or more keys than that number.
    pub closed spec fn wf(&self) -> bool {
        &&& lru_capacity(self.cache) >= 1
        &&& lru_capacity(self.time_cache) == lru_capacity(self.cache)
        &&& !lru_expires(self.cache)
        &&& lru_expires(self.time_cache)
        &&& distinct_keys(lru_items(self.cache))
        &&& distinct_keys(lru_items(self.time_cache))
        &&& lru_items(self.cache).len() <= lru_capacity(self.cache)
        &&& lru_items(self.time_cache).len() <= lru_capacity(self.cache)
    }

    /// A store that is in order holds each key once in each part, and no more keys in a
    /// part than it was made for.
    pub proof fn law_store_is_bounded(&self)
        requires
            self.wf(),
        ensures
            self.capacity() >= 1,
            distinct_keys(self.permanent()),
            distinct_keys(self.timed()),
            self.permanent().len() <= self.capacity(),
            self.timed().len() <= self.capacity(),
    {
    }

    /// An empty store for `capacity` keys, whose batches stay fresh for `duration`
    /// milliseconds.
    pub fn new(capacity: usize, duration: u64) -> (store: LocalDatasource)
        requires
            capacity >= 1,
        ensures
            store.wf(),
            store.capacity() == capacity,
            store.permanent() == Seq::<(u8, Seq<SpellView>)>::empty(),
            store.timed() == Seq::<(u8, Seq<SpellView>)>::empty(),
    {
        LocalDatasource {
            cache: lru_with_capacity(capacity),
            time_cache: lru_with_expiry(duration, capacity),
        }
    }

    /// Stores `value` under `key` in both parts, in place of what `key` had. In the timed
    /// part the batches that have expired leave first: the `n` least recently stored, for
    /// some `n`.
    pub fn insert(&mut self, value: Vec<SpellsQuerySpells>, key: u8)
        requires
            old(self).wf(),
        ensures
            final(self).wf(),
            final(self).capacity() == old(self).capacity(),
            final(self).permanent() == stored(
                old(self).permanent(),
                key,
                spells_view(value@),
                old(self).capacity(),
            ),
            exists|n: int|
                0 <= n <= old(self).timed().len() && final(self).timed() == stored(
                    #[trigger] old(self).timed().skip(n),
                    key,
                    spells_view(value@),
                    old(self).capacity(),
                ),
            batch_of(final(self).permanent(), key) == Some(spells_view(value@)),
            batch_of(final(self).timed(), key) == Some(spells_view(value@)),
    {
        let timed_value = clone_spells(&value);
        let ghost batch = spells_view(value@);
        let ghost capacity = self.capacity();
        let ghost permanent = self.permanent();
        let ghost timed = self.timed();
        lru_insert(&mut self.cache, key, value);
        proof {
            assert(permanent.skip(0) == permanent);
            lemma_stored(permanent, key, batch, capacity);
        }
        lru_insert(&mut self.time_cache, key, timed_value);
        proof {
            let n = choose|n: int|
                0 <= n <= timed.len() && lru_items(self.time_cache) == stored(
                    #[trigger] timed.skip(n),
                    key,
                    batch,
                    capacity,
                );
            lemma_skip_keeps(timed, n, key);
            lemma_stored(timed.skip(n), key, batch, capacity);
        }
    }

    /// The permanent read: the last batch stored under `key`, however old, and `key` is
    /// then the most recently used of the permanent part. Where the permanent part has
    /// lost the key, a batch of the timed part that has not expired is handed out and
    /// stored in the permanent part again.
    pub fn get(&mut self, key: u8) -> (found: Option<Vec<SpellsQuerySpells>>)
        requires
            old(self).wf(),
        ensures
            final(self).wf(),
            final(self).capacity() == old(self).capacity(),
            final(self).timed() == old(self).timed(),
            holds_key(old(self).permanent(), key) ==> {
                &&& batch_view(found) == batch_of(old(self).permanent(), key)
                &&& final(self).permanent() == touched(old(self).permanent(), key)
            },
            !holds_key(old(self).permanent(), key) ==> match found {
                Some(spells) => {
                    &&& batch_of(old(self).timed(), key) == Some(spells_view(spells@))
                    &&& final(self).permanent() == stored(
                        old(self).permanent(),
                        key,
                        spells_view(spells@),
                        old(self).capacity(),
                    )
                },
                None => final(self).permanent() == old(self).permanent(),
            },
            !holds_key(old(self).permanent(), key) && !holds_key(old(self).timed(), key)
                ==> found is None,
            found is Some ==> batch_of(final(self).permanent(), key) == batch_view(found),
    {
        let ghost permanent = self.permanent();
        let ghost capacity = self.capacity();
        proof {
            assert(permanent.skip(0) == permanent);
            lemma_touched(permanent, key, key);
        }
        match lru_get(&mut self.cache, key) {
            Some(value) => Some(value),
            None => {
                match lru_peek(&self.time_cache, key) {
                    Some(value) => {
                        let again = clone_spells(&value);
                        lru_insert(&mut self.cache, key, again);
                        proof {
                            lemma_stored(permanent, key, spells_view(value@), capacity);
                        }
                        Some(value)
                    },
                    None => None,
                }
            },
        }
    }

    /// The fresh read: the batch stored under `key` if it has not expired. The store is
    /// left as it is, so a batch that has expired is still there for `get`.
    pub fn get_recent(&self, key: u8) -> (found: Option<Vec<SpellsQuerySpells>>)
        ensures
            found is Some ==> batch_view(found) == batch_of(self.timed(), key),
            !holds_key(self.timed(), key) ==> found is None,
    {
        lru_peek(&self.time_cache, key)
    }
}

} // verus!
