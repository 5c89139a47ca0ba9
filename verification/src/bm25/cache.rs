//! A bounded cache with least-recently-used eviction and a time to live.
//!
//! Entries are kept in recency order: the first entry is the least recently
//! used one, the last the most recently used one. Times are nanoseconds
//! measured from the cache's creation.

use crate::clock::{duration_as_nanos, instant_elapsed, instant_now};
use crate::lemmas::lemma_filter_take_step;
use std::time::Instant;
use vstd::prelude::*;

verus! {

/// Counters kept by a [`Cache`].
#[derive(Debug, Clone, Copy)]
pub struct CacheStats {
    pub hits: usize,
    pub misses: usize,
    pub evictions: usize,
    pub size: usize,
}

impl Default for CacheStats {
    fn default() -> (s: Self)
        ensures
            s.hits == 0,
            s.misses == 0,
            s.evictions == 0,
            s.size == 0,
    {
        CacheStats { hits: 0, misses: 0, evictions: 0, size: 0 }
    }
}

/// Keys a [`Cache`] can hold: two keys are the same key when their views are
/// equal, and the cache compares them with `same_key`.
pub trait CacheKey: View + Sized {
    /// The two keys have equal views.
    fn same_key(&self, other: &Self) -> (b: bool)
        ensures
            b == (self@ == other@),
    ;
}

impl CacheKey for String {
    fn same_key(&self, other: &Self) -> (b: bool) {
        *self == *other
    }
}

impl CacheKey for u32 {
    fn same_key(&self, other: &Self) -> (b: bool) {
        *self == *other
    }
}

impl CacheKey for u64 {
    fn same_key(&self, other: &Self) -> (b: bool) {
        *self == *other
    }
}

impl CacheKey for usize {
    fn same_key(&self, other: &Self) -> (b: bool) {
        *self == *other
    }
}

impl CacheKey for i32 {
    fn same_key(&self, other: &Self) -> (b: bool) {
        *self == *other
    }
}

impl CacheKey for i64 {
    fn same_key(&self, other: &Self) -> (b: bool) {
        *self == *other
    }
}

#[derive(Clone)]
struct CacheEntry<K, V> {
    key: K,
    value: V,
    last_accessed: u128,
}

/// One entry as the contracts see it: the key's view, the value, the time of
/// last access.
pub type CacheItem<KV, V> = (KV, V, u128);

/// Nanoseconds in one second.
pub const NANOS_PER_SECOND: u128 = 1_000_000_000;

/// Time elapsed from `last` to `now`; zero when `now` precedes `last`.
pub open spec fn age(now: u128, last: u128) -> int {
    if now >= last {
        now - last
    } else {
        0
    }
}

/// An entry last used at `last` is still alive at `now`.
pub open spec fn is_fresh(now: u128, last: u128, ttl_seconds: u64) -> bool {
    age(now, last) < ttl_seconds * NANOS_PER_SECOND
}

/// No key occurs twice.
pub open spec fn distinct_keys<KV, V>(items: Seq<CacheItem<KV, V>>) -> bool {
    forall|i: int, j: int|
        0 <= i < items.len() && 0 <= j < items.len() && i != j ==> #[trigger] items[i].0
            != #[trigger] items[j].0
}

/// Some entry has this key.
pub open spec fn has_key<KV, V>(items: Seq<CacheItem<KV, V>>, key: KV) -> bool {
    exists|i: int| 0 <= i < items.len() && #[trigger] items[i].0 == key
}

/// Position of the entry with this key, or -1.
pub open spec fn key_index<KV, V>(items: Seq<CacheItem<KV, V>>, key: KV) -> int {
    if has_key(items, key) {
        choose|i: int| 0 <= i < items.len() && #[trigger] items[i].0 == key
    } else {
        -1
    }
}

/// Entries after a lookup of `key` at time `now`: a live entry moves to the
/// most recently used place with its time renewed; an expired one is dropped.
pub open spec fn get_items<KV, V>(
    items: Seq<CacheItem<KV, V>>,
    key: KV,
    now: u128,
    ttl_seconds: u64,
) -> Seq<CacheItem<KV, V>> {
    let i = key_index(items, key);
    if i < 0 {
        items
    } else if is_fresh(now, items[i].2, ttl_seconds) {
        items.remove(i).push((key, items[i].1, now))
    } else {
        items.remove(i)
    }
}

/// The value a lookup of `key` at time `now` finds.
pub open spec fn get_value<KV, V>(
    items: Seq<CacheItem<KV, V>>,
    key: KV,
    now: u128,
    ttl_seconds: u64,
) -> Option<V> {
    let i = key_index(items, key);
    if i >= 0 && is_fresh(now, items[i].2, ttl_seconds) {
        Some(items[i].1)
    } else {
        None
    }
}

/// A lookup of `key` at time `now` is a hit.
pub open spec fn is_hit<KV, V>(items: Seq<CacheItem<KV, V>>, key: KV, now: u128, ttl_seconds: u64) -> bool {
    get_value(items, key, now, ttl_seconds) is Some
}

/// How many least recently used entries make room for a new one.
pub open spec fn evict_count(len: nat, max_size: nat) -> nat {
    if len >= max_size {
        if max_size == 0 {
            len
        } else {
            (len - max_size + 1) as nat
        }
    } else {
        0
    }
}

/// Entries after storing `value` under `key` at time `now`: an existing entry
/// is replaced and becomes the most recently used; otherwise the least recently
/// used entries are evicted until there is room, and the new entry is appended.
pub open spec fn insert_items<KV, V>(
    items: Seq<CacheItem<KV, V>>,
    max_size: nat,
    key: KV,
    value: V,
    now: u128,
) -> Seq<CacheItem<KV, V>> {
    let i = key_index(items, key);
    if i >= 0 {
        items.remove(i).push((key, value, now))
    } else {
        items.skip(evict_count(items.len(), max_size) as int).push((key, value, now))
    }
}

/// Entries evicted by storing under `key`.
pub open spec fn insert_evictions<KV, V>(items: Seq<CacheItem<KV, V>>, max_size: nat, key: KV) -> nat {
    if has_key(items, key) {
        0
    } else {
        evict_count(items.len(), max_size)
    }
}

/// Entries after removing `key`.
pub open spec fn remove_items<KV, V>(items: Seq<CacheItem<KV, V>>, key: KV) -> Seq<CacheItem<KV, V>> {
    let i = key_index(items, key);
    if i < 0 {
        items
    } else {
        items.remove(i)
    }
}

/// Entries still alive at time `now`, in their order.
pub open spec fn live_items<KV, V>(items: Seq<CacheItem<KV, V>>, now: u128, ttl_seconds: u64) -> Seq<
    CacheItem<KV, V>,
> {
    items.filter(|it: CacheItem<KV, V>| is_fresh(now, it.2, ttl_seconds))
}

/// The largest number of entries a cache of capacity `max_size` holds.
pub open spec fn capacity(max_size: nat) -> nat {
    if max_size == 0 {
        1
    } else {
        max_size
    }
}

/// A key-value cache with a capacity and a time to live.
///
/// The operations are provided for keys that implement [`CacheKey`]. A
/// clone of a `Cache` is a copy of its entries: changing one leaves the
/// other as it was. Handles that share one cache are
/// [`SharedCache`](crate::bm25::shared_cache::SharedCache)s.
#[derive(Clone)]
pub struct Cache<K, V> {
    entries: Vec<CacheEntry<K, V>>,
    max_size: usize,
    ttl_seconds: u64,
    stats: CacheStats,
    origin: Instant,
}

/// Removing an element commutes with mapping the entries to their items.
proof fn lemma_remove_map<K: View, V>(entries: Seq<CacheEntry<K, V>>, i: int)
    requires
        0 <= i < entries.len(),
    ensures
        entries.remove(i).map_values(
            |e: CacheEntry<K, V>| (e.key@, e.value, e.last_accessed),
        ) == entries.map_values(|e: CacheEntry<K, V>| (e.key@, e.value, e.last_accessed)).remove(
            i,
        ),
{
    assert(entries.remove(i).map_values(
        |e: CacheEntry<K, V>| (e.key@, e.value, e.last_accessed),
    ) =~= entries.map_values(|e: CacheEntry<K, V>| (e.key@, e.value, e.last_accessed)).remove(i));
}

/// Dropping an entry keeps the keys distinct.
proof fn lemma_remove_distinct<KV, V>(items: Seq<CacheItem<KV, V>>, i: int)
    requires
        distinct_keys(items),
        0 <= i < items.len(),
    ensures
        distinct_keys(items.remove(i)),
{
    let r = items.remove(i);
    assert forall|a: int, b: int| 0 <= a < r.len() && 0 <= b < r.len() && a != b implies #[trigger] r[a].0
        != #[trigger] r[b].0 by {
        let a0 = if a < i { a } else { a + 1 };
        let b0 = if b < i { b } else { b + 1 };
        assert(r[a] == items[a0]);
        assert(r[b] == items[b0]);
    }
}

/// Moving the entry at `i` to the end, with any value and time, keeps the
/// keys distinct.
proof fn lemma_remove_push_distinct<KV, V>(items: Seq<CacheItem<KV, V>>, i: int, it: CacheItem<KV, V>)
    requires
        distinct_keys(items),
        0 <= i < items.len(),
        it.0 == items[i].0,
    ensures
        distinct_keys(items.remove(i).push(it)),
{
    lemma_remove_distinct(items, i);
    let r = items.remove(i);
    let p = r.push(it);
    assert forall|a: int, b: int| 0 <= a < p.len() && 0 <= b < p.len() && a != b implies #[trigger] p[a].0
        != #[trigger] p[b].0 by {
        if a == r.len() {
            let b0 = if b < i { b } else { b + 1 };
            assert(p[b] == items[b0]);
        } else if b == r.len() {
            let a0 = if a < i { a } else { a + 1 };
            assert(p[a] == items[a0]);
        } else {
            assert(p[a] == r[a]);
            assert(p[b] == r[b]);
        }
    }
}

impl<K: CacheKey, V> Cache<K, V> {
    /// The entries in recency order, least recently used first.
    pub closed spec fn items(&self) -> Seq<CacheItem<K::V, V>> {
        self.entries@.map_values(|e: CacheEntry<K, V>| (e.key@, e.value, e.last_accessed))
    }

    pub closed spec fn max_size(&self) -> nat {
        self.max_size as nat
    }

    pub closed spec fn ttl_seconds(&self) -> u64 {
        self.ttl_seconds
    }

    /// The counters.
    pub closed spec fn counters(&self) -> CacheStats {
        self.stats
    }

    /// Keys are distinct, the size counter is the number of entries, and no
    /// more entries are held than the capacity allows.
    pub closed spec fn well_formed(&self) -> bool {
        &&& distinct_keys(self.items())
        &&& self.stats.size == self.entries@.len()
        &&& self.entries@.len() <= capacity(self.max_size as nat)
    }
}

/// The effect of looking `key` up at time `now`, which returned `r`.
pub open spec fn lookup_step<K: CacheKey, V: Clone>(
    pre: Cache<K, V>,
    post: Cache<K, V>,
    key: K::V,
    now: u128,
    r: Option<V>,
) -> bool {
    let hit = is_hit(pre.items(), key, now, pre.ttl_seconds());
    &&& post.items() == get_items(pre.items(), key, now, pre.ttl_seconds())
    &&& post.max_size() == pre.max_size()
    &&& post.ttl_seconds() == pre.ttl_seconds()
    &&& match (r, get_value(pre.items(), key, now, pre.ttl_seconds())) {
        (Some(a), Some(b)) => cloned(b, a),
        (None, None) => true,
        _ => false,
    }
    &&& post.counters().hits == pre.counters().hits + if hit {
        1int
    } else {
        0int
    }
    &&& post.counters().misses == pre.counters().misses + if hit {
        0int
    } else {
        1int
    }
    &&& post.counters().evictions == pre.counters().evictions
}

/// The effect of storing `value` under `key` at time `now`.
pub open spec fn store_step<K: CacheKey, V>(
    pre: Cache<K, V>,
    post: Cache<K, V>,
    key: K::V,
    value: V,
    now: u128,
) -> bool {
    &&& post.items() == insert_items(pre.items(), pre.max_size(), key, value, now)
    &&& post.max_size() == pre.max_size()
    &&& post.ttl_seconds() == pre.ttl_seconds()
    &&& post.counters().hits == pre.counters().hits
    &&& post.counters().misses == pre.counters().misses
    &&& post.counters().evictions == pre.counters().evictions + insert_evictions(
        pre.items(),
        pre.max_size(),
        key,
    )
}

/// The effect of dropping every entry that expired by time `now`.
pub open spec fn cleanup_step<K: CacheKey, V>(pre: Cache<K, V>, post: Cache<K, V>, now: u128) -> bool {
    let live = live_items(pre.items(), now, pre.ttl_seconds());
    &&& post.items() == live
    &&& post.max_size() == pre.max_size()
    &&& post.ttl_seconds() == pre.ttl_seconds()
    &&& post.counters().hits == pre.counters().hits
    &&& post.counters().misses == pre.counters().misses
    &&& post.counters().evictions == pre.counters().evictions + pre.items().len() - live.len()
}

/// Dropping the first `k` entries and appending one whose key none of them
/// has keeps the keys distinct.
proof fn lemma_skip_push_distinct<KV, V>(items: Seq<CacheItem<KV, V>>, k: int, it: CacheItem<KV, V>)
    requires
        distinct_keys(items),
        0 <= k <= items.len(),
        !has_key(items, it.0),
    ensures
        distinct_keys(items.skip(k).push(it)),
{
    let r = items.skip(k);
    let p = r.push(it);
    assert forall|a: int, b: int| 0 <= a < p.len() && 0 <= b < p.len() && a != b implies #[trigger] p[a].0
        != #[trigger] p[b].0 by {
        if a == r.len() {
            assert(p[b] == items[b + k]);
        } else if b == r.len() {
            assert(p[a] == items[a + k]);
        } else {
            assert(p[a] == items[a + k]);
            assert(p[b] == items[b + k]);
        }
    }
}

impl<K: CacheKey, V: Clone> Cache<K, V> {
    /// An empty cache holding at most `max_size` entries (one, when it is
    /// zero), each alive for `ttl_seconds` after its last use.
    pub fn new(max_size: usize, ttl_seconds: u64) -> (c: Self)
        ensures
            c.well_formed(),
            c.items() == Seq::<CacheItem<K::V, V>>::empty(),
            c.max_size() == max_size,
            c.ttl_seconds() == ttl_seconds,
            c.counters().hits == 0,
            c.counters().misses == 0,
            c.counters().evictions == 0,
            c.counters().size == 0,
    {
        let c = Cache {
            entries: Vec::new(),
            max_size,
            ttl_seconds,
            stats: CacheStats::default(),
            origin: instant_now(),
        };
        assert(c.items() =~= Seq::<CacheItem<K::V, V>>::empty());
        c
    }

    /// Position of the entry whose key is `key`.
    fn position(&self, key: &K) -> (r: Option<usize>)
        requires
            self.well_formed(),
        ensures
            match r {
                Some(i) => i < self.items().len() && i == key_index(self.items(), key@),
                None => !has_key(self.items(), key@) && key_index(self.items(), key@) == -1,
            },
    {
        let mut i: usize = 0;
        while i < self.entries.len()
            invariant
                i <= self.entries@.len(),
                self.well_formed(),
                forall|j: int| 0 <= j < i ==> #[trigger] self.items()[j].0 != key@,
            decreases self.entries@.len() - i,
        {
            if self.entries[i].key.same_key(key) {
                assert(self.items()[i as int].0 == key@);
                proof {
                    let k = key_index(self.items(), key@);
                    assert(has_key(self.items(), key@));
                    assert(self.items()[k].0 == key@);
                }
                return Some(i);
            }
            assert(self.items()[i as int].0 != key@);
            i = i + 1;
        }
        assert(!has_key(self.items(), key@));
        None
    }

    /// Looks `key` up at time `now`. A live entry is a hit: its value is
    /// returned, its time renewed and it becomes the most recently used entry.
    /// An expired entry is dropped and, like a missing one, counts as a miss.
    pub fn get_at(&mut self, key: &K, now: u128) -> (r: Option<V>)
        requires
            old(self).well_formed(),
            old(self).counters().hits < usize::MAX,
            old(self).counters().misses < usize::MAX,
        ensures
            final(self).well_formed(),
            lookup_step(*old(self), *final(self), key@, now, r),
    {
        let ghost old_items = self.items();
        match self.position(key) {
            None => {
                self.stats.misses = self.stats.misses + 1;
                None
            },
            Some(i) => {
                let last = self.entries[i].last_accessed;
                let age: u128 = if now >= last {
                    now - last
                } else {
                    0
                };
                assert((self.ttl_seconds as u128) * NANOS_PER_SECOND <= u128::MAX) by (nonlinear_arith)
                    requires
                        self.ttl_seconds <= u64::MAX,
                ;
                let ttl_nanos: u128 = (self.ttl_seconds as u128) * NANOS_PER_SECOND;
                let ghost old_entries = self.entries@;
                if age < ttl_nanos {
                    let mut entry = self.entries.remove(i);
                    let value = entry.value.clone();
                    entry.last_accessed = now;
                    self.entries.push(entry);
                    self.stats.hits = self.stats.hits + 1;
                    proof {
                        lemma_remove_map(old_entries, i as int);
                        assert(self.items() =~= old_items.remove(i as int).push(
                            (key@, old_items[i as int].1, now),
                        ));
                        lemma_remove_push_distinct(old_items, i as int, (key@, old_items[i as int].1, now));
                    }
                    Some(value)
                } else {
                    self.entries.remove(i);
                    self.stats.size = self.entries.len();
                    self.stats.misses = self.stats.misses + 1;
                    proof {
                        lemma_remove_map(old_entries, i as int);
                        assert(self.items() =~= old_items.remove(i as int));
                        lemma_remove_distinct(old_items, i as int);
                    }
                    None
                }
            },
        }
    }

    /// Stores `value` under `key` at time `now`. An existing entry for the key
    /// is replaced and becomes the most recently used one. Otherwise, while the
    /// cache is full, the least recently used entry is evicted, and the new
    /// entry is added as the most recently used one.
    pub fn insert_at(&mut self, key: K, value: V, now: u128)
        requires
            old(self).well_formed(),
            old(self).counters().evictions + insert_evictions(
                old(self).items(),
                old(self).max_size(),
                key@,
            ) <= usize::MAX,
        ensures
            final(self).well_formed(),
            store_step(*old(self), *final(self), key@, value, now),
    {
        let ghost old_items = self.items();
        let ghost old_entries = self.entries@;
        let ghost item = (key@, value, now);
        match self.position(&key) {
            Some(i) => {
                self.entries.remove(i);
                self.entries.push(CacheEntry { key, value, last_accessed: now });
                proof {
                    lemma_remove_map(old_entries, i as int);
                    assert(self.items() =~= old_items.remove(i as int).push(item));
                    lemma_remove_push_distinct(old_items, i as int, item);
                }
            },
            None => {
                let ghost old_len = old_items.len();
                let ghost evict = evict_count(old_len, self.max_size as nat);
                let ghost mut removed: nat = 0;
                while self.entries.len() >= self.max_size && self.entries.len() > 0
                    invariant
                        self.items() == old_items.skip(removed as int),
                        removed <= evict,
                        removed <= old_len,
                        evict == evict_count(old_len, self.max_size as nat),
                        old_len == old_items.len(),
                        self.stats.evictions == old(self).stats.evictions + removed,
                        old(self).stats.evictions + evict <= usize::MAX,
                        self.stats.hits == old(self).stats.hits,
                        self.stats.misses == old(self).stats.misses,
                        self.max_size == old(self).max_size,
                        self.ttl_seconds == old(self).ttl_seconds,
                    decreases self.entries@.len(),
                {
                    let ghost before = self.entries@;
                    assert(self.items().len() == self.entries@.len());
                    assert(old_items.skip(removed as int).len() == old_len - removed);
                    assert(self.entries@.len() == old_len - removed);
                    assert(removed < evict);
                    self.entries.remove(0);
                    self.stats.evictions = self.stats.evictions + 1;
                    proof {
                        lemma_remove_map(before, 0);
                        assert(old_items.skip(removed as int).remove(0) =~= old_items.skip(
                            removed + 1int,
                        ));
                        removed = removed + 1;
                    }
                }
                assert(removed == evict);
                let ghost kept = self.entries@;
                self.entries.push(CacheEntry { key, value, last_accessed: now });
                self.stats.size = self.entries.len();
                proof {
                    assert(kept.push(CacheEntry { key, value, last_accessed: now }).map_values(
                        |e: CacheEntry<K, V>| (e.key@, e.value, e.last_accessed),
                    ) =~= kept.map_values(
                        |e: CacheEntry<K, V>| (e.key@, e.value, e.last_accessed),
                    ).push(item));
                    lemma_skip_push_distinct(old_items, evict as int, item);
                }
            },
        }
    }

    /// Removes the entry for `key`, if any, and returns its value.
    pub fn remove(&mut self, key: &K) -> (r: Option<V>)
        requires
            old(self).well_formed(),
        ensures
            final(self).well_formed(),
            final(self).items() == remove_items(old(self).items(), key@),
            r == if has_key(old(self).items(), key@) {
                Some(old(self).items()[key_index(old(self).items(), key@)].1)
            } else {
                None
            },
            final(self).max_size() == old(self).max_size(),
            final(self).ttl_seconds() == old(self).ttl_seconds(),
            final(self).counters().hits == old(self).counters().hits,
            final(self).counters().misses == old(self).counters().misses,
            final(self).counters().evictions == old(self).counters().evictions,
    {
        let ghost old_items = self.items();
        let ghost old_entries = self.entries@;
        match self.position(key) {
            Some(i) => {
                let entry = self.entries.remove(i);
                self.stats.size = self.entries.len();
                proof {
                    lemma_remove_map(old_entries, i as int);
                    lemma_remove_distinct(old_items, i as int);
                }
                Some(entry.value)
            },
            None => None,
        }
    }

    /// Drops every entry; the hit, miss and eviction counters are kept.
    pub fn clear(&mut self)
        requires
            old(self).well_formed(),
        ensures
            final(self).well_formed(),
            final(self).items() == Seq::<CacheItem<K::V, V>>::empty(),
            final(self).max_size() == old(self).max_size(),
            final(self).ttl_seconds() == old(self).ttl_seconds(),
            final(self).counters().hits == old(self).counters().hits,
            final(self).counters().misses == old(self).counters().misses,
            final(self).counters().evictions == old(self).counters().evictions,
    {
        self.entries.clear();
        self.stats.size = 0;
        assert(self.items() =~= Seq::<CacheItem<K::V, V>>::empty());
    }

    /// Drops every entry that expired by time `now`; each counts as an eviction.
    pub fn cleanup_at(&mut self, now: u128)
        requires
            old(self).well_formed(),
            old(self).counters().evictions + old(self).items().len() - live_items(
                old(self).items(),
                now,
                old(self).ttl_seconds(),
            ).len() <= usize::MAX,
        ensures
            final(self).well_formed(),
            cleanup_step(*old(self), *final(self), now),
    {
        let ghost old_items = self.items();
        let ghost ttl = self.ttl_seconds;
        let ghost pred = |it: CacheItem<K::V, V>| is_fresh(now, it.2, ttl);
        assert((self.ttl_seconds as u128) * NANOS_PER_SECOND <= u128::MAX) by (nonlinear_arith)
            requires
                self.ttl_seconds <= u64::MAX,
        ;
        let ttl_nanos: u128 = (self.ttl_seconds as u128) * NANOS_PER_SECOND;
        let mut i: usize = 0;
        let ghost mut j: int = 0;
        proof {
            assert(old_items.take(0).filter(pred) =~= Seq::<CacheItem<K::V, V>>::empty());
            assert(old_items.take(0).filter(pred) + old_items.skip(0) =~= old_items);
        }
        while i < self.entries.len()
            invariant
                0 <= i <= j <= old_items.len(),
                self.items() == old_items.take(j).filter(pred) + old_items.skip(j),
                old_items.take(j).filter(pred).len() == i,
                pred == (|it: CacheItem<K::V, V>| is_fresh(now, it.2, ttl)),
                ttl == self.ttl_seconds,
                ttl_nanos == ttl * NANOS_PER_SECOND,
                distinct_keys(self.items()),
                self.stats.evictions == old(self).stats.evictions + (j - i),
                old(self).stats.evictions + old_items.len() - live_items(old_items, now, ttl).len()
                    <= usize::MAX,
                live_items(old_items, now, ttl) == old_items.filter(pred),
                self.stats.hits == old(self).stats.hits,
                self.stats.misses == old(self).stats.misses,
                self.max_size == old(self).max_size,
            decreases old_items.len() - j,
        {
            proof {
                lemma_filter_take_step(old_items, j, pred);
            }
            let last = self.entries[i].last_accessed;
            let age: u128 = if now >= last {
                now - last
            } else {
                0
            };
            let ghost before = self.entries@;
            assert(self.items()[i as int] == old_items[j]);
            if age < ttl_nanos {
                i = i + 1;
            } else {
                proof {
                    assert(old_items =~= old_items.take(j + 1) + old_items.skip(j + 1));
                    Seq::filter_distributes_over_add(old_items.take(j + 1), old_items.skip(j + 1), pred);
                    old_items.skip(j + 1).lemma_filter_len(pred);
                }
                self.entries.remove(i);
                self.stats.evictions = self.stats.evictions + 1;
                proof {
                    lemma_remove_map(before, i as int);
                    lemma_remove_distinct(old_items.take(j).filter(pred) + old_items.skip(j), i as int);
                }
            }
            proof {
                let new_prefix = old_items.take(j + 1).filter(pred);
                assert(self.items() =~= new_prefix + old_items.skip(j + 1));
                j = j + 1;
            }
        }
        proof {
            assert(old_items.take(j) =~= old_items);
            assert(old_items.skip(j) =~= Seq::<CacheItem<K::V, V>>::empty());
            assert(self.items() =~= old_items.filter(pred));
        }
        self.stats.size = self.entries.len();
    }

    /// Number of entries.
    pub fn size(&self) -> (n: usize)
        requires
            self.well_formed(),
        ensures
            n == self.items().len(),
    {
        self.entries.len()
    }

    /// The cache holds no entry.
    pub fn is_empty(&self) -> (b: bool)
        requires
            self.well_formed(),
        ensures
            b == (self.items().len() == 0),
    {
        self.entries.len() == 0
    }

    /// A copy of the counters.
    pub fn stats(&self) -> (s: CacheStats)
        ensures
            s == self.counters(),
    {
        CacheStats {
            hits: self.stats.hits,
            misses: self.stats.misses,
            evictions: self.stats.evictions,
            size: self.stats.size,
        }
    }

    /// Looks `key` up now; see [`Cache::get_at`].
    pub fn get(&mut self, key: &K) -> (r: Option<V>)
        requires
            old(self).well_formed(),
            old(self).counters().hits < usize::MAX,
            old(self).counters().misses < usize::MAX,
        ensures
            final(self).well_formed(),
            exists|now: u128| #[trigger] lookup_step(*old(self), *final(self), key@, now, r),
    {
        let now = self.now();
        self.get_at(key, now)
    }

    /// Stores `value` under `key` now; see [`Cache::insert_at`].
    pub fn insert(&mut self, key: K, value: V)
        requires
            old(self).well_formed(),
            old(self).counters().evictions + insert_evictions(
                old(self).items(),
                old(self).max_size(),
                key@,
            ) <= usize::MAX,
        ensures
            final(self).well_formed(),
            exists|now: u128| #[trigger] store_step(*old(self), *final(self), key@, value, now),
    {
        let now = self.now();
        self.insert_at(key, value, now)
    }

    /// Drops every entry that has expired by now; see [`Cache::cleanup_at`].
    /// How many expire depends on the time of the call, so the counter must
    /// have room for all entries.
    pub fn cleanup(&mut self)
        requires
            old(self).well_formed(),
            old(self).counters().evictions + old(self).items().len() <= usize::MAX,
        ensures
            final(self).well_formed(),
            exists|now: u128| #[trigger] cleanup_step(*old(self), *final(self), now),
    {
        let now = self.now();
        proof {
            let ghost pred = |it: CacheItem<K::V, V>| is_fresh(now, it.2, self.ttl_seconds);
            self.items().lemma_filter_len(pred);
        }
        self.cleanup_at(now)
    }

    /// Current time, in nanoseconds since the cache was made.
    fn now(&self) -> u128 {
        duration_as_nanos(&instant_elapsed(&self.origin))
    }
}

/// Invariant of every cache the operations produce: keys are distinct, the
/// size counter equals the number of entries, and the number of entries never
/// exceeds the capacity.
pub proof fn lemma_cache_invariant<K: CacheKey, V>(c: Cache<K, V>)
    requires
        c.well_formed(),
    ensures
        distinct_keys(c.items()),
        c.counters().size == c.items().len(),
        c.items().len() <= capacity(c.max_size()),
{
}

/// A value stored under a key is found under that key until its time to live
/// runs out, whatever the capacity.
pub proof fn lemma_get_after_insert<KV, V>(
    items: Seq<CacheItem<KV, V>>,
    max_size: nat,
    ttl_seconds: u64,
    key: KV,
    value: V,
    t: u128,
    later: u128,
)
    requires
        distinct_keys(items),
        t <= later,
        later - t < ttl_seconds * NANOS_PER_SECOND,
    ensures
        get_value(insert_items(items, max_size, key, value, t), key, later, ttl_seconds) == Some(value),
{
    let after = insert_items(items, max_size, key, value, t);
    let n = after.len() - 1;
    assert(after[n].0 == key);
    assert(has_key(after, key));
    let k = key_index(after, key);
    if k != n {
        if has_key(items, key) {
            let i = key_index(items, key);
            lemma_remove_push_distinct(items, i, (key, value, t));
        } else {
            lemma_skip_push_distinct(items, evict_count(items.len(), max_size) as int, (key, value, t));
        }
        assert(after[k].0 == after[n].0);
    }
}

/// What storing under `key` at time `now` does to a cache of capacity at
/// least one: the cache never holds more than its capacity; a stored key is
/// replaced in place, without eviction; a new key in a cache with room adds
/// one entry, without eviction; a new key in a full cache evicts exactly one
/// entry; the hit and miss counters are kept; and every lookup of `key`
/// within the time to live after `now` finds `value`.
pub proof fn lemma_insert_effect<K: CacheKey, V>(
    pre: Cache<K, V>,
    post: Cache<K, V>,
    key: K::V,
    value: V,
    now: u128,
)
    requires
        pre.well_formed(),
        pre.max_size() >= 1,
        store_step(pre, post, key, value, now),
    ensures
        post.items().len() <= pre.max_size(),
        has_key(pre.items(), key) ==> post.items().len() == pre.items().len()
            && post.counters().evictions == pre.counters().evictions,
        !has_key(pre.items(), key) && pre.items().len() < pre.max_size() ==> post.items().len()
            == pre.items().len() + 1 && post.counters().evictions == pre.counters().evictions,
        !has_key(pre.items(), key) && pre.items().len() == pre.max_size() ==> post.items().len()
            == pre.max_size() && post.counters().evictions == pre.counters().evictions + 1,
        post.counters().hits == pre.counters().hits,
        post.counters().misses == pre.counters().misses,
        forall|later: u128|
            now <= later && later - now < post.ttl_seconds() * NANOS_PER_SECOND ==> #[trigger] get_value(
                post.items(),
                key,
                later,
                post.ttl_seconds(),
            ) == Some(value),
{
    lemma_cache_invariant(pre);
    let items = pre.items();
    let m = pre.max_size();
    if has_key(items, key) {
        let i = key_index(items, key);
        assert(0 <= i < items.len() && items[i].0 == key);
    }
    assert forall|later: u128|
        now <= later && later - now < post.ttl_seconds() * NANOS_PER_SECOND implies #[trigger] get_value(
        post.items(),
        key,
        later,
        post.ttl_seconds(),
    ) == Some(value) by {
        lemma_get_after_insert(items, m, post.ttl_seconds(), key, value, now, later);
    }
}

/// After a key is removed, looking it up finds nothing.
pub proof fn lemma_get_after_remove<KV, V>(
    items: Seq<CacheItem<KV, V>>,
    key: KV,
    now: u128,
    ttl_seconds: u64,
)
    requires
        distinct_keys(items),
    ensures
        get_value(remove_items(items, key), key, now, ttl_seconds) is None,
        !has_key(remove_items(items, key), key),
{
    let after = remove_items(items, key);
    if has_key(items, key) {
        let i = key_index(items, key);
        if has_key(after, key) {
            let j = choose|j: int| 0 <= j < after.len() && #[trigger] after[j].0 == key;
            let j0 = if j < i { j } else { j + 1 };
            assert(after[j] == items[j0]);
        }
    }
}

/// Storing a new key in a full cache evicts its least recently used entry,
/// and the new entry becomes the most recently used one.
pub proof fn lemma_full_insert_evicts_lru<KV, V>(
    items: Seq<CacheItem<KV, V>>,
    max_size: nat,
    key: KV,
    value: V,
    t: u128,
)
    requires
        distinct_keys(items),
        !has_key(items, key),
        1 <= max_size <= items.len(),
    ensures
        !has_key(insert_items(items, max_size, key, value, t), items[0].0),
        insert_items(items, max_size, key, value, t).last() == (key, value, t),
        insert_items(items, max_size, key, value, t).len() == max_size,
{
    let after = insert_items(items, max_size, key, value, t);
    let k = evict_count(items.len(), max_size) as int;
    if has_key(after, items[0].0) {
        let j = choose|j: int| 0 <= j < after.len() && #[trigger] after[j].0 == items[0].0;
        if j == after.len() - 1 {
            assert(items[0].0 == key);
        } else {
            assert(after[j] == items[j + k]);
        }
    }
}

/// A hit moves the entry to the most recently used place with its time
/// renewed and keeps the number of entries.
pub proof fn lemma_hit_renews<KV, V>(items: Seq<CacheItem<KV, V>>, key: KV, now: u128, ttl_seconds: u64)
    requires
        distinct_keys(items),
        is_hit(items, key, now, ttl_seconds),
    ensures
        get_items(items, key, now, ttl_seconds).last() == (key, get_value(items, key, now, ttl_seconds)->0, now),
        get_items(items, key, now, ttl_seconds).len() == items.len(),
{
}

/// After a cleanup every remaining entry is alive, and every live entry remains.
pub proof fn lemma_cleanup_keeps_live<KV, V>(items: Seq<CacheItem<KV, V>>, now: u128, ttl_seconds: u64)
    ensures
        forall|i: int|
            0 <= i < live_items(items, now, ttl_seconds).len() ==> is_fresh(
                now,
                #[trigger] live_items(items, now, ttl_seconds)[i].2,
                ttl_seconds,
            ),
        forall|i: int|
            0 <= i < items.len() && is_fresh(now, items[i].2, ttl_seconds) ==> #[trigger] live_items(
                items,
                now,
                ttl_seconds,
            ).contains(items[i]),
{
    broadcast use vstd::seq_lib::group_filter_ensures;

    let pred = |it: CacheItem<KV, V>| is_fresh(now, it.2, ttl_seconds);
    assert forall|i: int|
        0 <= i < live_items(items, now, ttl_seconds).len() implies is_fresh(
        now,
        #[trigger] live_items(items, now, ttl_seconds)[i].2,
        ttl_seconds,
    ) by {
        assert(pred(items.filter(pred)[i]));
    }
    assert forall|i: int| 0 <= i < items.len() && is_fresh(now, items[i].2, ttl_seconds) implies #[trigger] live_items(
        items,
        now,
        ttl_seconds,
    ).contains(items[i]) by {
        assert(pred(items[i]));
    }
}

} // verus!
