//! A cache shared by handles: every clone of a [`SharedCache`] reaches the
//! same [`Cache`], guarded by a lock.
//!
//! The entries behind a handle can be changed through any of its clones, so
//! no contract here says what a lookup finds; what the lock keeps is that the
//! shared cache is well formed and keeps the capacity and time to live it was
//! made with. What one operation does to the cache is stated by the
//! operations of [`Cache`], which each call here performs under the lock.

use crate::bm25::cache::{
    capacity, evict_count, insert_evictions, lemma_cache_invariant, Cache, CacheItem, CacheKey,
    CacheStats,
};
use std::sync::Arc;
use vstd::prelude::*;
use vstd::rwlock::{RwLock, RwLockPredicate};

verus! {

/// What the lock of a shared cache keeps: the cache is well formed, with
/// this capacity and time to live.
pub struct CacheBounds {
    pub max_size: usize,
    pub ttl_seconds: u64,
}

impl<K: CacheKey, V> RwLockPredicate<Cache<K, V>> for CacheBounds {
    open spec fn inv(self, c: Cache<K, V>) -> bool {
        &&& c.well_formed()
        &&& c.max_size() == self.max_size
        &&& c.ttl_seconds() == self.ttl_seconds
    }
}

/// Storing never evicts more entries than the cache holds.
proof fn lemma_insert_evictions_bounded<KV, V>(items: Seq<CacheItem<KV, V>>, max_size: nat, key: KV)
    ensures
        insert_evictions(items, max_size, key) <= items.len(),
{
    assert(evict_count(items.len(), max_size) <= items.len());
}

/// A handle on a cache shared with all its clones.
#[derive(Clone)]
pub struct SharedCache<K: CacheKey, V> {
    store: Arc<RwLock<Cache<K, V>, CacheBounds>>,
}

impl<K: CacheKey, V: Clone> SharedCache<K, V> {
    /// The capacity and time to live of the shared cache.
    pub closed spec fn bounds(&self) -> CacheBounds {
        self.store.pred()
    }

    /// A handle on a new, empty cache holding at most `max_size` entries (one,
    /// when it is zero), each alive for `ttl_seconds` after its last use.
    pub fn new(max_size: usize, ttl_seconds: u64) -> (s: Self)
        ensures
            s.bounds().max_size == max_size,
            s.bounds().ttl_seconds == ttl_seconds,
    {
        let cache = Cache::new(max_size, ttl_seconds);
        let lock = RwLock::new(cache, Ghost(CacheBounds { max_size, ttl_seconds }));
        SharedCache { store: Arc::new(lock) }
    }

    /// Looks `key` up now in the shared cache; see [`Cache::get`]. Once the
    /// hit or miss counter has reached `usize::MAX`, the cache is left as it
    /// is and `None` is returned.
    pub fn get(&self, key: &K) -> Option<V> {
        let (mut cache, handle) = self.store.acquire_write();
        let s = cache.stats();
        let r = if s.hits < usize::MAX && s.misses < usize::MAX {
            cache.get(key)
        } else {
            None
        };
        handle.release_write(cache);
        r
    }

    /// Stores `value` under `key` now in the shared cache; see
    /// [`Cache::insert`]. When the eviction counter has no room left for the
    /// evictions this could cause, the cache is left as it is.
    pub fn insert(&self, key: K, value: V) {
        let (mut cache, handle) = self.store.acquire_write();
        let s = cache.stats();
        let n = cache.size();
        if s.evictions <= usize::MAX - n {
            proof {
                lemma_insert_evictions_bounded(cache.items(), cache.max_size(), key@);
            }
            cache.insert(key, value);
        }
        handle.release_write(cache);
    }

    /// Removes the entry for `key` from the shared cache, if any, and returns
    /// its value; see [`Cache::remove`].
    pub fn remove(&self, key: &K) -> Option<V> {
        let (mut cache, handle) = self.store.acquire_write();
        let r = cache.remove(key);
        handle.release_write(cache);
        r
    }

    /// Drops every entry of the shared cache; see [`Cache::clear`].
    pub fn clear(&self) {
        let (mut cache, handle) = self.store.acquire_write();
        cache.clear();
        handle.release_write(cache);
    }

    /// Drops every entry of the shared cache that has expired by now; see
    /// [`Cache::cleanup`]. When the eviction counter has no room left for
    /// all entries, the cache is left as it is.
    pub fn cleanup(&self) {
        let (mut cache, handle) = self.store.acquire_write();
        let s = cache.stats();
        let n = cache.size();
        if s.evictions <= usize::MAX - n {
            cache.cleanup();
        }
        handle.release_write(cache);
    }

    /// Number of entries in the shared cache, at most its capacity.
    pub fn size(&self) -> (n: usize)
        ensures
            n <= capacity(self.bounds().max_size as nat),
    {
        let handle = self.store.acquire_read();
        proof {
            lemma_cache_invariant(handle.view());
        }
        let n = handle.borrow().size();
        handle.release_read();
        n
    }

    /// The shared cache holds no entry.
    pub fn is_empty(&self) -> bool {
        let handle = self.store.acquire_read();
        let b = handle.borrow().is_empty();
        handle.release_read();
        b
    }

    /// A copy of the shared cache's counters; the size counter is at most
    /// the capacity.
    pub fn stats(&self) -> (s: CacheStats)
        ensures
            s.size <= capacity(self.bounds().max_size as nat),
    {
        let handle = self.store.acquire_read();
        proof {
            lemma_cache_invariant(handle.view());
        }
        let s = handle.borrow().stats();
        handle.release_read();
        s
    }
}

} // verus!
