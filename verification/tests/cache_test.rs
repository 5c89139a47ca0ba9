use searchkit::bm25::cache::{Cache, CacheStats};

#[test]
fn test_cache_basic_operations() {
    let mut cache: Cache<String, i32> = Cache::new(10, 60);

    assert_eq!(cache.get(&"key1".to_string()), None);
    assert_eq!(cache.size(), 0);

    cache.insert("key1".to_string(), 42);
    assert_eq!(cache.get(&"key1".to_string()), Some(42));
    assert_eq!(cache.size(), 1);

    cache.insert("key1".to_string(), 100);
    assert_eq!(cache.get(&"key1".to_string()), Some(100));

    cache.remove(&"key1".to_string());
    assert_eq!(cache.get(&"key1".to_string()), None);
    assert_eq!(cache.size(), 0);
}

#[test]
fn cache_test_cache_lru_eviction() {
    let mut cache: Cache<String, i32> = Cache::new(3, 60);

    cache.insert("key1".to_string(), 1);
    cache.insert("key2".to_string(), 2);
    cache.insert("key3".to_string(), 3);

    assert_eq!(cache.size(), 3);

    cache.insert("key4".to_string(), 4);

    assert!(cache.size() <= 3);
}

#[test]
fn cache_test_cache_stats() {
    let mut cache: Cache<String, i32> = Cache::new(10, 60);

    cache.insert("key1".to_string(), 1);
    cache.get(&"key1".to_string());
    cache.get(&"nonexistent".to_string());

    let stats = cache.stats();
    assert_eq!(stats.hits, 1);
    assert_eq!(stats.misses, 1);
    assert_eq!(stats.size, 1);
}

#[test]
fn cache_test_cache_clear() {
    let mut cache: Cache<String, i32> = Cache::new(10, 60);

    cache.insert("key1".to_string(), 1);
    cache.insert("key2".to_string(), 2);

    assert_eq!(cache.size(), 2);

    cache.clear();

    assert_eq!(cache.size(), 0);
    assert_eq!(cache.get(&"key1".to_string()), None);
}

#[test]
fn cache_recently_used_key_survives_eviction() {
    let mut cache: Cache<String, i32> = Cache::new(3, 60);
    cache.insert("key1".to_string(), 1);
    cache.insert("key2".to_string(), 2);
    cache.insert("key3".to_string(), 3);
    assert_eq!(cache.get(&"key1".to_string()), Some(1));
    cache.insert("key4".to_string(), 4);
    assert_eq!(cache.size(), 3);
    assert_eq!(cache.stats().evictions, 1);
    assert_eq!(cache.get(&"key2".to_string()), None);
    assert_eq!(cache.get(&"key1".to_string()), Some(1));
    assert_eq!(cache.get(&"key3".to_string()), Some(3));
    assert_eq!(cache.get(&"key4".to_string()), Some(4));
}

#[test]
fn cache_exact_times_drive_expiry() {
    let mut cache: Cache<String, i32> = Cache::new(10, 2);
    cache.insert_at("a".to_string(), 1, 0);
    cache.insert_at("b".to_string(), 2, 1_000_000_000);
    // one nanosecond before the two seconds run out
    assert_eq!(cache.get_at(&"a".to_string(), 1_999_999_999), Some(1));
    // the hit renewed "a"; "b" expires at exactly three seconds
    assert_eq!(cache.get_at(&"b".to_string(), 3_000_000_000), None);
    assert_eq!(cache.size(), 1);
    let stats = cache.stats();
    assert_eq!(stats.hits, 1);
    assert_eq!(stats.misses, 1);
    assert_eq!(stats.size, 1);
}

#[test]
fn cache_cleanup_counts_evictions() {
    let mut cache: Cache<String, String> = Cache::new(10, 1);
    cache.insert_at("k1".to_string(), "v1".to_string(), 0);
    cache.insert_at("k2".to_string(), "v2".to_string(), 500_000_000);
    cache.insert_at("k3".to_string(), "v3".to_string(), 900_000_000);
    cache.cleanup_at(1_600_000_000);
    assert_eq!(cache.size(), 1);
    assert_eq!(cache.stats().evictions, 2);
    assert_eq!(cache.stats().size, 1);
    assert_eq!(cache.get_at(&"k3".to_string(), 1_600_000_000), Some("v3".to_string()));
}

#[test]
fn cache_zero_ttl_never_hits() {
    let mut cache: Cache<String, String> = Cache::new(10, 0);
    cache.insert_at("key1".to_string(), "value1".to_string(), 5);
    assert_eq!(cache.get_at(&"key1".to_string(), 5), None);
    assert!(cache.is_empty());
    assert_eq!(cache.stats().misses, 1);
}

#[test]
fn cache_zero_capacity_keeps_only_latest() {
    let mut cache: Cache<String, i32> = Cache::new(0, 60);
    cache.insert("a".to_string(), 1);
    assert_eq!(cache.size(), 1);
    cache.insert("b".to_string(), 2);
    assert_eq!(cache.size(), 1);
    assert_eq!(cache.stats().evictions, 1);
    assert_eq!(cache.get(&"b".to_string()), Some(2));
}

#[test]
fn cache_remove_returns_value() {
    let mut cache: Cache<String, String> = Cache::new(10, 60);
    cache.insert("key1".to_string(), "value1".to_string());
    cache.insert("key2".to_string(), "value2".to_string());
    assert_eq!(cache.remove(&"nonexistent".to_string()), None);
    assert_eq!(cache.remove(&"key1".to_string()), Some("value1".to_string()));
    assert_eq!(cache.size(), 1);
    assert_eq!(cache.stats().size, 1);
}

#[test]
fn cache_stats_default_is_zero() {
    let stats = CacheStats::default();
    assert_eq!(stats.hits, 0);
    assert_eq!(stats.misses, 0);
    assert_eq!(stats.size, 0);
    assert_eq!(stats.evictions, 0);
}

#[test]
fn owned_cache_clone_is_a_copy() {
    let mut cache1: Cache<String, i32> = Cache::new(10, 60);
    cache1.insert("key1".to_string(), 100);
    let mut cache2 = cache1.clone();
    assert_eq!(cache2.get(&"key1".to_string()), Some(100));
    cache2.insert("key2".to_string(), 200);
    assert_eq!(cache1.size(), 1);
    assert_eq!(cache2.size(), 2);
}

#[test]
fn test_cache_insert_and_get() {
    let mut cache: Cache<String, String> = Cache::new(10, 60);

    cache.insert("key1".to_string(), "value1".to_string());
    let result = cache.get(&"key1".to_string());

    assert_eq!(result, Some("value1".to_string()));
}

#[test]
fn test_cache_get_nonexistent() {
    let mut cache: Cache<String, String> = Cache::new(10, 60);

    let result = cache.get(&"nonexistent".to_string());

    assert_eq!(result, None);
}

#[test]
fn test_cache_update_existing_key() {
    let mut cache: Cache<String, i32> = Cache::new(10, 60);

    cache.insert("key1".to_string(), 100);
    cache.insert("key1".to_string(), 200);

    let result = cache.get(&"key1".to_string());
    assert_eq!(result, Some(200), "Should return updated value");
}

#[test]
fn test_cache_remove_key() {
    let mut cache: Cache<String, String> = Cache::new(10, 60);

    cache.insert("key1".to_string(), "value1".to_string());
    cache.insert("key2".to_string(), "value2".to_string());

    assert_eq!(cache.size(), 2);

    let removed = cache.remove(&"key1".to_string());
    assert_eq!(removed, Some("value1".to_string()));
    assert_eq!(cache.size(), 1);

    let result = cache.get(&"key1".to_string());
    assert_eq!(result, None);
}

#[test]
fn cache_test_test_cache_clear() {
    let mut cache: Cache<String, i32> = Cache::new(10, 60);

    cache.insert("key1".to_string(), 1);
    cache.insert("key2".to_string(), 2);
    cache.insert("key3".to_string(), 3);

    assert_eq!(cache.size(), 3);

    cache.clear();

    assert_eq!(cache.size(), 0);
    assert_eq!(cache.get(&"key1".to_string()), None);
    assert_eq!(cache.get(&"key2".to_string()), None);
    assert_eq!(cache.get(&"key3".to_string()), None);
}

#[test]
fn test_cache_size() {
    let mut cache: Cache<i32, String> = Cache::new(10, 60);

    assert_eq!(cache.size(), 0);
    assert!(cache.is_empty());

    cache.insert(1, "value1".to_string());
    assert_eq!(cache.size(), 1);
    assert!(!cache.is_empty());

    cache.insert(2, "value2".to_string());
    cache.insert(3, "value3".to_string());
    assert_eq!(cache.size(), 3);
}

#[test]
fn test_cache_is_empty() {
    let mut cache: Cache<String, String> = Cache::new(10, 60);

    assert!(cache.is_empty());

    cache.insert("key1".to_string(), "value1".to_string());
    assert!(!cache.is_empty());

    cache.clear();
    assert!(cache.is_empty());
}

#[test]
fn cache_test_test_cache_lru_eviction() {
    let mut cache: Cache<String, i32> = Cache::new(3, 60);

    cache.insert("key1".to_string(), 1);
    cache.insert("key2".to_string(), 2);
    cache.insert("key3".to_string(), 3);

    assert_eq!(cache.size(), 3);

    let _ = cache.get(&"key1".to_string());

    cache.insert("key4".to_string(), 4);

    assert!(cache.size() <= 3, "Cache size should not exceed max_size");

    let has_key1 = cache.get(&"key1".to_string()).is_some();
    let has_key2 = cache.get(&"key2".to_string()).is_some();
    let has_key3 = cache.get(&"key3".to_string()).is_some();
    let has_key4 = cache.get(&"key4".to_string()).is_some();

    assert!(has_key1, "Recently accessed key1 should still exist");
    assert!(has_key4, "Newly added key4 should exist");

    let evicted_count = [has_key2, has_key3].iter().filter(|&&x| !x).count();
    assert!(evicted_count >= 1, "At least one of key2 or key3 should be evicted");
}

#[test]
fn cache_test_test_cache_stats() {
    let mut cache: Cache<String, i32> = Cache::new(10, 60);

    cache.insert("key1".to_string(), 100);

    let _ = cache.get(&"key1".to_string());
    let _ = cache.get(&"key1".to_string());

    let _ = cache.get(&"nonexistent1".to_string());
    let _ = cache.get(&"nonexistent2".to_string());

    let stats = cache.stats();

    assert_eq!(stats.hits, 2, "Should have 2 hits");
    assert_eq!(stats.misses, 2, "Should have 2 misses");
    assert_eq!(stats.size, 1, "Should have 1 entry");
    assert_eq!(stats.evictions, 0, "Should have 0 evictions");
}

#[test]
fn test_cache_stats_default() {
    let stats = CacheStats::default();

    assert_eq!(stats.hits, 0);
    assert_eq!(stats.misses, 0);
    assert_eq!(stats.size, 0);
    assert_eq!(stats.evictions, 0);
}

#[test]
fn test_cache_with_different_types() {
    let mut cache1: Cache<String, i32> = Cache::new(10, 60);
    cache1.insert("key".to_string(), 42);
    assert_eq!(cache1.get(&"key".to_string()), Some(42));

    let mut cache2: Cache<i32, String> = Cache::new(10, 60);
    cache2.insert(1, "value".to_string());
    assert_eq!(cache2.get(&1), Some("value".to_string()));

    let mut cache3: Cache<String, f64> = Cache::new(10, 60);
    cache3.insert("key".to_string(), std::f64::consts::PI);
    assert_eq!(cache3.get(&"key".to_string()), Some(std::f64::consts::PI));
}

#[test]
fn test_cache_multiple_inserts_same_key() {
    let mut cache: Cache<String, i32> = Cache::new(10, 60);

    cache.insert("key1".to_string(), 1);
    cache.insert("key1".to_string(), 2);
    cache.insert("key1".to_string(), 3);

    let stats = cache.stats();
    assert_eq!(stats.size, 1, "Should have only 1 entry after multiple inserts");

    let result = cache.get(&"key1".to_string());
    assert_eq!(result, Some(3), "Should have the latest value");
}

#[test]
fn test_cache_large_number_of_entries() {
    let mut cache: Cache<i32, String> = Cache::new(1000, 60);

    for i in 0..1000 {
        cache.insert(i, format!("value{}", i));
    }

    assert_eq!(cache.size(), 1000);

    assert_eq!(cache.get(&0), Some("value0".to_string()));
    assert_eq!(cache.get(&500), Some("value500".to_string()));
    assert_eq!(cache.get(&999), Some("value999".to_string()));
}

#[test]
fn test_cache_eviction_stats() {
    let mut cache: Cache<String, i32> = Cache::new(3, 60);

    cache.insert("key1".to_string(), 1);
    cache.insert("key2".to_string(), 2);
    cache.insert("key3".to_string(), 3);

    cache.insert("key4".to_string(), 4);
    cache.insert("key5".to_string(), 5);

    let stats = cache.stats();
    assert!(stats.evictions > 0, "Should have evictions");
}

#[test]
fn test_cache_remove_nonexistent_key() {
    let mut cache: Cache<String, String> = Cache::new(10, 60);

    cache.insert("key1".to_string(), "value1".to_string());

    let result = cache.remove(&"nonexistent".to_string());
    assert_eq!(result, None);

    assert_eq!(cache.get(&"key1".to_string()), Some("value1".to_string()));
}

#[test]
fn test_cache_insert_after_removal() {
    let mut cache: Cache<String, i32> = Cache::new(10, 60);

    cache.insert("key1".to_string(), 100);
    cache.remove(&"key1".to_string());

    assert_eq!(cache.size(), 0);

    cache.insert("key1".to_string(), 200);
    assert_eq!(cache.get(&"key1".to_string()), Some(200));
    assert_eq!(cache.size(), 1);
}
