use searchkit::bm25::shared_cache::SharedCache;

#[test]
fn test_cache_clone() {
    let cache1: SharedCache<String, i32> = SharedCache::new(10, 60);

    cache1.insert("key1".to_string(), 100);

    let cache2 = cache1.clone();

    assert_eq!(cache2.get(&"key1".to_string()), Some(100));

    cache2.insert("key2".to_string(), 200);

    assert_eq!(cache1.get(&"key2".to_string()), Some(200));
}

#[test]
fn shared_cache_operations_reach_one_store() {
    let cache: SharedCache<i32, String> = SharedCache::new(2, 60);
    assert!(cache.is_empty());
    let other = cache.clone();
    other.insert(1, "one".to_string());
    other.insert(2, "two".to_string());
    cache.insert(3, "three".to_string());
    assert_eq!(other.size(), 2);
    assert_eq!(other.get(&1), None);
    assert_eq!(cache.stats().evictions, 1);
    assert_eq!(cache.remove(&2), Some("two".to_string()));
    other.clear();
    assert!(cache.is_empty());
    cache.cleanup();
    assert_eq!(cache.stats().size, 0);
}
