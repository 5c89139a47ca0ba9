use searchkit::bm25::storage::{
    RedisStorage as Bm25Redis, RedisStorageConfig as Bm25RedisConfig, TantivyStorageConfig,
};
use searchkit::inversearch::storage::cached::{CachedStorage, CachedStorageConfig};
use searchkit::inversearch::storage::factory::StorageFactory;
use searchkit::inversearch::storage::file::FileStorage;
use searchkit::inversearch::storage::postings::{ContextPostings, DocStore, Postings};
use searchkit::inversearch::storage::redis::{RedisStorageConfig, StorageMetrics as RedisMetrics};
use searchkit::inversearch::storage::tables::StoreTables;
use searchkit::inversearch::storage::types::{FileStorageData, StorageMetrics};
use searchkit::inversearch::storage::utils::apply_limit_offset;

fn terms(pairs: &[(&str, &[u64])]) -> Vec<(String, Vec<u64>)> {
    pairs.iter().map(|(t, ids)| (t.to_string(), ids.to_vec())).collect()
}

#[test]
fn limit_offset_pages() {
    let ids = vec![1, 2, 3, 4, 5];
    assert_eq!(apply_limit_offset(&ids, 2, 1), vec![2, 3]);
    assert_eq!(apply_limit_offset(&ids, 0, 3), vec![4, 5]);
    assert_eq!(apply_limit_offset(&ids, 10, 4), vec![5]);
    assert_eq!(apply_limit_offset(&ids, 3, 9), Vec::<u64>::new());
    assert_eq!(apply_limit_offset(&[], 3, 0), Vec::<u64>::new());
    assert_eq!(apply_limit_offset(&ids, 0, 0), ids);
}

#[test]
fn cached_storage_commit_get_has_remove() {
    let mut storage = CachedStorage::with_path("/tmp/unused".to_string());
    storage.open();
    storage.commit(
        &terms(&[("hello", &[1]), ("world", &[1]), ("rust", &[2]), ("programming", &[2])]),
        &terms(&[("hello", &[1])]),
    );
    assert!(storage.is_dirty());
    assert_eq!(storage.get_operation_count(), 1);
    let results = storage.get("hello", None, 10, 0);
    assert_eq!(results, vec![1]);
    assert_eq!(storage.get("hello", Some("default"), 10, 0), vec![1]);
    assert_eq!(storage.get("hello", Some("other"), 10, 0), Vec::<u64>::new());
    assert_eq!(storage.get("missing", None, 10, 0), Vec::<u64>::new());
    assert!(storage.has(1));
    assert!(!storage.has(3));
    storage.remove(&[1]);
    assert!(!storage.has(1));
    assert!(storage.has(2));
    assert_eq!(storage.get("hello", None, 10, 0), Vec::<u64>::new());
    let info = storage.info(0);
    assert_eq!(info.name, "CachedStorage");
    assert_eq!(info.version, "1.0.0");
    assert_eq!(info.index_count, 4);
    assert_eq!(info.document_count, 0);
    assert!(info.is_connected);
    storage.close();
    assert!(!storage.info(7).is_connected);
    assert_eq!(storage.info(7).size, 7);
}

#[test]
fn cached_storage_later_commit_replaces_list() {
    let mut storage = CachedStorage::new();
    storage.commit(&terms(&[("t", &[1, 2]), ("t", &[3])]), &Vec::new());
    assert_eq!(storage.get("t", None, 0, 0), vec![3]);
    storage.commit(&terms(&[("t", &[4, 5, 6])]), &Vec::new());
    assert_eq!(storage.get("t", None, 2, 1), vec![5, 6]);
}

#[test]
fn cached_storage_snapshot_restore_round_trip() {
    let mut storage = CachedStorage::new();
    storage.commit(&terms(&[("persistent", &[1]), ("data", &[1])]), &terms(&[("persistent", &[1])]));
    let snapshot = storage.snapshot("2024-01-01T00:00:00+00:00".to_string());
    assert_eq!(snapshot.version, "1.0.0");
    assert_eq!(snapshot.timestamp, "2024-01-01T00:00:00+00:00");
    storage.mark_saved();
    assert!(!storage.is_dirty());

    let mut reopened = CachedStorage::new();
    reopened.restore(snapshot);
    assert!(!reopened.is_dirty());
    assert_eq!(reopened.get("persistent", None, 10, 0), vec![1]);
    assert_eq!(reopened.get("persistent", Some("default"), 10, 0), vec![1]);
    assert_eq!(reopened.get_memory_usage(), storage.get_memory_usage());
    reopened.destroy();
    assert_eq!(reopened.get("persistent", None, 10, 0), Vec::<u64>::new());
    assert!(!reopened.is_dirty());
}

#[test]
fn cached_storage_clear_marks_dirty() {
    let mut storage = CachedStorage::new();
    storage.commit(&terms(&[("a", &[1])]), &Vec::new());
    storage.mark_saved();
    storage.clear();
    assert!(storage.is_dirty());
    assert!(!storage.has(1));
    assert_eq!(storage.info(0).index_count, 0);
}

#[test]
fn cached_storage_config_defaults() {
    let config = CachedStorageConfig::default();
    assert_eq!(config.base_path, "./data");
    assert_eq!(config.auto_save_interval, 0);
    assert!(config.auto_save_on_drop);
    let storage = CachedStorage::default();
    assert_eq!(storage.config().base_path, "./data");
    assert!(!storage.is_dirty());
    assert_eq!(storage.get_memory_usage(), 0);
    assert_eq!(storage.get_operation_count(), 0);
    let custom = CachedStorage::with_config(CachedStorageConfig {
        base_path: "/x".to_string(),
        auto_save_interval: 30,
        auto_save_on_drop: false,
    });
    assert_eq!(custom.config().auto_save_interval, 30);
}

#[test]
fn memory_estimate_counts_bytes() {
    let mut storage = CachedStorage::new();
    storage.commit(&terms(&[("ab", &[1, 2])]), &Vec::new());
    let header = std::mem::size_of::<Postings>()
        + std::mem::size_of::<ContextPostings>()
        + std::mem::size_of::<DocStore>();
    assert_eq!(storage.get_memory_usage(), header + 2 + 2 * 8);
    storage.commit(&Vec::new(), &terms(&[("c", &[7])]));
    // "default" (7 bytes) + a term table + "c" (1 byte) + one id
    assert_eq!(
        storage.get_memory_usage(),
        header + 2 + 16 + 7 + std::mem::size_of::<Postings>() + 1 + 8
    );
}

#[test]
fn store_tables_enrich_keeps_order() {
    let mut tables = StoreTables::new();
    tables.store_document(2, "two".to_string());
    tables.store_document(1, "one".to_string());
    let found = tables.enrich(&[1, 3, 2]);
    assert_eq!(found.len(), 2);
    assert_eq!(found[0].id, 1);
    assert_eq!(found[0].content, "one");
    assert_eq!(found[1].id, 2);
    assert_eq!(found[1].content, "two");
    assert!(tables.has_document(2));
    tables.remove(&[2]);
    assert!(!tables.has_document(2));
    assert_eq!(tables.document_count(), 1);
}

#[test]
fn file_storage_operations_are_counted() {
    let mut storage = FileStorage::new("/tmp/unused".to_string());
    storage.open();
    storage.commit(&terms(&[("test", &[1, 2]), ("document", &[1]), ("another", &[2])]), &Vec::new());
    let results = storage.get("test", None, 10, 0);
    assert_eq!(results.len(), 2);
    assert!(results.contains(&1));
    assert!(results.contains(&2));
    assert!(!storage.has(1));
    let stats = storage.get_operation_stats(0);
    assert_eq!(stats.operation_count, 3);
    assert_eq!(stats.error_count, 0);
    assert_eq!(stats.file_size, 0);
    assert_eq!(stats.memory_usage, storage.get_memory_usage());
    storage.remove(&[1]);
    assert_eq!(storage.get("test", None, 10, 0), vec![2]);
    storage.clear();
    assert_eq!(storage.get_operation_stats(5).operation_count, 6);
    let info = storage.info(5);
    assert_eq!(info.name, "FileStorage");
    assert_eq!(info.index_count, 0);
    assert!(info.is_connected);
}

#[test]
fn file_storage_restore_reads_documents() {
    let mut data_source = StoreTables::new();
    data_source.store_document(4, "four".to_string());
    let data: FileStorageData = data_source.to_file_data("1.0.0".to_string(), "t".to_string());
    let mut storage = FileStorage::new("/tmp/unused".to_string());
    storage.restore(data);
    assert!(storage.has(4));
    assert_eq!(storage.enrich(&[4])[0].content, "four");
    storage.destroy();
    assert!(!storage.has(4));
}

#[test]
fn factory_uses_configured_or_default_path() {
    let storage = StorageFactory::create_file(Some("/srv/data".to_string()));
    assert_eq!(storage.base_path(), "/srv/data");
    let storage = StorageFactory::create_file(None);
    assert_eq!(storage.base_path(), "./data");
}

#[test]
fn storage_metrics_new_and_reset() {
    let mut m = StorageMetrics::new();
    assert_eq!(m.operation_count, 0);
    m.operation_count = 3;
    m.error_count = 1;
    m.reset();
    assert_eq!(m.operation_count, 0);
    assert_eq!(m.average_latency, 0);
    assert_eq!(m.memory_usage, 0);
    assert_eq!(m.error_count, 0);
    let mut r = RedisMetrics::new();
    r.memory_usage = 9;
    r.reset();
    assert_eq!(r.memory_usage, 0);
}

#[test]
fn storage_config_defaults() {
    let c = RedisStorageConfig::default();
    assert_eq!(c.url, "redis://127.0.0.1:6379");
    assert_eq!(c.pool_size, 10);
    assert_eq!(c.connection_timeout, std::time::Duration::from_secs(5));
    assert_eq!(c.key_prefix, "inversearch");
    let b = Bm25RedisConfig::default();
    assert_eq!(b.key_prefix, "bm25");
    assert_eq!(b.connection_timeout, std::time::Duration::from_secs(5));
    let t = TantivyStorageConfig::default();
    assert_eq!(t.index_path, "./index");
    assert_eq!(t.writer_memory_mb, 50);
}

#[test]
fn postings_tables_behave_as_maps() {
    let mut p = Postings::new();
    p.insert("a".to_string(), vec![1, 2, 1]);
    p.insert("b".to_string(), vec![2]);
    p.insert("a".to_string(), vec![3, 1]);
    assert_eq!(p.len(), 2);
    assert_eq!(p.get("a"), Some(&vec![3, 1]));
    p.remove_doc(1);
    assert_eq!(p.get("a"), Some(&vec![3]));
    assert!(p.contains_doc(2));
    assert!(!p.contains_doc(1));
    let mut c = ContextPostings::new();
    c.insert("default", "x".to_string(), vec![5]);
    c.insert("default", "y".to_string(), vec![6]);
    assert_eq!(c.len(), 1);
    assert_eq!(c.get("default").unwrap().len(), 2);
    assert!(c.contains_doc(6));
    let mut d = DocStore::new();
    d.insert(1, "x".to_string());
    d.insert(1, "y".to_string());
    assert_eq!(d.len(), 1);
    assert_eq!(d.get(1), Some(&"y".to_string()));
}

#[test]
fn test_tantivy_storage_config_defaults() {
    let config = TantivyStorageConfig::default();

    assert_eq!(config.writer_memory_mb, 50);
}

#[test]
fn test_tantivy_storage_config_clone() {
    let config = TantivyStorageConfig {
        index_path: "/test/path".to_string(),
        writer_memory_mb: 100,
    };

    let cloned = config.clone();

    assert_eq!(config.index_path, cloned.index_path);
    assert_eq!(config.writer_memory_mb, cloned.writer_memory_mb);
}

#[test]
fn test_tantivy_storage_config_debug() {
    let config = TantivyStorageConfig {
        index_path: "/test/path".to_string(),
        writer_memory_mb: 100,
    };

    let debug_str = format!("{:?}", config);

    assert!(debug_str.contains("writer_memory_mb"));
}

#[test]
fn bm25_redis_keys() {
    let s = Bm25Redis::new(Bm25RedisConfig::default());
    assert_eq!(s.make_key("stats"), "bm25:stats");
    assert_eq!(s.make_tf_key("rust"), "bm25:tf:rust");
    assert_eq!(s.make_df_key("rust"), "bm25:df:rust");
    assert_eq!(s.keys_pattern(), "bm25:*");
    assert_eq!(s.tf_keys_pattern(), "bm25:tf:*");
    assert_eq!(s.df_keys_pattern(), "bm25:df:*");
    assert_ne!(s.make_tf_key("x"), s.make_df_key("x"));
}

#[test]
fn factory_redis_config_overrides_defaults() {
    let c = StorageFactory::redis_config(Some(("redis://cache:6380".to_string(), 4)));
    assert_eq!(c.url, "redis://cache:6380");
    assert_eq!(c.pool_size, 4);
    assert_eq!(c.key_prefix, "inversearch");
    let d = StorageFactory::redis_config(None);
    assert_eq!(d.url, "redis://127.0.0.1:6379");
    assert_eq!(d.pool_size, 10);
}

#[test]
fn bm25_redis_info_sums_sizes() {
    let s = Bm25Redis::new(Bm25RedisConfig::default());
    let info = s.info(&[Some(2), None, Some(5)], 3, "1.2.3".to_string());
    assert_eq!(info.name, "RedisStorage");
    assert_eq!(info.version, "1.2.3");
    assert_eq!(info.size, 7);
    assert_eq!(info.document_count, 0);
    assert_eq!(info.term_count, 3);
    assert!(info.is_connected);
}

#[test]
fn cached_storage_dirty_flag_and_count_over_a_run() {
    let mut s = CachedStorage::with_path("/tmp/unused".to_string());
    assert!(!s.is_dirty());
    s.open();
    s.commit(&terms(&[("a", &[1])]), &Vec::new());
    assert!(s.is_dirty());
    s.mark_saved();
    assert!(!s.is_dirty());
    let _ = s.get("a", None, 10, 0);
    assert!(!s.is_dirty());
    s.remove(&[1]);
    assert!(s.is_dirty());
    s.commit(&terms(&[("b", &[2])]), &Vec::new());
    s.close();
    assert!(s.is_dirty());
    s.destroy();
    assert!(!s.is_dirty());
    assert_eq!(s.get_operation_count(), 2);
}
