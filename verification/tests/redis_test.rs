use searchkit::inversearch::storage::redis::{
    documents_from_replies, is_pong, posting_list_from_reply, RedisStorage, RedisStorageConfig,
    StorageError, COMMIT_BATCH_SIZE,
};
use searchkit::inversearch::storage::utils::{batches, page_fits};
use searchkit::text::decimal;

fn storage() -> RedisStorage {
    RedisStorage::new(RedisStorageConfig::default())
}

fn terms(pairs: &[(&str, &[u64])]) -> Vec<(String, Vec<u64>)> {
    pairs.iter().map(|(t, ids)| (t.to_string(), ids.to_vec())).collect()
}

#[test]
fn decimal_writes_digits() {
    assert_eq!(decimal(0), "0");
    assert_eq!(decimal(7), "7");
    assert_eq!(decimal(42), "42");
    assert_eq!(decimal(1000), "1000");
    assert_eq!(decimal(u64::MAX), u64::MAX.to_string());
}

#[test]
fn keys_carry_prefix_and_kind() {
    let s = storage();
    assert_eq!(s.make_key("stats"), "inversearch:stats");
    assert_eq!(s.make_index_key("rust"), "inversearch:index:rust");
    assert_eq!(s.make_context_key("default", "rust"), "inversearch:ctx:default:rust");
    assert_eq!(s.make_doc_key(42), "inversearch:doc:42");
    assert_eq!(s.lookup_key("rust", None), "inversearch:index:rust");
    assert_eq!(s.lookup_key("rust", Some("title")), "inversearch:ctx:title:rust");
    assert_eq!(s.keys_pattern(), "inversearch:*");
    assert_eq!(s.doc_keys_pattern(), "inversearch:doc:*");
    assert_eq!(s.index_keys_pattern(), "inversearch:index:*");
}

#[test]
fn keys_follow_configured_prefix() {
    let mut config = RedisStorageConfig::default();
    config.key_prefix = "app".to_string();
    let s = RedisStorage::new(config);
    assert_eq!(s.make_doc_key(7), "app:doc:7");
    let pattern = s.doc_keys_pattern();
    assert!(s.make_doc_key(123).starts_with(pattern.trim_end_matches('*')));
    assert!(s.make_index_key("x").starts_with(s.index_keys_pattern().trim_end_matches('*')));
}

#[test]
fn doc_keys_in_order() {
    let s = storage();
    assert_eq!(
        s.doc_keys(&[3, 10, 0]),
        vec!["inversearch:doc:3", "inversearch:doc:10", "inversearch:doc:0"]
    );
    assert!(s.doc_keys(&[]).is_empty());
}

#[test]
fn commit_entries_terms_then_contexts() {
    let s = storage();
    let entries = s
        .commit_entries(&terms(&[("rust", &[1, 2]), ("go", &[])]), &terms(&[("lang", &[3])]))
        .unwrap();
    assert_eq!(
        entries,
        vec![
            ("inversearch:index:rust".to_string(), "[1,2]".to_string()),
            ("inversearch:index:go".to_string(), "[]".to_string()),
            ("inversearch:ctx:default:lang".to_string(), "[3]".to_string()),
        ]
    );
    assert!(s.commit_entries(&Vec::new(), &Vec::new()).unwrap().is_empty());
}

#[test]
fn batches_split_in_order() {
    let b = batches(vec![1, 2, 3, 4, 5], 2);
    assert_eq!(b, vec![vec![1, 2], vec![3, 4], vec![5]]);
    assert_eq!(batches(vec![1, 2], 2), vec![vec![1, 2]]);
    assert_eq!(batches(Vec::<u8>::new(), 3), Vec::<Vec<u8>>::new());
    let many: Vec<u32> = (0..2500).collect();
    let b = batches(many.clone(), COMMIT_BATCH_SIZE);
    assert_eq!(b.len(), 3);
    assert_eq!(b[0].len(), 1000);
    assert_eq!(b[2].len(), 500);
    assert_eq!(b.concat(), many);
}

#[test]
fn posting_list_replies() {
    assert_eq!(posting_list_from_reply("").unwrap(), Vec::<u64>::new());
    assert_eq!(posting_list_from_reply("[4,5,6]").unwrap(), vec![4, 5, 6]);
    assert!(matches!(
        posting_list_from_reply("not json"),
        Err(StorageError::Deserialization(_))
    ));
}

#[test]
fn documents_skip_empty_replies() {
    let replies = vec!["{\"t\":1}".to_string(), String::new(), "\"x\"".to_string()];
    let docs = documents_from_replies(&[1, 2, 3], &replies).unwrap();
    assert_eq!(docs.len(), 2);
    assert_eq!((docs[0].id, docs[0].content.as_str()), (1, "{\"t\":1}"));
    assert_eq!((docs[1].id, docs[1].content.as_str()), (3, "\"x\""));
    let bad = vec![String::new(), "{oops".to_string()];
    assert!(matches!(
        documents_from_replies(&[1, 2], &bad),
        Err(StorageError::Deserialization(_))
    ));
}

#[test]
fn redis_info_sums_sizes() {
    let s = storage();
    let info = s.info(&[Some(3), None, Some(4)], 2, 5);
    assert_eq!(info.name, "RedisStorage");
    assert_eq!(info.version, "0.1.0");
    assert_eq!(info.size, 7);
    assert_eq!(info.document_count, 2);
    assert_eq!(info.index_count, 5);
    assert!(info.is_connected);
}

#[test]
fn redis_counters() {
    let mut s = storage();
    let stats = s.get_operation_stats();
    assert_eq!(
        (stats.operation_count, stats.average_latency, stats.memory_usage, stats.error_count),
        (0, 0, 0, 0)
    );
    s.update_memory_usage(&[Some(10), Some(5), None]);
    assert_eq!(s.get_memory_usage(), 15);
    s.record_error();
    let start = s.record_operation_start();
    s.record_operation_completion(start);
    let stats = s.get_operation_stats();
    assert_eq!(stats.operation_count, 1);
    assert_eq!(stats.memory_usage, 15);
    assert_eq!(stats.error_count, 1);
}

#[test]
fn pong_and_page_checks() {
    assert!(is_pong("PONG"));
    assert!(!is_pong("pong"));
    assert!(page_fits(5, 2, 1));
    assert!(page_fits(0, usize::MAX, usize::MAX));
    assert!(page_fits(5, 0, usize::MAX));
    assert!(!page_fits(5, usize::MAX, 1));
}

#[test]
fn committed_list_reads_back() {
    let s = storage();
    let entries = s
        .commit_entries(&terms(&[("rust", &[7, 0, 18446744073709551615]), ("none", &[])]), &Vec::new())
        .unwrap();
    assert_eq!(
        posting_list_from_reply(&entries[0].1).unwrap(),
        vec![7, 0, u64::MAX]
    );
    assert_eq!(posting_list_from_reply(&entries[1].1).unwrap(), Vec::<u64>::new());
}
