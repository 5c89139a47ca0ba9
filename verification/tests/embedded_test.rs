use searchkit::inversearch::embedded::{
    EmbeddedBatchOperation, EmbeddedIndex, EmbeddedIndexConfig,
};

#[test]
fn test_embedded_index_config_default() {
    let config = EmbeddedIndexConfig::default();
    assert_eq!(config.index_path, "./index");
    assert_eq!(config.default_search_limit, 10);
    assert!(config.enable_highlighting);
}

#[test]
fn test_embedded_index_create() {
    let index = EmbeddedIndex::create("./test_index");
    assert!(index.is_ok());
}

#[test]
fn test_embedded_index_batch() {
    let mut index = EmbeddedIndex::create("./test_index").unwrap();

    let result = index
        .batch()
        .add(1, "Document 1")
        .add(2, "Document 2")
        .add(3, "Document 3")
        .execute();

    assert_eq!(result.success_count, 3);
    assert_eq!(result.failed_count, 0);
    assert!(result.errors.is_empty());
}

#[test]
fn test_embedded_index_stats() {
    let mut index = EmbeddedIndex::create("./test_index").unwrap();

    let stats_before = index.stats();
    assert_eq!(stats_before.document_count, 0);

    index.add(1, "Test").unwrap();

    let stats_after = index.stats();
    assert_eq!(stats_after.document_count, 1);
}

#[test]
fn test_embedded_index_clear() {
    let mut index = EmbeddedIndex::create("./test_index").unwrap();

    index.add(1, "Test 1").unwrap();
    index.add(2, "Test 2").unwrap();

    index.clear();

    let stats = index.stats();
    assert_eq!(stats.document_count, 0);
}

#[test]
fn embedded_add_same_id_replaces() {
    let mut index = EmbeddedIndex::create("./unused").unwrap();
    index.add(7, "first").unwrap();
    index.add(7, "second").unwrap();
    assert_eq!(index.stats().document_count, 1);
    assert!(index.inner().contains(7));
}

#[test]
fn embedded_remove_drops_document() {
    let mut index = EmbeddedIndex::create("./unused").unwrap();
    index.add(1, "Test document").unwrap();
    assert!(index.remove(1).is_ok());
    assert!(index.remove(42).is_ok());
    assert_eq!(index.stats().document_count, 0);
    assert!(!index.inner().contains(1));
}

#[test]
fn embedded_batch_applies_in_order() {
    let mut index = EmbeddedIndex::create("./unused").unwrap();
    index.add(5, "kept").unwrap();
    let result = index
        .batch()
        .add(1, "one")
        .remove(1)
        .add(2, "two")
        .remove(5)
        .execute();
    assert_eq!(result.success_count, 4);
    assert_eq!(result.failed_count, 0);
    assert_eq!(index.stats().document_count, 1);
    assert!(index.inner().contains(2));
    assert!(!index.inner().contains(1));
    assert!(!index.inner().contains(5));
}

#[test]
fn embedded_add_with_fields_joins_lines() {
    let mut index = EmbeddedIndex::create("./unused").unwrap();
    index
        .add_with_fields(
            3,
            vec![
                ("title".to_string(), "Hello".to_string()),
                ("body".to_string(), "World".to_string()),
            ],
        )
        .unwrap();
    assert_eq!(index.stats().document_count, 1);
    assert_eq!(index.inner().get(3), Some(&"title: Hello\nbody: World".to_string()));
}

#[test]
fn embedded_stats_report_configured_path() {
    let config = EmbeddedIndexConfig {
        index_path: "/data/idx".to_string(),
        enable_highlighting: false,
        default_search_limit: 5,
    };
    let mut index = EmbeddedIndex::create_with_config("/elsewhere", config).unwrap();
    assert_eq!(index.stats().index_path, "/data/idx");
    index.inner_mut().add(9, "via inner").unwrap();
    assert_eq!(index.stats().document_count, 1);
    let opened = EmbeddedIndex::open("./x").unwrap();
    assert_eq!(opened.stats().index_path, "./index");
    assert_eq!(opened.stats().document_count, 0);
}

#[test]
fn embedded_batch_operation_values() {
    let op = EmbeddedBatchOperation::Add { id: 1, content: "c".to_string() };
    match op {
        EmbeddedBatchOperation::Add { id, content } => {
            assert_eq!(id, 1);
            assert_eq!(content, "c");
        }
        EmbeddedBatchOperation::Remove { .. } => panic!("wrong variant"),
    }
}
