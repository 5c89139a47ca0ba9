use searchkit::inversearch::serialize::{check_import_version, export_info, field_config_export};

#[test]
fn export_info_describes_fields() {
    let names = vec!["title".to_string(), "content".to_string()];
    let info = export_info(&names, "2024-01-01T00:00:00+00:00".to_string());
    assert_eq!(info.version, "0.1.0");
    assert_eq!(info.created_at, "2024-01-01T00:00:00+00:00");
    assert_eq!(info.document_info.field_count, 2);
    assert!(!info.document_info.fastupdate);
    assert!(!info.document_info.store_enabled);
    assert!(!info.document_info.tag_enabled);
    assert_eq!(info.fields.len(), 2);
    assert_eq!(info.fields[0].0, "title");
    assert_eq!(info.fields[1].0, "content");
    assert_eq!(info.fields[1].1.field_type, "string");
    assert_eq!(info.registry.doc_count, 0);
    assert_eq!(info.registry.next_doc_id, 1);
}

#[test]
fn export_info_of_one_field() {
    let info = export_info(&vec!["title".to_string()], String::new());
    assert_eq!(info.document_info.field_count, 1);
}

#[test]
fn field_config_is_fixed() {
    let c = field_config_export();
    assert_eq!(c.field_type, "string");
    assert!(c.index);
    assert!(!c.optimize);
    assert_eq!(c.resolution, 9);
}

#[test]
fn import_checks_version() {
    assert!(check_import_version("0.1.0").is_ok());
    assert_eq!(
        check_import_version("0.2.0"),
        Err("Unsupported version: 0.2.0".to_string())
    );
}
