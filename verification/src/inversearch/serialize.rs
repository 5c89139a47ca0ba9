//! The fixed part of a document's export: the format version, the document
//! description, the configuration written for each field, the registry
//! counters, and the version check an import makes.

use vstd::prelude::*;
use vstd::string::*;

verus! {

/// The export format this library writes and reads.
pub open spec fn export_version() -> Seq<char> {
    "0.1.0"@
}

/// Description of an exported document.
#[derive(Debug, Clone, Copy)]
pub struct DocumentInfo {
    pub field_count: usize,
    pub fastupdate: bool,
    pub store_enabled: bool,
    pub tag_enabled: bool,
}

/// Configuration written for one exported field.
#[derive(Debug, Clone)]
pub struct FieldConfigExport {
    pub field_type: String,
    pub index: bool,
    pub optimize: bool,
    pub resolution: usize,
}

/// Counters of the exported document registry.
#[derive(Debug, Clone, Copy)]
pub struct DocumentRegistryData {
    pub doc_count: usize,
    pub next_doc_id: u64,
}

/// What an export writes apart from the fields' index data.
#[derive(Debug, Clone)]
pub struct ExportInfo {
    pub version: String,
    pub created_at: String,
    pub document_info: DocumentInfo,
    pub fields: Vec<(String, FieldConfigExport)>,
    pub registry: DocumentRegistryData,
}

/// The configuration written for every field: a string field, indexed, not
/// optimized, at resolution 9.
pub open spec fn is_field_config(c: FieldConfigExport) -> bool {
    &&& c.field_type@ == "string"@
    &&& c.index
    &&& !c.optimize
    &&& c.resolution == 9
}

/// The configuration written for every field.
pub fn field_config_export() -> (c: FieldConfigExport)
    ensures
        is_field_config(c),
{
    FieldConfigExport {
        field_type: String::from_str("string"),
        index: true,
        optimize: false,
        resolution: 9,
    }
}

/// The fixed part of the export of a document with fields `field_names`,
/// made at `created_at`: version `0.1.0`, the number of fields with every
/// flag off, each field with its configuration in order, and a registry with
/// no document whose next identifier is 1.
pub fn export_info(field_names: &Vec<String>, created_at: String) -> (d: ExportInfo)
    ensures
        d.version@ == export_version(),
        d.created_at == created_at,
        d.document_info.field_count == field_names.len(),
        !d.document_info.fastupdate,
        !d.document_info.store_enabled,
        !d.document_info.tag_enabled,
        d.fields.len() == field_names.len(),
        forall|i: int|
            0 <= i < field_names.len() ==> (#[trigger] d.fields@[i]).0@ == field_names@[i]@
                && is_field_config(d.fields@[i].1),
        d.registry.doc_count == 0,
        d.registry.next_doc_id == 1,
{
    let mut fields: Vec<(String, FieldConfigExport)> = Vec::new();
    let mut i: usize = 0;
    while i < field_names.len()
        invariant
            i <= field_names.len(),
            fields.len() == i,
            forall|k: int|
                0 <= k < i ==> (#[trigger] fields@[k]).0@ == field_names@[k]@ && is_field_config(
                    fields@[k].1,
                ),
        decreases field_names.len() - i,
    {
        let name = field_names[i].clone();
        fields.push((name, field_config_export()));
        i = i + 1;
    }
    ExportInfo {
        version: String::from_str("0.1.0"),
        created_at,
        document_info: DocumentInfo {
            field_count: field_names.len(),
            fastupdate: false,
            store_enabled: false,
            tag_enabled: false,
        },
        fields,
        registry: DocumentRegistryData { doc_count: 0, next_doc_id: 1 },
    }
}

/// An import accepts only version `0.1.0`; any other is refused with the
/// message `Unsupported version: ` and the version.
pub fn check_import_version(version: &str) -> (r: Result<(), String>)
    ensures
        r is Ok <==> version@ == export_version(),
        r matches Err(m) ==> m@ == "Unsupported version: "@ + version@,
{
    if version.eq("0.1.0") {
        Ok(())
    } else {
        let mut m = String::from_str("Unsupported version: ");
        m.append(version);
        Err(m)
    }
}

} // verus!
