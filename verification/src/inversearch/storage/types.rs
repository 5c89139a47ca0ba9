//! Data types shared by the storage backends.

use crate::inversearch::index::DocId;
use crate::inversearch::storage::postings::{ContextPostings, DocStore, Postings};
use vstd::prelude::*;

verus! {

/// Description of a storage backend.
#[derive(Debug, Clone)]
pub struct StorageInfo {
    pub name: String,
    pub version: String,
    pub size: u64,
    pub document_count: usize,
    pub index_count: usize,
    pub is_connected: bool,
}

/// Performance counters of a storage backend.
#[derive(Debug, Clone, Copy)]
pub struct StorageMetrics {
    pub operation_count: usize,
    pub average_latency: usize,
    pub memory_usage: usize,
    pub error_count: usize,
}

/// All counters are zero.
pub open spec fn metrics_are_zero(m: StorageMetrics) -> bool {
    &&& m.operation_count == 0
    &&& m.average_latency == 0
    &&& m.memory_usage == 0
    &&& m.error_count == 0
}

impl Default for StorageMetrics {
    fn default() -> (m: Self)
        ensures
            metrics_are_zero(m),
    {
        StorageMetrics { operation_count: 0, average_latency: 0, memory_usage: 0, error_count: 0 }
    }
}

impl StorageMetrics {
    /// Counters that are all zero.
    pub fn new() -> (m: Self)
        ensures
            metrics_are_zero(m),
    {
        Self::default()
    }

    /// Sets every counter to zero.
    pub fn reset(&mut self)
        ensures
            metrics_are_zero(*final(self)),
    {
        self.operation_count = 0;
        self.average_latency = 0;
        self.memory_usage = 0;
        self.error_count = 0;
    }
}

/// Performance counters of the in-memory backend.
#[derive(Debug, Clone, Copy)]
pub struct MemoryStorageMetrics {
    pub operation_count: usize,
    pub average_latency: usize,
    pub memory_usage: usize,
    pub error_count: usize,
}

/// What a file-backed store writes to disk: a format version, the time of
/// writing, and the three tables.
pub struct FileStorageData {
    pub version: String,
    pub timestamp: String,
    pub data: Postings,
    pub context_data: ContextPostings,
    pub documents: DocStore,
}

/// Performance counters of the file backend.
#[derive(Debug, Clone, Copy)]
pub struct FileStorageMetrics {
    pub operation_count: usize,
    pub average_latency: usize,
    pub memory_usage: usize,
    pub file_size: u64,
    pub error_count: usize,
}

/// A stored document returned by a lookup of identifiers.
#[derive(Debug, Clone)]
pub struct EnrichedDocument {
    pub id: DocId,
    pub content: String,
}

} // verus!
