//! The file storage backend: in-memory tables that are written to a file
//! after every change.
//!
//! Reading and writing the file is left to the caller: [`FileStorage::snapshot`]
//! gives what to write and [`FileStorage::restore`] takes what was read.

use crate::inversearch::index::DocId;
use crate::inversearch::storage::metrics::{average_latency, one_more_operation, OperationCounters};
use crate::inversearch::storage::postings::clamp;
use crate::inversearch::storage::tables::{
    context_view, default_context, enrich_view, entries_view, insert_context_terms, insert_terms,
    purge_contexts, purge_postings, remove_docs, selected_list, StoreTables,
};
use crate::inversearch::storage::types::{
    EnrichedDocument, FileStorageData, FileStorageMetrics, StorageInfo,
};
use crate::inversearch::storage::utils::{window, window_fits};
use vstd::prelude::*;
use vstd::string::*;

verus! {

/// In-memory tables kept in a file under a base directory.
pub struct FileStorage {
    base_path: String,
    tables: StoreTables,
    memory_usage: usize,
    counters: OperationCounters,
    is_open: bool,
}

impl FileStorage {
    pub closed spec fn path(&self) -> Seq<char> {
        self.base_path@
    }

    pub closed spec fn tables(&self) -> StoreTables {
        self.tables
    }

    /// The last memory estimate taken.
    pub closed spec fn memory_usage(&self) -> usize {
        self.memory_usage
    }

    pub closed spec fn counters(&self) -> OperationCounters {
        self.counters
    }

    pub closed spec fn opened(&self) -> bool {
        self.is_open
    }

    pub closed spec fn well_formed(&self) -> bool {
        self.tables.well_formed()
    }

    /// A closed storage with empty tables under `base_path`.
    pub fn new(base_path: String) -> (s: Self)
        ensures
            s.well_formed(),
            s.path() == base_path@,
            s.tables().postings() == Map::<Seq<char>, Seq<DocId>>::empty(),
            s.tables().contexts() == Map::<Seq<char>, Map<Seq<char>, Seq<DocId>>>::empty(),
            s.tables().documents() == Map::<DocId, Seq<char>>::empty(),
            s.memory_usage() == 0,
            s.counters().operation_count == 0,
            s.counters().total_latency == 0,
            !s.opened(),
    {
        FileStorage {
            base_path,
            tables: StoreTables::new(),
            memory_usage: 0,
            counters: OperationCounters::new(),
            is_open: false,
        }
    }

    /// The base directory.
    pub fn base_path(&self) -> (p: &String)
        ensures
            p@ == self.path(),
    {
        &self.base_path
    }

    /// The tables.
    pub fn store_tables(&self) -> (t: &StoreTables)
        ensures
            *t == self.tables(),
    {
        &self.tables
    }

    /// The last memory estimate taken.
    pub fn get_memory_usage(&self) -> (n: usize)
        ensures
            n == self.memory_usage(),
    {
        self.memory_usage
    }

    /// The counters, with the size of the data file as the caller found it
    /// and no errors.
    pub fn get_operation_stats(&self, file_size: u64) -> (m: FileStorageMetrics)
        ensures
            m.operation_count == self.counters().operation_count,
            m.average_latency == average_latency(self.counters()),
            m.memory_usage == self.memory_usage(),
            m.file_size == file_size,
            m.error_count == 0,
    {
        FileStorageMetrics {
            operation_count: self.counters.operation_count,
            average_latency: self.counters.average_latency(),
            memory_usage: self.memory_usage,
            file_size,
            error_count: 0,
        }
    }

    /// Takes the memory estimate of the tables.
    fn update_memory_usage(&mut self)
        requires
            old(self).well_formed(),
        ensures
            final(self).well_formed(),
            final(self).memory_usage() == clamp(old(self).tables().byte_estimate()),
            final(self).tables() == old(self).tables(),
            final(self).counters() == old(self).counters(),
            final(self).path() == old(self).path(),
            final(self).opened() == old(self).opened(),
    {
        self.memory_usage = self.tables.estimate_bytes();
    }

    /// What to write to the data file: the tables, with version `1.0.0` and
    /// the given time.
    pub fn snapshot(&self, timestamp: String) -> (d: FileStorageData)
        requires
            self.well_formed(),
        ensures
            d.version@ == "1.0.0"@,
            d.timestamp == timestamp,
            d.data.well_formed(),
            d.context_data.well_formed(),
            d.documents.well_formed(),
            d.data@ == self.tables().postings(),
            d.context_data@ == self.tables().contexts(),
            d.documents@ == self.tables().documents(),
    {
        self.tables.to_file_data(String::from_str("1.0.0"), timestamp)
    }

    /// Takes the tables read from the data file and the memory estimate.
    pub fn restore(&mut self, data: FileStorageData)
        requires
            data.data.well_formed(),
            data.context_data.well_formed(),
            data.documents.well_formed(),
        ensures
            final(self).well_formed(),
            final(self).tables().postings() == data.data@,
            final(self).tables().contexts() == data.context_data@,
            final(self).tables().documents() == data.documents@,
            final(self).memory_usage() == clamp(final(self).tables().byte_estimate()),
            final(self).counters() == old(self).counters(),
            final(self).path() == old(self).path(),
            final(self).opened() == old(self).opened(),
    {
        self.tables = StoreTables::from_file_data(data);
        self.update_memory_usage();
    }

    /// Marks the storage open; the caller then loads the data file.
    pub fn open(&mut self)
        ensures
            final(self).well_formed() == old(self).well_formed(),
            final(self).opened(),
            final(self).tables() == old(self).tables(),
            final(self).memory_usage() == old(self).memory_usage(),
            final(self).counters() == old(self).counters(),
            final(self).path() == old(self).path(),
    {
        self.is_open = true;
    }

    /// Marks the storage closed; the caller saves it first.
    pub fn close(&mut self)
        ensures
            final(self).well_formed() == old(self).well_formed(),
            !final(self).opened(),
            final(self).tables() == old(self).tables(),
            final(self).memory_usage() == old(self).memory_usage(),
            final(self).counters() == old(self).counters(),
            final(self).path() == old(self).path(),
    {
        self.is_open = false;
    }

    /// Empties the tables, takes the memory estimate and marks the storage
    /// closed; the caller removes the data file.
    pub fn destroy(&mut self)
        requires
            old(self).well_formed(),
        ensures
            final(self).well_formed(),
            final(self).tables().postings() == Map::<Seq<char>, Seq<DocId>>::empty(),
            final(self).tables().contexts() == Map::<Seq<char>, Map<Seq<char>, Seq<DocId>>>::empty(),
            final(self).tables().documents() == Map::<DocId, Seq<char>>::empty(),
            !final(self).opened(),
            final(self).memory_usage() == clamp(final(self).tables().byte_estimate()),
            final(self).counters() == old(self).counters(),
            final(self).path() == old(self).path(),
    {
        self.tables.clear();
        self.update_memory_usage();
        self.is_open = false;
    }

    /// Files the exported posting lists (see [`StoreTables::commit`]), takes
    /// the memory estimate and counts the operation; the caller then writes
    /// the data file.
    pub fn commit(&mut self, terms: &Vec<(String, Vec<DocId>)>, context_terms: &Vec<(String, Vec<DocId>)>)
        requires
            old(self).well_formed(),
        ensures
            final(self).well_formed(),
            final(self).tables().postings() == insert_terms(
                old(self).tables().postings(),
                entries_view(terms@),
            ),
            final(self).tables().contexts() == insert_context_terms(
                old(self).tables().contexts(),
                default_context(),
                entries_view(context_terms@),
            ),
            final(self).tables().documents() == old(self).tables().documents(),
            final(self).memory_usage() == clamp(final(self).tables().byte_estimate()),
            one_more_operation(old(self).counters(), final(self).counters()),
            final(self).path() == old(self).path(),
            final(self).opened() == old(self).opened(),
    {
        let start_time = self.counters.start();
        self.tables.commit(terms, context_terms);
        self.update_memory_usage();
        self.counters.complete(start_time);
    }

    /// The page of the posting list of `key`, in context `ctx` when one is
    /// given; the lookup is counted.
    pub fn get(&mut self, key: &str, ctx: Option<&str>, limit: usize, offset: usize) -> (r: Vec<DocId>)
        requires
            old(self).well_formed(),
            window_fits(
                selected_list(
                    old(self).tables().postings(),
                    old(self).tables().contexts(),
                    key@,
                    context_view(ctx),
                ).len(),
                limit,
                offset,
            ),
        ensures
            r@ == window(
                selected_list(
                    old(self).tables().postings(),
                    old(self).tables().contexts(),
                    key@,
                    context_view(ctx),
                ),
                limit,
                offset,
            ),
            final(self).well_formed(),
            final(self).tables() == old(self).tables(),
            one_more_operation(old(self).counters(), final(self).counters()),
            final(self).memory_usage() == old(self).memory_usage(),
            final(self).path() == old(self).path(),
            final(self).opened() == old(self).opened(),
    {
        let start_time = self.counters.start();
        let results = self.tables.get(key, ctx, limit, offset);
        self.counters.complete(start_time);
        results
    }

    /// The stored documents among `ids`, in the order of `ids`; the lookup is
    /// counted.
    pub fn enrich(&mut self, ids: &[DocId]) -> (r: Vec<EnrichedDocument>)
        requires
            old(self).well_formed(),
        ensures
            r@.map_values(|e: EnrichedDocument| (e.id, e.content@)) == enrich_view(
                old(self).tables().documents(),
                ids@,
            ),
            final(self).well_formed(),
            final(self).tables() == old(self).tables(),
            one_more_operation(old(self).counters(), final(self).counters()),
            final(self).memory_usage() == old(self).memory_usage(),
            final(self).path() == old(self).path(),
            final(self).opened() == old(self).opened(),
    {
        let start_time = self.counters.start();
        let results = self.tables.enrich(ids);
        self.counters.complete(start_time);
        results
    }

    /// A document is stored under `id`; the lookup is counted.
    pub fn has(&mut self, id: DocId) -> (b: bool)
        requires
            old(self).well_formed(),
        ensures
            b == old(self).tables().documents().contains_key(id),
            final(self).well_formed(),
            final(self).tables() == old(self).tables(),
            one_more_operation(old(self).counters(), final(self).counters()),
            final(self).memory_usage() == old(self).memory_usage(),
            final(self).path() == old(self).path(),
            final(self).opened() == old(self).opened(),
    {
        let start_time = self.counters.start();
        let result = self.tables.has_document(id);
        self.counters.complete(start_time);
        result
    }

    /// Removes each of `ids` from the documents and from every posting list,
    /// takes the memory estimate and counts the operation; the caller then
    /// writes the data file.
    pub fn remove(&mut self, ids: &[DocId])
        requires
            old(self).well_formed(),
        ensures
            final(self).well_formed(),
            final(self).tables().documents() == remove_docs(old(self).tables().documents(), ids@),
            final(self).tables().postings() == purge_postings(old(self).tables().postings(), ids@),
            final(self).tables().contexts() == purge_contexts(old(self).tables().contexts(), ids@),
            final(self).memory_usage() == clamp(final(self).tables().byte_estimate()),
            one_more_operation(old(self).counters(), final(self).counters()),
            final(self).path() == old(self).path(),
            final(self).opened() == old(self).opened(),
    {
        let start_time = self.counters.start();
        self.tables.remove(ids);
        self.update_memory_usage();
        self.counters.complete(start_time);
    }

    /// Empties the tables, takes the memory estimate and counts the operation;
    /// the caller then writes the data file.
    pub fn clear(&mut self)
        requires
            old(self).well_formed(),
        ensures
            final(self).well_formed(),
            final(self).tables().postings() == Map::<Seq<char>, Seq<DocId>>::empty(),
            final(self).tables().contexts() == Map::<Seq<char>, Map<Seq<char>, Seq<DocId>>>::empty(),
            final(self).tables().documents() == Map::<DocId, Seq<char>>::empty(),
            final(self).memory_usage() == clamp(final(self).tables().byte_estimate()),
            one_more_operation(old(self).counters(), final(self).counters()),
            final(self).path() == old(self).path(),
            final(self).opened() == old(self).opened(),
    {
        let start_time = self.counters.start();
        self.tables.clear();
        self.update_memory_usage();
        self.counters.complete(start_time);
    }

    /// Name `FileStorage`, version `1.0.0`, the size of the data file as the
    /// caller found it, the numbers of documents and of terms, and whether the
    /// storage is open.
    pub fn info(&self, file_size: u64) -> (i: StorageInfo)
        requires
            self.well_formed(),
        ensures
            i.name@ == "FileStorage"@,
            i.version@ == "1.0.0"@,
            i.size == file_size,
            i.document_count == self.tables().documents().len(),
            i.index_count == self.tables().postings().len(),
            i.is_connected == self.opened(),
    {
        StorageInfo {
            name: String::from_str("FileStorage"),
            version: String::from_str("1.0.0"),
            size: file_size,
            document_count: self.tables.document_count(),
            index_count: self.tables.term_count(),
            is_connected: self.is_open,
        }
    }
}

} // verus!
