//! The default storage backend: every operation works on in-memory tables,
//! which are written to a file on request and read back when opened.
//!
//! Reading and writing the file is left to the caller: [`CachedStorage::snapshot`]
//! gives what to write and [`CachedStorage::mark_saved`] records the write;
//! [`CachedStorage::restore`] takes what was read.

use crate::inversearch::index::DocId;
use crate::inversearch::storage::metrics::{one_more_operation, OperationCounters};
use crate::inversearch::storage::postings::clamp;
use crate::inversearch::storage::tables::{
    context_view, default_context, enrich_view, entries_view, insert_context_terms, insert_terms,
    postings_hold, purge_contexts, purge_postings, remove_docs, selected_list, StoreTables,
};
use crate::inversearch::storage::types::{EnrichedDocument, FileStorageData, StorageInfo};
use crate::inversearch::storage::utils::{window, window_fits};
use std::time::Instant;
use vstd::prelude::*;
use vstd::string::*;

verus! {

/// Configuration of a [`CachedStorage`].
#[derive(Debug, Clone)]
pub struct CachedStorageConfig {
    /// Directory of the data file.
    pub base_path: String,
    /// Seconds between automatic saves; zero means none.
    pub auto_save_interval: u64,
    /// Save when the storage is dropped.
    pub auto_save_on_drop: bool,
}

impl Default for CachedStorageConfig {
    fn default() -> (c: Self)
        ensures
            c.base_path@ == "./data"@,
            c.auto_save_interval == 0,
            c.auto_save_on_drop,
    {
        CachedStorageConfig {
            base_path: String::from_str("./data"),
            auto_save_interval: 0,
            auto_save_on_drop: true,
        }
    }
}

/// An operation on a cached storage, as its dirty flag and its operation
/// counter see it. `Read` stands for the operations that take the storage by
/// shared reference (`get`, `has`, `enrich`, `info` and the getters).
pub enum CachedOp {
    Commit,
    Remove,
    Clear,
    MarkSaved,
    Restore,
    Destroy,
    Open,
    Close,
    Read,
}

/// What one operation does to the dirty flag and the operation counter:
/// `commit` dirties the tables and counts one operation; `remove` and
/// `clear` dirty them; recording a save, restoring from the data file and
/// destroying leave them clean; opening and closing keep the flag; nothing
/// but a commit changes the counters; a read changes nothing.
pub open spec fn cached_step(pre: CachedStorage, post: CachedStorage, op: CachedOp) -> bool {
    match op {
        CachedOp::Commit => post.dirty() && one_more_operation(pre.counters(), post.counters()),
        CachedOp::Remove | CachedOp::Clear => post.dirty() && post.counters() == pre.counters(),
        CachedOp::MarkSaved | CachedOp::Restore | CachedOp::Destroy => !post.dirty()
            && post.counters() == pre.counters(),
        CachedOp::Open | CachedOp::Close => post.dirty() == pre.dirty() && post.counters()
            == pre.counters(),
        CachedOp::Read => post == pre,
    }
}

/// The dirty flag after `ops`, starting from `start`: the last operation
/// that sets or clears it decides.
pub open spec fn dirty_after(start: bool, ops: Seq<CachedOp>) -> bool
    decreases ops.len(),
{
    if ops.len() == 0 {
        start
    } else {
        match ops.last() {
            CachedOp::Commit | CachedOp::Remove | CachedOp::Clear => true,
            CachedOp::MarkSaved | CachedOp::Restore | CachedOp::Destroy => false,
            _ => dirty_after(start, ops.drop_last()),
        }
    }
}

/// The number of commits among `ops`.
pub open spec fn commit_count(ops: Seq<CachedOp>) -> nat
    decreases ops.len(),
{
    if ops.len() == 0 {
        0
    } else {
        commit_count(ops.drop_last()) + if ops.last() is Commit {
            1nat
        } else {
            0nat
        }
    }
}

/// Over any run of operations, where `states[i + 1]` is what operation
/// `ops[i]` left of `states[i]`: the dirty flag is set by the last commit,
/// remove or clear and cleared by the last recorded save, restore or
/// destroy, whichever came later; and the operation counter grew by the
/// number of commits, as long as it did not wrap around.
pub proof fn lemma_dirty_flag_and_operation_count(states: Seq<CachedStorage>, ops: Seq<CachedOp>)
    requires
        states.len() == ops.len() + 1,
        forall|i: int| 0 <= i < ops.len() ==> cached_step(states[i], states[i + 1], #[trigger] ops[i]),
        states[0].counters().operation_count + commit_count(ops) <= usize::MAX,
    ensures
        states.last().dirty() == dirty_after(states[0].dirty(), ops),
        states.last().counters().operation_count == states[0].counters().operation_count
            + commit_count(ops),
    decreases ops.len(),
{
    if ops.len() > 0 {
        let n = ops.len() - 1;
        let s2 = states.drop_last();
        let o2 = ops.drop_last();
        assert forall|i: int| 0 <= i < o2.len() implies cached_step(s2[i], s2[i + 1], #[trigger] o2[i]) by {
            assert(cached_step(states[i], states[i + 1], ops[i]));
        }
        lemma_dirty_flag_and_operation_count(s2, o2);
        assert(cached_step(states[n], states[n + 1], ops[n]));
        assert(s2.last() == states[n]);
    }
}

/// In-memory tables with a dirty flag that tells whether they changed since
/// they were last saved or loaded.
pub struct CachedStorage {
    config: CachedStorageConfig,
    tables: StoreTables,
    memory_usage: usize,
    counters: OperationCounters,
    is_open: bool,
    is_dirty: bool,
}

impl CachedStorage {
    pub closed spec fn configuration(&self) -> CachedStorageConfig {
        self.config
    }

    pub closed spec fn tables(&self) -> StoreTables {
        self.tables
    }

    /// The last memory estimate taken.
    pub closed spec fn memory_usage(&self) -> usize {
        self.memory_usage
    }

    pub closed spec fn counters(&self) -> OperationCounters {
        self.counters
    }

    pub closed spec fn opened(&self) -> bool {
        self.is_open
    }

    pub closed spec fn dirty(&self) -> bool {
        self.is_dirty
    }

    pub closed spec fn well_formed(&self) -> bool {
        self.tables.well_formed()
    }

    /// A storage with the default configuration.
    pub fn new() -> (s: Self)
        ensures
            s.well_formed(),
            s.configuration().base_path@ == "./data"@,
            s.configuration().auto_save_interval == 0,
            s.configuration().auto_save_on_drop,
            s.tables().postings() == Map::<Seq<char>, Seq<DocId>>::empty(),
            s.tables().contexts() == Map::<Seq<char>, Map<Seq<char>, Seq<DocId>>>::empty(),
            s.tables().documents() == Map::<DocId, Seq<char>>::empty(),
            s.memory_usage() == 0,
            s.counters().operation_count == 0,
            s.counters().total_latency == 0,
            !s.opened(),
            !s.dirty(),
    {
        Self::with_config(CachedStorageConfig::default())
    }

    /// A storage with the default configuration but the data file in
    /// `base_path`.
    pub fn with_path(base_path: String) -> (s: Self)
        ensures
            s.well_formed(),
            s.configuration().base_path == base_path,
            s.configuration().auto_save_interval == 0,
            s.configuration().auto_save_on_drop,
            s.tables().postings() == Map::<Seq<char>, Seq<DocId>>::empty(),
            s.tables().contexts() == Map::<Seq<char>, Map<Seq<char>, Seq<DocId>>>::empty(),
            s.tables().documents() == Map::<DocId, Seq<char>>::empty(),
            s.memory_usage() == 0,
            s.counters().operation_count == 0,
            s.counters().total_latency == 0,
            !s.opened(),
            !s.dirty(),
    {
        let mut config = CachedStorageConfig::default();
        config.base_path = base_path;
        Self::with_config(config)
    }

    /// A storage with the given configuration and empty tables.
    pub fn with_config(config: CachedStorageConfig) -> (s: Self)
        ensures
            s.well_formed(),
            s.configuration() == config,
            s.tables().postings() == Map::<Seq<char>, Seq<DocId>>::empty(),
            s.tables().contexts() == Map::<Seq<char>, Map<Seq<char>, Seq<DocId>>>::empty(),
            s.tables().documents() == Map::<DocId, Seq<char>>::empty(),
            s.memory_usage() == 0,
            s.counters().operation_count == 0,
            s.counters().total_latency == 0,
            !s.opened(),
            !s.dirty(),
    {
        CachedStorage {
            config,
            tables: StoreTables::new(),
            memory_usage: 0,
            counters: OperationCounters::new(),
            is_open: false,
            is_dirty: false,
        }
    }

    /// The last memory estimate taken.
    pub fn get_memory_usage(&self) -> (n: usize)
        ensures
            n == self.memory_usage(),
    {
        self.memory_usage
    }

    /// Number of operations counted.
    pub fn get_operation_count(&self) -> (n: usize)
        ensures
            n == self.counters().operation_count,
    {
        self.counters.operation_count
    }

    /// The tables changed since they were last saved or loaded.
    pub fn is_dirty(&self) -> (b: bool)
        ensures
            b == self.dirty(),
    {
        self.is_dirty
    }

    /// The configuration.
    pub fn config(&self) -> (c: &CachedStorageConfig)
        ensures
            *c == self.configuration(),
    {
        &self.config
    }

    /// The tables.
    pub fn store_tables(&self) -> (t: &StoreTables)
        ensures
            *t == self.tables(),
    {
        &self.tables
    }

    /// Takes the memory estimate of the tables.
    fn update_memory_usage(&mut self)
        requires
            old(self).well_formed(),
        ensures
            final(self).well_formed(),
            final(self).memory_usage() == clamp(old(self).tables().byte_estimate()),
            final(self).tables() == old(self).tables(),
            final(self).counters() == old(self).counters(),
            final(self).configuration() == old(self).configuration(),
            final(self).opened() == old(self).opened(),
            final(self).dirty() == old(self).dirty(),
    {
        self.memory_usage = self.tables.estimate_bytes();
    }

    /// The time an operation starts.
    fn record_operation_start(&self) -> Instant {
        self.counters.start()
    }

    /// Counts an operation that started at `start_time`.
    fn record_operation_completion(&mut self, start_time: Instant)
        ensures
            one_more_operation(old(self).counters(), final(self).counters()),
            final(self).tables() == old(self).tables(),
            final(self).configuration() == old(self).configuration(),
            final(self).memory_usage() == old(self).memory_usage(),
            final(self).opened() == old(self).opened(),
            final(self).dirty() == old(self).dirty(),
    {
        self.counters.complete(start_time);
    }

    /// The page of `results`; see [`crate::inversearch::storage::utils::apply_limit_offset`].
    fn apply_limit_offset(&self, results: &[DocId], limit: usize, offset: usize) -> (r: Vec<DocId>)
        requires
            window_fits(results@.len(), limit, offset),
        ensures
            r@ == window(results@, limit, offset),
    {
        crate::inversearch::storage::utils::apply_limit_offset(results, limit, offset)
    }

    /// What to write to the data file: the tables, with version `1.0.0` and
    /// the given time.
    pub fn snapshot(&self, timestamp: String) -> (d: FileStorageData)
        requires
            self.well_formed(),
        ensures
            d.version@ == "1.0.0"@,
            d.timestamp == timestamp,
            d.data.well_formed(),
            d.context_data.well_formed(),
            d.documents.well_formed(),
            d.data@ == self.tables().postings(),
            d.context_data@ == self.tables().contexts(),
            d.documents@ == self.tables().documents(),
    {
        self.tables.to_file_data(String::from_str("1.0.0"), timestamp)
    }

    /// Records that the tables were written: they are no longer dirty.
    pub fn mark_saved(&mut self)
        ensures
            cached_step(*old(self), *final(self), CachedOp::MarkSaved),
            final(self).well_formed() == old(self).well_formed(),
            !final(self).dirty(),
            final(self).tables() == old(self).tables(),
            final(self).memory_usage() == old(self).memory_usage(),
            final(self).counters() == old(self).counters(),
            final(self).configuration() == old(self).configuration(),
            final(self).opened() == old(self).opened(),
    {
        self.is_dirty = false;
    }

    /// Takes the tables read from the data file; they are not dirty, and the
    /// memory estimate is taken.
    pub fn restore(&mut self, data: FileStorageData)
        requires
            data.data.well_formed(),
            data.context_data.well_formed(),
            data.documents.well_formed(),
        ensures
            cached_step(*old(self), *final(self), CachedOp::Restore),
            final(self).well_formed(),
            final(self).tables().postings() == data.data@,
            final(self).tables().contexts() == data.context_data@,
            final(self).tables().documents() == data.documents@,
            !final(self).dirty(),
            final(self).memory_usage() == clamp(final(self).tables().byte_estimate()),
            final(self).counters() == old(self).counters(),
            final(self).configuration() == old(self).configuration(),
            final(self).opened() == old(self).opened(),
    {
        self.tables = StoreTables::from_file_data(data);
        self.is_dirty = false;
        self.update_memory_usage();
    }

    /// Marks the storage open; the caller then loads the data file.
    pub fn open(&mut self)
        ensures
            cached_step(*old(self), *final(self), CachedOp::Open),
            final(self).well_formed() == old(self).well_formed(),
            final(self).opened(),
            final(self).tables() == old(self).tables(),
            final(self).memory_usage() == old(self).memory_usage(),
            final(self).counters() == old(self).counters(),
            final(self).configuration() == old(self).configuration(),
            final(self).dirty() == old(self).dirty(),
    {
        self.is_open = true;
    }

    /// Marks the storage closed; the caller saves it first when it is dirty.
    pub fn close(&mut self)
        ensures
            cached_step(*old(self), *final(self), CachedOp::Close),
            final(self).well_formed() == old(self).well_formed(),
            !final(self).opened(),
            final(self).tables() == old(self).tables(),
            final(self).memory_usage() == old(self).memory_usage(),
            final(self).counters() == old(self).counters(),
            final(self).configuration() == old(self).configuration(),
            final(self).dirty() == old(self).dirty(),
    {
        self.is_open = false;
    }

    /// Empties the tables, clears the dirty flag, takes the memory estimate and
    /// marks the storage closed; the caller removes the data file.
    pub fn destroy(&mut self)
        requires
            old(self).well_formed(),
        ensures
            cached_step(*old(self), *final(self), CachedOp::Destroy),
            final(self).well_formed(),
            final(self).tables().postings() == Map::<Seq<char>, Seq<DocId>>::empty(),
            final(self).tables().contexts() == Map::<Seq<char>, Map<Seq<char>, Seq<DocId>>>::empty(),
            final(self).tables().documents() == Map::<DocId, Seq<char>>::empty(),
            !final(self).dirty(),
            !final(self).opened(),
            final(self).memory_usage() == clamp(final(self).tables().byte_estimate()),
            final(self).counters() == old(self).counters(),
            final(self).configuration() == old(self).configuration(),
    {
        self.tables.clear();
        self.is_dirty = false;
        self.update_memory_usage();
        self.is_open = false;
    }

    /// Files the exported posting lists (see [`StoreTables::commit`]), marks
    /// the tables dirty, takes the memory estimate and counts the operation.
    pub fn commit(&mut self, terms: &Vec<(String, Vec<DocId>)>, context_terms: &Vec<(String, Vec<DocId>)>)
        requires
            old(self).well_formed(),
        ensures
            cached_step(*old(self), *final(self), CachedOp::Commit),
            final(self).well_formed(),
            final(self).tables().postings() == insert_terms(
                old(self).tables().postings(),
                entries_view(terms@),
            ),
            final(self).tables().contexts() == insert_context_terms(
                old(self).tables().contexts(),
                default_context(),
                entries_view(context_terms@),
            ),
            final(self).tables().documents() == old(self).tables().documents(),
            final(self).dirty(),
            final(self).memory_usage() == clamp(final(self).tables().byte_estimate()),
            one_more_operation(old(self).counters(), final(self).counters()),
            final(self).configuration() == old(self).configuration(),
            final(self).opened() == old(self).opened(),
    {
        let start_time = self.record_operation_start();
        self.tables.commit(terms, context_terms);
        self.is_dirty = true;
        self.update_memory_usage();
        self.record_operation_completion(start_time);
    }

    /// The page of the posting list of `key`, in context `ctx` when one is
    /// given.
    pub fn get(&self, key: &str, ctx: Option<&str>, limit: usize, offset: usize) -> (r: Vec<DocId>)
        requires
            self.well_formed(),
            window_fits(
                selected_list(
                    self.tables().postings(),
                    self.tables().contexts(),
                    key@,
                    context_view(ctx),
                ).len(),
                limit,
                offset,
            ),
        ensures
            r@ == window(
                selected_list(
                    self.tables().postings(),
                    self.tables().contexts(),
                    key@,
                    context_view(ctx),
                ),
                limit,
                offset,
            ),
    {
        self.tables.get(key, ctx, limit, offset)
    }

    /// The stored documents among `ids`, in the order of `ids`.
    pub fn enrich(&self, ids: &[DocId]) -> (r: Vec<EnrichedDocument>)
        requires
            self.well_formed(),
        ensures
            r@.map_values(|e: EnrichedDocument| (e.id, e.content@)) == enrich_view(
                self.tables().documents(),
                ids@,
            ),
    {
        self.tables.enrich(ids)
    }

    /// Some posting list, of the main table or of a context, holds `id`.
    pub fn has(&self, id: DocId) -> (b: bool)
        requires
            self.well_formed(),
        ensures
            b == postings_hold(self.tables().postings(), self.tables().contexts(), id),
    {
        self.tables.postings_contain(id)
    }

    /// Removes each of `ids` from the documents and from every posting list,
    /// and marks the tables dirty.
    pub fn remove(&mut self, ids: &[DocId])
        requires
            old(self).well_formed(),
        ensures
            cached_step(*old(self), *final(self), CachedOp::Remove),
            final(self).well_formed(),
            final(self).tables().documents() == remove_docs(old(self).tables().documents(), ids@),
            final(self).tables().postings() == purge_postings(old(self).tables().postings(), ids@),
            final(self).tables().contexts() == purge_contexts(old(self).tables().contexts(), ids@),
            final(self).dirty(),
            final(self).memory_usage() == old(self).memory_usage(),
            final(self).counters() == old(self).counters(),
            final(self).configuration() == old(self).configuration(),
            final(self).opened() == old(self).opened(),
    {
        self.tables.remove(ids);
        self.is_dirty = true;
    }

    /// Empties the tables and marks them dirty.
    pub fn clear(&mut self)
        requires
            old(self).well_formed(),
        ensures
            cached_step(*old(self), *final(self), CachedOp::Clear),
            final(self).well_formed(),
            final(self).tables().postings() == Map::<Seq<char>, Seq<DocId>>::empty(),
            final(self).tables().contexts() == Map::<Seq<char>, Map<Seq<char>, Seq<DocId>>>::empty(),
            final(self).tables().documents() == Map::<DocId, Seq<char>>::empty(),
            final(self).dirty(),
            final(self).memory_usage() == old(self).memory_usage(),
            final(self).counters() == old(self).counters(),
            final(self).configuration() == old(self).configuration(),
            final(self).opened() == old(self).opened(),
    {
        self.tables.clear();
        self.is_dirty = true;
    }

    /// Name `CachedStorage`, version `1.0.0`, the size of the data file as the
    /// caller found it, the numbers of documents and of terms, and whether the
    /// storage is open.
    pub fn info(&self, file_size: u64) -> (i: StorageInfo)
        requires
            self.well_formed(),
        ensures
            i.name@ == "CachedStorage"@,
            i.version@ == "1.0.0"@,
            i.size == file_size,
            i.document_count == self.tables().documents().len(),
            i.index_count == self.tables().postings().len(),
            i.is_connected == self.opened(),
    {
        StorageInfo {
            name: String::from_str("CachedStorage"),
            version: String::from_str("1.0.0"),
            size: file_size,
            document_count: self.tables.document_count(),
            index_count: self.tables.term_count(),
            is_connected: self.is_open,
        }
    }
}

impl Default for CachedStorage {
    fn default() -> (s: Self)
        ensures
            s.well_formed(),
            s.configuration().base_path@ == "./data"@,
            s.tables().documents() == Map::<DocId, Seq<char>>::empty(),
            !s.opened(),
            !s.dirty(),
    {
        Self::new()
    }
}

} // verus!
