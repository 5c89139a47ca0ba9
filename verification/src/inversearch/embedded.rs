//! The high-level index API for library users: configuration, document
//! updates, statistics and batched updates.

use crate::inversearch::index::{DocId, Index, IndexError};
use crate::text::{decimal, decimal_text};
use vstd::prelude::*;
use vstd::string::*;

verus! {

/// Configuration of an embedded index.
#[derive(Debug, Clone)]
pub struct EmbeddedIndexConfig {
    pub index_path: String,
    pub enable_highlighting: bool,
    pub default_search_limit: usize,
}

/// The default configuration: path `./index`, highlighting on, ten results.
pub open spec fn is_default_config(c: EmbeddedIndexConfig) -> bool {
    &&& c.index_path@ == "./index"@
    &&& c.enable_highlighting
    &&& c.default_search_limit == 10
}

impl Default for EmbeddedIndexConfig {
    fn default() -> (c: Self)
        ensures
            is_default_config(c),
    {
        EmbeddedIndexConfig {
            index_path: String::from_str("./index"),
            enable_highlighting: true,
            default_search_limit: 10,
        }
    }
}

/// Statistics of an embedded index.
#[derive(Debug, Clone)]
pub struct EmbeddedIndexStats {
    pub document_count: usize,
    pub index_path: String,
}

/// One queued update of a batch.
#[derive(Debug, Clone)]
pub enum EmbeddedBatchOperation {
    Add { id: DocId, content: String },
    Remove { id: DocId },
}

/// Outcome of executing a batch.
#[derive(Debug, Clone)]
pub struct EmbeddedBatchResult {
    pub success_count: usize,
    pub failed_count: usize,
    pub errors: Vec<String>,
}

/// The content stored for a document given as named fields: one line
/// `name: value` per field, joined by line breaks.
pub open spec fn fields_content(fields: Seq<(Seq<char>, Seq<char>)>) -> Seq<char>
    decreases fields.len(),
{
    if fields.len() == 0 {
        Seq::empty()
    } else if fields.len() == 1 {
        fields[0].0 + ": "@ + fields[0].1
    } else {
        fields_content(fields.drop_last()) + "\n"@ + fields.last().0 + ": "@ + fields.last().1
    }
}

/// The entry a failed batch operation leaves in the errors: `Failed to`,
/// the action, the identifier and the error's message.
pub open spec fn failure_text(action: Seq<char>, id: DocId, message: Seq<char>) -> Seq<char> {
    "Failed to "@ + action + " "@ + decimal_text(id as nat) + ": "@ + message
}

/// The error entry for a batch operation `action` on `id` that failed with `e`.
fn failure_message(action: &str, id: DocId, e: &IndexError) -> (m: String)
    ensures
        m@ == failure_text(action@, id, e.message@),
{
    let mut m = String::from_str("Failed to ");
    m.append(action);
    m.append(" ");
    let digits = decimal(id);
    m.append(digits.as_str());
    m.append(": ");
    m.append(e.message.as_str());
    m
}

/// The documents after applying `ops` in order to `docs`.
pub open spec fn apply_operations(docs: Map<DocId, Seq<char>>, ops: Seq<EmbeddedBatchOperation>) -> Map<
    DocId,
    Seq<char>,
>
    decreases ops.len(),
{
    if ops.len() == 0 {
        docs
    } else {
        let before = apply_operations(docs, ops.drop_last());
        match ops.last() {
            EmbeddedBatchOperation::Add { id, content } => before.insert(id, content@),
            EmbeddedBatchOperation::Remove { id } => before.remove(id),
        }
    }
}

/// An index of documents with its configuration.
pub struct EmbeddedIndex {
    index: Index,
    config: EmbeddedIndexConfig,
}

impl EmbeddedIndex {
    /// The documents held.
    pub closed spec fn documents(&self) -> Map<DocId, Seq<char>> {
        self.index.documents()
    }

    /// The configuration.
    pub closed spec fn config(&self) -> EmbeddedIndexConfig {
        self.config
    }

    /// The documents held are finitely many.
    pub proof fn lemma_documents_finite(&self)
        ensures
            self.documents().dom().finite(),
    {
        self.index.lemma_documents_finite();
    }

    /// A new, empty index with the default configuration. The path is not
    /// used: the configuration's path stays `./index`.
    pub fn create(_path: &str) -> (r: Result<Self, IndexError>)
        ensures
            r is Ok,
            r matches Ok(ix) ==> ix.documents() == Map::<DocId, Seq<char>>::empty() && is_default_config(
                ix.config(),
            ),
    {
        let config = EmbeddedIndexConfig::default();
        Self::create_with_config(_path, config)
    }

    /// A new, empty index with the given configuration; the path is not used.
    pub fn create_with_config(_path: &str, config: EmbeddedIndexConfig) -> (r: Result<Self, IndexError>)
        ensures
            r is Ok,
            r matches Ok(ix) ==> ix.documents() == Map::<DocId, Seq<char>>::empty() && ix.config()
                == config,
    {
        let index = Index::new();
        Ok(EmbeddedIndex { index, config })
    }

    /// Opens an index with the default configuration. Nothing is read from the
    /// path: the index starts empty.
    pub fn open(_path: &str) -> (r: Result<Self, IndexError>)
        ensures
            r is Ok,
            r matches Ok(ix) ==> ix.documents() == Map::<DocId, Seq<char>>::empty() && is_default_config(
                ix.config(),
            ),
    {
        let config = EmbeddedIndexConfig::default();
        Self::open_with_config(_path, config)
    }

    /// Opens an index with the given configuration; the index starts empty.
    pub fn open_with_config(_path: &str, config: EmbeddedIndexConfig) -> (r: Result<Self, IndexError>)
        ensures
            r is Ok,
            r matches Ok(ix) ==> ix.documents() == Map::<DocId, Seq<char>>::empty() && ix.config()
                == config,
    {
        let index = Index::new();
        Ok(EmbeddedIndex { index, config })
    }

    /// Stores `content` under `id`, replacing any earlier content.
    pub fn add(&mut self, id: DocId, content: &str) -> (r: Result<(), IndexError>)
        ensures
            r is Ok,
            final(self).documents() == old(self).documents().insert(id, content@),
            old(self).documents().dom().finite(),
            final(self).documents().dom().finite(),
            final(self).config() == old(self).config(),
    {
        self.index.add(id, content)
    }

    /// Stores a document given as named fields: one `name: value` line per
    /// field, in order.
    pub fn add_with_fields(&mut self, id: DocId, fields: Vec<(String, String)>) -> (r: Result<
        (),
        IndexError,
    >)
        ensures
            r is Ok,
            final(self).documents() == old(self).documents().insert(
                id,
                fields_content(fields@.map_values(|f: (String, String)| (f.0@, f.1@))),
            ),
            final(self).config() == old(self).config(),
    {
        let ghost views = fields@.map_values(|f: (String, String)| (f.0@, f.1@));
        let mut content = String::new();
        let mut i: usize = 0;
        proof {
            reveal_strlit(": ");
            reveal_strlit("\n");
            assert(views.take(0) =~= Seq::<(Seq<char>, Seq<char>)>::empty());
        }
        while i < fields.len()
            invariant
                i <= fields@.len(),
                views == fields@.map_values(|f: (String, String)| (f.0@, f.1@)),
                content@ == fields_content(views.take(i as int)),
            decreases fields@.len() - i,
        {
            if i > 0 {
                content.append("\n");
            }
            content.append(fields[i].0.as_str());
            content.append(": ");
            content.append(fields[i].1.as_str());
            proof {
                assert(views.take(i + 1).drop_last() =~= views.take(i as int));
                assert(views.take(i + 1).last() == views[i as int]);
            }
            i = i + 1;
        }
        proof {
            assert(views.take(fields@.len() as int) =~= views);
        }
        self.index.add(id, content.as_str())
    }

    /// Drops the document stored under `id`, if any.
    pub fn remove(&mut self, id: DocId) -> (r: Result<(), IndexError>)
        ensures
            r is Ok,
            final(self).documents() == old(self).documents().remove(id),
            old(self).documents().dom().finite(),
            final(self).documents().dom().finite(),
            final(self).config() == old(self).config(),
    {
        self.index.remove(id)
    }

    /// Number of documents and the configured path.
    pub fn stats(&self) -> (s: EmbeddedIndexStats)
        ensures
            s.document_count == self.documents().len(),
            s.index_path@ == self.config().index_path@,
    {
        EmbeddedIndexStats {
            document_count: self.index.document_count(),
            index_path: self.config.index_path.clone(),
        }
    }

    /// Drops every document.
    pub fn clear(&mut self)
        ensures
            final(self).documents() == Map::<DocId, Seq<char>>::empty(),
            final(self).config() == old(self).config(),
    {
        self.index.clear();
    }

    /// A batch of updates to this index, initially empty.
    pub fn batch(&mut self) -> (b: EmbeddedBatch<'_>)
        ensures
            *b.index() == *old(self),
            *final(b.index()) == *final(self),
            b.operations() == Seq::<EmbeddedBatchOperation>::empty(),
    {
        EmbeddedBatch::new(self)
    }

    /// The underlying document registry.
    pub fn inner(&self) -> (r: &Index)
        ensures
            r.documents() == self.documents(),
    {
        &self.index
    }

    /// The underlying document registry, for changes.
    pub fn inner_mut(&mut self) -> (r: &mut Index)
        ensures
            r.documents() == old(self).documents(),
            final(self).documents() == final(r).documents(),
            final(self).config() == old(self).config(),
    {
        &mut self.index
    }
}

/// Updates queued for one index, applied in order by [`EmbeddedBatch::execute`].
pub struct EmbeddedBatch<'a> {
    index: &'a mut EmbeddedIndex,
    operations: Vec<EmbeddedBatchOperation>,
}

impl<'a> EmbeddedBatch<'a> {
    /// The index the batch updates.
    pub closed spec fn index(&self) -> &'a mut EmbeddedIndex {
        self.index
    }

    /// The queued updates, in order.
    pub closed spec fn operations(&self) -> Seq<EmbeddedBatchOperation> {
        self.operations@
    }

    /// An empty batch for `index`.
    pub fn new(index: &'a mut EmbeddedIndex) -> (b: Self)
        ensures
            *b.index() == *old(index),
            *final(b.index()) == *final(index),
            b.operations() == Seq::<EmbeddedBatchOperation>::empty(),
    {
        EmbeddedBatch { index, operations: Vec::new() }
    }

    /// Queues storing `content` under `id`.
    pub fn add(self, id: DocId, content: &str) -> (b: Self)
        ensures
            b.index() == self.index(),
            b.operations().len() == self.operations().len() + 1,
            b.operations().drop_last() == self.operations(),
            b.operations().last() matches EmbeddedBatchOperation::Add { id: i, content: c } && i == id
                && c@ == content@,
    {
        let mut b = self;
        b.operations.push(EmbeddedBatchOperation::Add { id, content: content.to_owned() });
        assert(b.operations@.drop_last() =~= self.operations@);
        b
    }

    /// Queues dropping the document stored under `id`.
    pub fn remove(self, id: DocId) -> (b: Self)
        ensures
            b.index() == self.index(),
            b.operations() == self.operations().push(EmbeddedBatchOperation::Remove { id }),
    {
        let mut b = self;
        b.operations.push(EmbeddedBatchOperation::Remove { id });
        b
    }

    /// Applies the queued updates in order and reports how many succeeded and
    /// which failed.
    pub fn execute(self) -> (r: EmbeddedBatchResult)
        ensures
            final(self.index()).documents() == apply_operations(
                self.index().documents(),
                self.operations(),
            ),
            final(self.index()).config() == self.index().config(),
            r.success_count == self.operations().len(),
            r.failed_count == 0,
            r.errors@.len() == 0,
    {
        let ghost ops = self.operations@;
        let ghost start = self.index.documents();
        let ghost config = self.index.config();
        let EmbeddedBatch { index, operations } = self;
        let mut success_count: usize = 0;
        let mut failed_count: usize = 0;
        let mut errors: Vec<String> = Vec::new();
        let mut i: usize = 0;
        while i < operations.len()
            invariant
                i <= operations@.len(),
                operations@ == ops,
                index.documents() == apply_operations(start, ops.take(i as int)),
                index.config() == config,
                success_count == i,
                failed_count == 0,
                errors@.len() == 0,
            decreases operations@.len() - i,
        {
            proof {
                assert(ops.take(i + 1).drop_last() =~= ops.take(i as int));
            }
            match &operations[i] {
                EmbeddedBatchOperation::Add { id, content } => {
                    match index.add(*id, content.as_str()) {
                        Ok(_) => success_count = success_count + 1,
                        Err(e) => {
                            failed_count = failed_count + 1;
                            errors.push(failure_message("add", *id, &e));
                        },
                    }
                },
                EmbeddedBatchOperation::Remove { id } => {
                    match index.remove(*id) {
                        Ok(_) => success_count = success_count + 1,
                        Err(e) => {
                            failed_count = failed_count + 1;
                            errors.push(failure_message("remove", *id, &e));
                        },
                    }
                },
            }
            i = i + 1;
        }
        proof {
            assert(ops.take(operations@.len() as int) =~= ops);
        }
        EmbeddedBatchResult { success_count, failed_count, errors }
    }
}

} // verus!
