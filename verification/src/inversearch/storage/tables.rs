//! The three tables a storage backend keeps in memory, and the operations
//! that the backends share on them.

use crate::inversearch::index::DocId;
use crate::inversearch::storage::postings::{
    clamp, context_insert, other_than, without_doc, ContextPostings, DocStore, Postings,
};
use crate::inversearch::storage::types::{EnrichedDocument, FileStorageData};
use crate::inversearch::storage::utils::{apply_limit_offset, window, window_fits};
use vstd::prelude::*;

verus! {

/// The context under which committed context postings are filed.
pub open spec fn default_context() -> Seq<char> {
    "default"@
}

/// A list of (term, posting list) pairs as the contracts see it.
pub open spec fn entries_view(entries: Seq<(String, Vec<DocId>)>) -> Seq<(Seq<char>, Seq<DocId>)> {
    entries.map_values(|e: (String, Vec<DocId>)| (e.0@, e.1@))
}

/// The table after setting each term's list in order; a later pair wins.
pub open spec fn insert_terms(
    m: Map<Seq<char>, Seq<DocId>>,
    entries: Seq<(Seq<char>, Seq<DocId>)>,
) -> Map<Seq<char>, Seq<DocId>>
    decreases entries.len(),
{
    if entries.len() == 0 {
        m
    } else {
        insert_terms(m, entries.drop_last()).insert(entries.last().0, entries.last().1)
    }
}

/// The contexts after setting each term's list in order in context `ctx`.
pub open spec fn insert_context_terms(
    m: Map<Seq<char>, Map<Seq<char>, Seq<DocId>>>,
    ctx: Seq<char>,
    entries: Seq<(Seq<char>, Seq<DocId>)>,
) -> Map<Seq<char>, Map<Seq<char>, Seq<DocId>>>
    decreases entries.len(),
{
    if entries.len() == 0 {
        m
    } else {
        context_insert(
            insert_context_terms(m, ctx, entries.drop_last()),
            ctx,
            entries.last().0,
            entries.last().1,
        )
    }
}

/// The posting list a lookup of `key` selects: in context `ctx` when one is
/// given, otherwise in the main table; empty when there is none.
pub open spec fn selected_list(
    postings: Map<Seq<char>, Seq<DocId>>,
    contexts: Map<Seq<char>, Map<Seq<char>, Seq<DocId>>>,
    key: Seq<char>,
    ctx: Option<Seq<char>>,
) -> Seq<DocId> {
    match ctx {
        Some(c) => if contexts.contains_key(c) && contexts[c].contains_key(key) {
            contexts[c][key]
        } else {
            Seq::empty()
        },
        None => if postings.contains_key(key) {
            postings[key]
        } else {
            Seq::empty()
        },
    }
}

/// The context name of an optional `&str`.
pub open spec fn context_view(ctx: Option<&str>) -> Option<Seq<char>> {
    match ctx {
        Some(c) => Some(c@),
        None => None,
    }
}

/// The stored documents among `ids`, in the order of `ids`, each with its
/// content.
pub open spec fn enrich_view(docs: Map<DocId, Seq<char>>, ids: Seq<DocId>) -> Seq<(DocId, Seq<char>)>
    decreases ids.len(),
{
    if ids.len() == 0 {
        Seq::empty()
    } else {
        let before = enrich_view(docs, ids.drop_last());
        if docs.contains_key(ids.last()) {
            before.push((ids.last(), docs[ids.last()]))
        } else {
            before
        }
    }
}

/// A list after removing each of `ids` from it in turn.
pub open spec fn without_docs(list: Seq<DocId>, ids: Seq<DocId>) -> Seq<DocId>
    decreases ids.len(),
{
    if ids.len() == 0 {
        list
    } else {
        without_doc(without_docs(list, ids.drop_last()), ids.last())
    }
}

/// Documents after removing each of `ids`.
pub open spec fn remove_docs(docs: Map<DocId, Seq<char>>, ids: Seq<DocId>) -> Map<DocId, Seq<char>>
    decreases ids.len(),
{
    if ids.len() == 0 {
        docs
    } else {
        remove_docs(docs, ids.drop_last()).remove(ids.last())
    }
}

/// Posting lists by term after removing each of `ids` from every list.
pub open spec fn purge_postings(p: Map<Seq<char>, Seq<DocId>>, ids: Seq<DocId>) -> Map<
    Seq<char>,
    Seq<DocId>,
> {
    p.map_values(|l: Seq<DocId>| without_docs(l, ids))
}

/// Posting lists by context and term after removing each of `ids` from every
/// list.
pub open spec fn purge_contexts(
    c: Map<Seq<char>, Map<Seq<char>, Seq<DocId>>>,
    ids: Seq<DocId>,
) -> Map<Seq<char>, Map<Seq<char>, Seq<DocId>>> {
    c.map_values(|m: Map<Seq<char>, Seq<DocId>>| purge_postings(m, ids))
}

/// Some posting list, of the main table or of a context, holds `id`.
pub open spec fn postings_hold(
    postings: Map<Seq<char>, Seq<DocId>>,
    contexts: Map<Seq<char>, Map<Seq<char>, Seq<DocId>>>,
    id: DocId,
) -> bool {
    ||| exists|t: Seq<char>| #[trigger] postings.contains_key(t) && postings[t].contains(id)
    ||| exists|c: Seq<char>, t: Seq<char>|
        #![trigger contexts[c][t]]
        contexts.contains_key(c) && contexts[c].contains_key(t) && contexts[c][t].contains(id)
}

/// After committing, a term's list is the one its last pair carries; a term
/// that no pair carries keeps its list, or stays absent.
pub proof fn lemma_commit_last_pair_wins(
    m: Map<Seq<char>, Seq<DocId>>,
    entries: Seq<(Seq<char>, Seq<DocId>)>,
    term: Seq<char>,
)
    ensures
        (exists|i: int| 0 <= i < entries.len() && #[trigger] entries[i].0 == term) ==> {
            let i = choose|i: int|
                0 <= i < entries.len() && #[trigger] entries[i].0 == term && forall|j: int|
                    i < j < entries.len() ==> entries[j].0 != term;
            &&& insert_terms(m, entries).contains_key(term)
            &&& insert_terms(m, entries)[term] == entries[i].1
        },
        (forall|i: int| 0 <= i < entries.len() ==> #[trigger] entries[i].0 != term) ==> insert_terms(
            m,
            entries,
        ).contains_key(term) == m.contains_key(term) && insert_terms(m, entries)[term] == m[term],
    decreases entries.len(),
{
    if entries.len() == 0 {
    } else {
        let rest = entries.drop_last();
        lemma_commit_last_pair_wins(m, rest, term);
        if exists|i: int| 0 <= i < entries.len() && #[trigger] entries[i].0 == term {
            let n = entries.len() - 1;
            if entries[n].0 == term {
                assert(forall|j: int| n < j < entries.len() ==> entries[j].0 != term);
                let i = choose|i: int|
                    0 <= i < entries.len() && #[trigger] entries[i].0 == term && forall|j: int|
                        i < j < entries.len() ==> entries[j].0 != term;
                assert(i == n);
            } else {
                let w = choose|i: int| 0 <= i < entries.len() && #[trigger] entries[i].0 == term;
                assert(rest[w].0 == term);
                let ir = choose|i: int|
                    0 <= i < rest.len() && #[trigger] rest[i].0 == term && forall|j: int|
                        i < j < rest.len() ==> rest[j].0 != term;
                assert(exists|i: int| 0 <= i < rest.len() && #[trigger] rest[i].0 == term);
                assert(exists|i: int|
                    0 <= i < rest.len() && #[trigger] rest[i].0 == term && forall|j: int|
                        i < j < rest.len() ==> rest[j].0 != term) by {
                    lemma_last_occurrence(rest, term);
                }
                assert(entries[ir].0 == term);
                assert forall|j: int| ir < j < entries.len() implies entries[j].0 != term by {
                    if j < n {
                        assert(rest[j] == entries[j]);
                    }
                }
                let i = choose|i: int|
                    0 <= i < entries.len() && #[trigger] entries[i].0 == term && forall|j: int|
                        i < j < entries.len() ==> entries[j].0 != term;
                lemma_last_occurrence_unique(entries, term, i, ir);
                assert(rest[ir] == entries[ir]);
            }
        } else {
            assert forall|i: int| 0 <= i < rest.len() implies #[trigger] rest[i].0 != term by {
                assert(entries[i].0 != term);
            }
        }
    }
}

/// A key that occurs has a last occurrence.
proof fn lemma_last_occurrence<V>(entries: Seq<(Seq<char>, V)>, term: Seq<char>)
    requires
        exists|i: int| 0 <= i < entries.len() && #[trigger] entries[i].0 == term,
    ensures
        exists|i: int|
            0 <= i < entries.len() && #[trigger] entries[i].0 == term && forall|j: int|
                i < j < entries.len() ==> entries[j].0 != term,
    decreases entries.len(),
{
    let n = entries.len() - 1;
    if entries[n].0 == term {
        assert(forall|j: int| n < j < entries.len() ==> entries[j].0 != term);
    } else {
        let rest = entries.drop_last();
        let w = choose|i: int| 0 <= i < entries.len() && #[trigger] entries[i].0 == term;
        assert(rest[w].0 == term);
        lemma_last_occurrence(rest, term);
        let i = choose|i: int|
            0 <= i < rest.len() && #[trigger] rest[i].0 == term && forall|j: int|
                i < j < rest.len() ==> rest[j].0 != term;
        assert(entries[i].0 == term);
        assert forall|j: int| i < j < entries.len() implies entries[j].0 != term by {
            if j < n {
                assert(rest[j] == entries[j]);
            }
        }
    }
}

/// There is only one last occurrence.
proof fn lemma_last_occurrence_unique<V>(entries: Seq<(Seq<char>, V)>, term: Seq<char>, a: int, b: int)
    requires
        0 <= a < entries.len(),
        entries[a].0 == term,
        forall|j: int| a < j < entries.len() ==> entries[j].0 != term,
        0 <= b < entries.len(),
        entries[b].0 == term,
        forall|j: int| b < j < entries.len() ==> entries[j].0 != term,
    ensures
        a == b,
{
}

/// A list from which `ids` were removed holds none of them.
pub proof fn lemma_without_docs_absent(list: Seq<DocId>, ids: Seq<DocId>, id: DocId)
    requires
        ids.contains(id),
    ensures
        !without_docs(list, ids).contains(id),
    decreases ids.len(),
{
    broadcast use vstd::seq_lib::group_filter_ensures;

    let rest = ids.drop_last();
    let inner = without_docs(list, rest);
    if ids.last() == id {
        if without_docs(list, ids).contains(id) {
            let k = choose|k: int|
                0 <= k < without_docs(list, ids).len() && without_docs(list, ids)[k] == id;
            assert(other_than(id)(inner.filter(other_than(id))[k]));
        }
    } else {
        let w = choose|k: int| 0 <= k < ids.len() && ids[k] == id;
        assert(rest[w] == id);
        lemma_without_docs_absent(list, rest, id);
        if without_docs(list, ids).contains(id) {
            inner.lemma_filter_contains_rev(other_than(ids.last()), id);
        }
    }
}

/// Documents from which `ids` were removed hold none of them.
pub proof fn lemma_remove_docs_absent(docs: Map<DocId, Seq<char>>, ids: Seq<DocId>, id: DocId)
    requires
        ids.contains(id),
    ensures
        !remove_docs(docs, ids).contains_key(id),
    decreases ids.len(),
{
    let rest = ids.drop_last();
    if ids.last() != id {
        let w = choose|k: int| 0 <= k < ids.len() && ids[k] == id;
        assert(rest[w] == id);
        lemma_remove_docs_absent(docs, rest, id);
    }
}

/// After removing documents, none of them is stored or occurs in any
/// posting list, of the main table or of a context.
pub proof fn lemma_removed_documents_are_gone(
    postings: Map<Seq<char>, Seq<DocId>>,
    contexts: Map<Seq<char>, Map<Seq<char>, Seq<DocId>>>,
    docs: Map<DocId, Seq<char>>,
    ids: Seq<DocId>,
    id: DocId,
)
    requires
        ids.contains(id),
    ensures
        !postings_hold(purge_postings(postings, ids), purge_contexts(contexts, ids), id),
        !remove_docs(docs, ids).contains_key(id),
{
    lemma_remove_docs_absent(docs, ids, id);
    let p = purge_postings(postings, ids);
    let c = purge_contexts(contexts, ids);
    assert forall|t: Seq<char>| #[trigger] p.contains_key(t) implies !p[t].contains(id) by {
        lemma_without_docs_absent(postings[t], ids, id);
    }
    assert forall|k: Seq<char>, t: Seq<char>|
        c.contains_key(k) && c[k].contains_key(t) implies !(#[trigger] c[k][t]).contains(id) by {
        lemma_without_docs_absent(contexts[k][t], ids, id);
    }
}

/// Posting lists by term, posting lists by context and term, and document
/// contents by identifier.
pub struct StoreTables {
    data: Postings,
    context_data: ContextPostings,
    documents: DocStore,
}

impl StoreTables {
    /// Posting lists by term.
    pub closed spec fn postings(&self) -> Map<Seq<char>, Seq<DocId>> {
        self.data@
    }

    /// Posting lists by context and term.
    pub closed spec fn contexts(&self) -> Map<Seq<char>, Map<Seq<char>, Seq<DocId>>> {
        self.context_data@
    }

    /// Document contents by identifier.
    pub closed spec fn documents(&self) -> Map<DocId, Seq<char>> {
        self.documents@
    }

    /// The three tables are well formed.
    pub closed spec fn well_formed(&self) -> bool {
        &&& self.data.well_formed()
        &&& self.context_data.well_formed()
        &&& self.documents.well_formed()
    }

    /// The estimated memory footprint in bytes: for each table the size of
    /// its handle plus the bytes counted for its entries.
    pub closed spec fn byte_estimate(&self) -> int {
        vstd::layout::size_of::<Postings>() + self.data.content_bytes() + vstd::layout::size_of::<
            ContextPostings,
        >() + self.context_data.content_bytes() + vstd::layout::size_of::<DocStore>()
            + self.documents.content_bytes()
    }

    /// Empty tables.
    pub fn new() -> (t: Self)
        ensures
            t.well_formed(),
            t.postings() == Map::<Seq<char>, Seq<DocId>>::empty(),
            t.contexts() == Map::<Seq<char>, Map<Seq<char>, Seq<DocId>>>::empty(),
            t.documents() == Map::<DocId, Seq<char>>::empty(),
    {
        StoreTables { data: Postings::new(), context_data: ContextPostings::new(), documents: DocStore::new() }
    }

    /// Tables read back from stored data.
    pub fn from_file_data(d: FileStorageData) -> (t: Self)
        requires
            d.data.well_formed(),
            d.context_data.well_formed(),
            d.documents.well_formed(),
        ensures
            t.well_formed(),
            t.postings() == d.data@,
            t.contexts() == d.context_data@,
            t.documents() == d.documents@,
    {
        StoreTables { data: d.data, context_data: d.context_data, documents: d.documents }
    }

    /// A copy of the tables, stamped with a version and a time, for storing.
    pub fn to_file_data(&self, version: String, timestamp: String) -> (d: FileStorageData)
        requires
            self.well_formed(),
        ensures
            d.version == version,
            d.timestamp == timestamp,
            d.data.well_formed(),
            d.context_data.well_formed(),
            d.documents.well_formed(),
            d.data@ == self.postings(),
            d.context_data@ == self.contexts(),
            d.documents@ == self.documents(),
    {
        FileStorageData {
            version,
            timestamp,
            data: self.data.duplicate(),
            context_data: self.context_data.duplicate(),
            documents: self.documents.duplicate(),
        }
    }

    /// Posting lists by term.
    pub fn data(&self) -> (p: &Postings)
        ensures
            p@ == self.postings(),
            self.well_formed() ==> p.well_formed(),
    {
        &self.data
    }

    /// Posting lists by context and term.
    pub fn context_data(&self) -> (c: &ContextPostings)
        ensures
            c@ == self.contexts(),
            self.well_formed() ==> c.well_formed(),
    {
        &self.context_data
    }

    /// Document contents by identifier.
    pub fn document_table(&self) -> (d: &DocStore)
        ensures
            d@ == self.documents(),
            self.well_formed() ==> d.well_formed(),
    {
        &self.documents
    }

    /// Stores the content of document `id`.
    pub fn store_document(&mut self, id: DocId, content: String)
        requires
            old(self).well_formed(),
        ensures
            final(self).well_formed(),
            final(self).documents() == old(self).documents().insert(id, content@),
            final(self).postings() == old(self).postings(),
            final(self).contexts() == old(self).contexts(),
    {
        self.documents.insert(id, content);
    }

    /// Files each (term, list) pair of `terms` in the main table and each of
    /// `context_terms` in the default context; a term already present gets
    /// the new list.
    pub fn commit(&mut self, terms: &Vec<(String, Vec<DocId>)>, context_terms: &Vec<(String, Vec<DocId>)>)
        requires
            old(self).well_formed(),
        ensures
            final(self).well_formed(),
            final(self).postings() == insert_terms(old(self).postings(), entries_view(terms@)),
            final(self).contexts() == insert_context_terms(
                old(self).contexts(),
                default_context(),
                entries_view(context_terms@),
            ),
            final(self).documents() == old(self).documents(),
    {
        let ghost tv = entries_view(terms@);
        let mut i: usize = 0;
        while i < terms.len()
            invariant
                i <= terms@.len(),
                tv == entries_view(terms@),
                self.well_formed(),
                self.postings() == insert_terms(old(self).postings(), tv.take(i as int)),
                self.contexts() == old(self).contexts(),
                self.documents() == old(self).documents(),
            decreases terms@.len() - i,
        {
            let term = terms[i].0.clone();
            let ids = crate::inversearch::storage::postings::copy_ids(&terms[i].1);
            self.data.insert(term, ids);
            proof {
                assert(tv.take(i + 1).drop_last() =~= tv.take(i as int));
                assert(tv.take(i + 1).last() == tv[i as int]);
            }
            i = i + 1;
        }
        proof {
            assert(tv.take(terms@.len() as int) =~= tv);
        }
        let ghost cv = entries_view(context_terms@);
        let ghost mid = self.postings();
        let mut j: usize = 0;
        proof {
            reveal_strlit("default");
        }
        while j < context_terms.len()
            invariant
                j <= context_terms@.len(),
                cv == entries_view(context_terms@),
                self.well_formed(),
                self.contexts() == insert_context_terms(
                    old(self).contexts(),
                    default_context(),
                    cv.take(j as int),
                ),
                self.postings() == mid,
                self.documents() == old(self).documents(),
            decreases context_terms@.len() - j,
        {
            let term = context_terms[j].0.clone();
            let ids = crate::inversearch::storage::postings::copy_ids(&context_terms[j].1);
            self.context_data.insert("default", term, ids);
            proof {
                assert(cv.take(j + 1).drop_last() =~= cv.take(j as int));
                assert(cv.take(j + 1).last() == cv[j as int]);
            }
            j = j + 1;
        }
        proof {
            assert(cv.take(context_terms@.len() as int) =~= cv);
        }
    }

    /// The page (see [`apply_limit_offset`]) of the posting list of `key`, in
    /// context `ctx` when one is given.
    pub fn get(&self, key: &str, ctx: Option<&str>, limit: usize, offset: usize) -> (r: Vec<DocId>)
        requires
            self.well_formed(),
            window_fits(
                selected_list(self.postings(), self.contexts(), key@, context_view(ctx)).len(),
                limit,
                offset,
            ),
        ensures
            r@ == window(
                selected_list(self.postings(), self.contexts(), key@, context_view(ctx)),
                limit,
                offset,
            ),
    {
        match ctx {
            Some(ctx_key) => {
                match self.context_data.get(ctx_key) {
                    Some(ctx_map) => {
                        match ctx_map.get(key) {
                            Some(doc_ids) => apply_limit_offset(doc_ids.as_slice(), limit, offset),
                            None => {
                                assert(window(Seq::<DocId>::empty(), limit, offset) =~= Seq::<
                                    DocId,
                                >::empty());
                                Vec::new()
                            },
                        }
                    },
                    None => {
                        assert(window(Seq::<DocId>::empty(), limit, offset) =~= Seq::<DocId>::empty());
                        Vec::new()
                    },
                }
            },
            None => {
                match self.data.get(key) {
                    Some(doc_ids) => apply_limit_offset(doc_ids.as_slice(), limit, offset),
                    None => {
                        assert(window(Seq::<DocId>::empty(), limit, offset) =~= Seq::<DocId>::empty());
                        Vec::new()
                    },
                }
            },
        }
    }

    /// The stored documents among `ids`, in the order of `ids`.
    pub fn enrich(&self, ids: &[DocId]) -> (r: Vec<EnrichedDocument>)
        requires
            self.well_formed(),
        ensures
            r@.map_values(|e: EnrichedDocument| (e.id, e.content@)) == enrich_view(
                self.documents(),
                ids@,
            ),
    {
        let mut results: Vec<EnrichedDocument> = Vec::new();
        let mut i: usize = 0;
        while i < ids.len()
            invariant
                i <= ids@.len(),
                self.well_formed(),
                results@.map_values(|e: EnrichedDocument| (e.id, e.content@)) == enrich_view(
                    self.documents(),
                    ids@.take(i as int),
                ),
            decreases ids@.len() - i,
        {
            let id = ids[i];
            let ghost before = results@;
            proof {
                assert(ids@.take(i + 1).drop_last() =~= ids@.take(i as int));
                assert(ids@.take(i + 1).last() == id);
            }
            match self.documents.get(id) {
                Some(content) => {
                    let e = EnrichedDocument { id, content: content.clone() };
                    results.push(e);
                    assert(results@.map_values(|e: EnrichedDocument| (e.id, e.content@))
                        =~= before.map_values(|e: EnrichedDocument| (e.id, e.content@)).push(
                        (id, self.documents()[id]),
                    ));
                },
                None => {},
            }
            i = i + 1;
        }
        proof {
            assert(ids@.take(ids@.len() as int) =~= ids@);
        }
        results
    }

    /// Some posting list, of the main table or of a context, holds `id`.
    pub fn postings_contain(&self, id: DocId) -> (b: bool)
        requires
            self.well_formed(),
        ensures
            b == postings_hold(self.postings(), self.contexts(), id),
    {
        if self.data.contains_doc(id) {
            return true;
        }
        self.context_data.contains_doc(id)
    }

    /// A document is stored under `id`.
    pub fn has_document(&self, id: DocId) -> (b: bool)
        requires
            self.well_formed(),
        ensures
            b == self.documents().contains_key(id),
    {
        self.documents.contains(id)
    }

    /// Removes each of `ids`: its stored content and its occurrences in every
    /// posting list. Terms and contexts stay, possibly with empty lists.
    pub fn remove(&mut self, ids: &[DocId])
        requires
            old(self).well_formed(),
        ensures
            final(self).well_formed(),
            final(self).documents() == remove_docs(old(self).documents(), ids@),
            final(self).postings() == purge_postings(old(self).postings(), ids@),
            final(self).contexts() == purge_contexts(old(self).contexts(), ids@),
    {
        let mut i: usize = 0;
        while i < ids.len()
            invariant
                i <= ids@.len(),
                self.well_formed(),
                self.documents() == remove_docs(old(self).documents(), ids@.take(i as int)),
                self.postings().dom() == old(self).postings().dom(),
                forall|t: Seq<char>| #[trigger]
                    self.postings().contains_key(t) ==> self.postings()[t] == without_docs(
                        old(self).postings()[t],
                        ids@.take(i as int),
                    ),
                self.contexts().dom() == old(self).contexts().dom(),
                forall|c: Seq<char>| #[trigger]
                    self.contexts().contains_key(c) ==> self.contexts()[c].dom() == old(
                        self,
                    ).contexts()[c].dom(),
                forall|c: Seq<char>, t: Seq<char>|
                    #![trigger self.contexts()[c][t]]
                    self.contexts().contains_key(c) && self.contexts()[c].contains_key(t)
                        ==> self.contexts()[c][t] == without_docs(
                        old(self).contexts()[c][t],
                        ids@.take(i as int),
                    ),
            decreases ids@.len() - i,
        {
            let id = ids[i];
            let ghost pre = *self;
            proof {
                assert(ids@.take(i + 1).drop_last() =~= ids@.take(i as int));
                assert(ids@.take(i + 1).last() == id);
            }
            self.documents.remove(id);
            self.data.remove_doc(id);
            self.context_data.remove_doc(id);
            proof {
                assert forall|t: Seq<char>| #[trigger]
                    self.postings().contains_key(t) implies self.postings()[t] == without_docs(
                    old(self).postings()[t],
                    ids@.take(i + 1),
                ) by {
                    assert(pre.postings().contains_key(t));
                }
                assert forall|c: Seq<char>| #[trigger] self.contexts().contains_key(c) implies self.contexts()[c].dom()
                    == old(self).contexts()[c].dom() by {
                    assert(pre.contexts().contains_key(c));
                }
                assert forall|c: Seq<char>, t: Seq<char>|
                    self.contexts().contains_key(c) && self.contexts()[c].contains_key(
                        t,
                    ) implies #[trigger] self.contexts()[c][t] == without_docs(
                    old(self).contexts()[c][t],
                    ids@.take(i + 1),
                ) by {
                    assert(pre.contexts().contains_key(c));
                    assert(pre.contexts()[c].contains_key(t));
                    assert(pre.contexts()[c][t] == without_docs(
                        old(self).contexts()[c][t],
                        ids@.take(i as int),
                    ));
                }
            }
            i = i + 1;
        }
        proof {
            assert(ids@.take(ids@.len() as int) =~= ids@);
            assert(self.postings() =~= purge_postings(old(self).postings(), ids@));
            assert forall|c: Seq<char>| #[trigger] self.contexts().contains_key(c) implies self.contexts()[c]
                =~= purge_postings(old(self).contexts()[c], ids@) by {
                assert forall|t: Seq<char>| #[trigger]
                    self.contexts()[c].contains_key(t) implies self.contexts()[c][t] == without_docs(
                    old(self).contexts()[c][t],
                    ids@,
                ) by {
                    assert(self.contexts()[c][t] == without_docs(old(self).contexts()[c][t], ids@));
                }
            }
            assert(self.contexts() =~= purge_contexts(old(self).contexts(), ids@));
        }
    }

    /// Empties the three tables.
    pub fn clear(&mut self)
        ensures
            final(self).well_formed(),
            final(self).postings() == Map::<Seq<char>, Seq<DocId>>::empty(),
            final(self).contexts() == Map::<Seq<char>, Map<Seq<char>, Seq<DocId>>>::empty(),
            final(self).documents() == Map::<DocId, Seq<char>>::empty(),
    {
        self.data.clear();
        self.context_data.clear();
        self.documents.clear();
    }

    /// Number of stored documents.
    pub fn document_count(&self) -> (n: usize)
        requires
            self.well_formed(),
        ensures
            n == self.documents().len(),
    {
        self.documents.len()
    }

    /// Number of terms in the main table.
    pub fn term_count(&self) -> (n: usize)
        requires
            self.well_formed(),
        ensures
            n == self.postings().len(),
    {
        self.data.len()
    }

    /// The estimated memory footprint, saturated at `usize::MAX`.
    pub fn estimate_bytes(&self) -> (n: usize)
        requires
            self.well_formed(),
        ensures
            n == clamp(self.byte_estimate()),
    {
        let data_bytes = self.data.count_bytes();
        let ctx_bytes = self.context_data.count_bytes();
        let doc_bytes = self.documents.count_bytes();
        let a = core::mem::size_of::<Postings>();
        let b = core::mem::size_of::<ContextPostings>();
        let c = core::mem::size_of::<DocStore>();
        proof {
            let d1 = self.data.content_bytes();
            let d2 = self.context_data.content_bytes();
            let d3 = self.documents.content_bytes();
            crate::inversearch::storage::postings::lemma_saturating_sum(a as int, d1);
            crate::inversearch::storage::postings::lemma_saturating_sum(a + d1, b as int);
            crate::inversearch::storage::postings::lemma_saturating_sum(a + d1 + b, d2);
            crate::inversearch::storage::postings::lemma_saturating_sum(a + d1 + b + d2, c as int);
            crate::inversearch::storage::postings::lemma_saturating_sum(a + d1 + b + d2 + c, d3);
        }
        a.saturating_add(data_bytes).saturating_add(b).saturating_add(ctx_bytes).saturating_add(
            c,
        ).saturating_add(doc_bytes)
    }
}

} // verus!
