//! The document registry that backs an embedded index.

use std::collections::HashMap;
use vstd::prelude::*;

verus! {

broadcast use vstd::std_specs::hash::group_hash_axioms;

/// Identifier of a document.
pub type DocId = u64;

/// Failure of an index operation, with its description. The registry's own
/// operations never fail.
#[derive(Debug, Clone)]
pub struct IndexError {
    pub message: String,
}

/// Documents by identifier.
pub struct Index {
    docs: HashMap<DocId, String>,
}

impl Index {
    /// The documents held, each with its content.
    pub closed spec fn documents(&self) -> Map<DocId, Seq<char>> {
        self.docs@.map_values(|s: String| s@)
    }

    /// The documents held are finitely many.
    pub proof fn lemma_documents_finite(&self)
        ensures
            self.documents().dom().finite(),
    {
        assert(self.documents().dom() =~= self.docs@.dom());
    }

    /// An index with no document.
    pub fn new() -> (r: Self)
        ensures
            r.documents() == Map::<DocId, Seq<char>>::empty(),
    {
        let r = Index { docs: HashMap::new() };
        assert(r.documents() =~= Map::<DocId, Seq<char>>::empty());
        r
    }

    /// Stores `content` under `id`, replacing what was stored there.
    pub fn add(&mut self, id: DocId, content: &str) -> (r: Result<(), IndexError>)
        ensures
            r is Ok,
            final(self).documents() == old(self).documents().insert(id, content@),
            old(self).documents().dom().finite(),
            final(self).documents().dom().finite(),
    {
        proof {
            self.lemma_documents_finite();
        }
        self.docs.insert(id, content.to_owned());
        assert(self.documents() =~= old(self).documents().insert(id, content@));
        Ok(())
    }

    /// Drops the document stored under `id`, if any.
    pub fn remove(&mut self, id: DocId) -> (r: Result<(), IndexError>)
        ensures
            r is Ok,
            final(self).documents() == old(self).documents().remove(id),
            old(self).documents().dom().finite(),
            final(self).documents().dom().finite(),
    {
        proof {
            self.lemma_documents_finite();
        }
        self.docs.remove(&id);
        assert(self.documents() =~= old(self).documents().remove(id));
        Ok(())
    }

    /// Drops every document.
    pub fn clear(&mut self)
        ensures
            final(self).documents() == Map::<DocId, Seq<char>>::empty(),
    {
        self.docs.clear();
        assert(self.documents() =~= Map::<DocId, Seq<char>>::empty());
    }

    /// Number of documents held.
    pub fn document_count(&self) -> (n: usize)
        ensures
            n == self.documents().len(),
    {
        assert(self.documents().dom() =~= self.docs@.dom());
        self.docs.len()
    }

    /// The content stored under `id`.
    pub fn get(&self, id: DocId) -> (r: Option<&String>)
        ensures
            match r {
                Some(c) => self.documents().contains_key(id) && c@ == self.documents()[id],
                None => !self.documents().contains_key(id),
            },
    {
        self.docs.get(&id)
    }

    /// A document is stored under `id`.
    pub fn contains(&self, id: DocId) -> (b: bool)
        ensures
            b == self.documents().contains_key(id),
    {
        self.docs.contains_key(&id)
    }
}

impl Default for Index {
    fn default() -> (r: Self)
        ensures
            r.documents() == Map::<DocId, Seq<char>>::empty(),
    {
        Index::new()
    }
}

} // verus!
