//! The in-memory tables of a storage backend: posting lists by term, posting
//! lists by context and term, and document contents by identifier.

use crate::inversearch::index::DocId;
use crate::lemmas::{
    entries_map, lemma_entries_map_len, lemma_entries_map_push, lemma_entries_map_remove,
    lemma_entries_map_update, lemma_filter_take_step, lemma_index_of_unique,
};
use vstd::prelude::*;

verus! {

/// `str` equality compares the characters.
pub assume_specification[ <str as PartialEq>::eq ](s: &str, other: &str) -> (res: bool)
    ensures
        res == (s@ == other@),
;

/// Holds of every document but `id`.
pub open spec fn other_than(id: DocId) -> spec_fn(DocId) -> bool {
    |d: DocId| d != id
}

/// `ids` without `id`, in order.
pub open spec fn without_doc(ids: Seq<DocId>, id: DocId) -> Seq<DocId> {
    ids.filter(other_than(id))
}

/// Taking a document out of a posting list drops exactly its occurrences
/// and keeps every other identifier, in order: the empty list stays empty; a
/// list extended by `x` loses `x` when `x` is the document and otherwise
/// keeps it at its end; and an identifier is in the result exactly when it is
/// in the list and is not the document.
pub proof fn lemma_without_doc_drops_only_id(l: Seq<DocId>, id: DocId, x: DocId)
    ensures
        without_doc(Seq::<DocId>::empty(), id) == Seq::<DocId>::empty(),
        without_doc(l.push(x), id) == if x == id {
            without_doc(l, id)
        } else {
            without_doc(l, id).push(x)
        },
        forall|d: DocId| #[trigger] without_doc(l, id).contains(d) <==> (l.contains(d) && d != id),
        without_doc(l, id).len() <= l.len(),
{
    broadcast use vstd::seq_lib::group_filter_ensures;

    reveal(Seq::filter);
    assert(l.push(x).drop_last() =~= l);
    assert forall|d: DocId| #[trigger] without_doc(l, id).contains(d) <==> (l.contains(d) && d
        != id) by {
        let f = l.filter(other_than(id));
        if l.contains(d) && d != id {
            let i = choose|i: int| 0 <= i < l.len() && l[i] == d;
            l.lemma_filter_contains(other_than(id), i);
        }
        if f.contains(d) {
            l.lemma_filter_contains_rev(other_than(id), d);
            let j = choose|j: int| 0 <= j < f.len() && f[j] == d;
            l.lemma_filter_pred(other_than(id), j);
        }
    }
}

/// Number of bytes of the UTF-8 encoding of `s`.
pub open spec fn utf8_len(s: Seq<char>) -> nat {
    vstd::utf8::encode_utf8(s).len()
}

/// `x` limited to the range of `usize`.
pub open spec fn clamp(x: int) -> usize {
    if x > usize::MAX {
        usize::MAX
    } else if x < 0 {
        0
    } else {
        x as usize
    }
}

/// Byte length of a string, as `str::len` reports it.
pub open spec fn str_bytes(s: Seq<char>) -> usize {
    vstd::utf8::encode_utf8(s).len() as usize
}

/// Adding clamped non-negative amounts with saturation clamps their sum.
pub proof fn lemma_saturating_sum(a: int, b: int)
    requires
        a >= 0,
        b >= 0,
    ensures
        (if clamp(a) + clamp(b) > usize::MAX {
            usize::MAX
        } else {
            (clamp(a) + clamp(b)) as usize
        }) == clamp(a + b),
{
}

/// `a * b`, or `usize::MAX` when the product does not fit.
pub fn saturating_mul(a: usize, b: usize) -> (r: usize)
    ensures
        r == clamp(a * b),
{
    assert(a * b >= 0) by (nonlinear_arith);
    match a.checked_mul(b) {
        Some(p) => p,
        None => usize::MAX,
    }
}

/// Bytes counted for the first `n` posting lists: each term's bytes plus its
/// list's length times the size of an identifier.
pub open spec fn postings_bytes(keys: Seq<Seq<char>>, lists: Seq<Seq<DocId>>, n: int) -> int
    decreases n,
{
    if n <= 0 {
        0
    } else {
        postings_bytes(keys, lists, n - 1) + str_bytes(keys[n - 1]) + lists[n - 1].len()
            * vstd::layout::size_of::<DocId>()
    }
}

/// Bytes counted for the first `n` contexts: each name's bytes, the size of a
/// term table, and the bytes counted for the table's posting lists.
pub open spec fn contexts_bytes(keys: Seq<Seq<char>>, tables: Seq<Postings>, n: int) -> int
    decreases n,
{
    if n <= 0 {
        0
    } else {
        contexts_bytes(keys, tables, n - 1) + str_bytes(keys[n - 1]) + vstd::layout::size_of::<
            Postings,
        >() + tables[n - 1].content_bytes()
    }
}

/// Bytes counted for the first `n` documents: the size of an identifier plus
/// the content's bytes.
pub open spec fn docs_bytes(texts: Seq<Seq<char>>, n: int) -> int
    decreases n,
{
    if n <= 0 {
        0
    } else {
        docs_bytes(texts, n - 1) + vstd::layout::size_of::<DocId>() + str_bytes(texts[n - 1])
    }
}

/// A copy of `ids` without `id`, in order.
pub fn ids_without(ids: &Vec<DocId>, id: DocId) -> (r: Vec<DocId>)
    ensures
        r@ == without_doc(ids@, id),
        forall|d: DocId| #[trigger] r@.contains(d) <==> (ids@.contains(d) && d != id),
{
    proof {
        lemma_without_doc_drops_only_id(ids@, id, id);
    }
    let ghost pred = other_than(id);
    let mut r: Vec<DocId> = Vec::new();
    let mut i: usize = 0;
    proof {
        assert(ids@.take(0).filter(pred) =~= Seq::<DocId>::empty());
    }
    while i < ids.len()
        invariant
            i <= ids@.len(),
            r@ == ids@.take(i as int).filter(pred),
            pred == other_than(id),
        decreases ids@.len() - i,
    {
        proof {
            lemma_filter_take_step(ids@, i as int, pred);
        }
        if ids[i] != id {
            r.push(ids[i]);
        }
        i = i + 1;
    }
    proof {
        assert(ids@.take(ids@.len() as int) =~= ids@);
    }
    r
}

/// A copy of `ids`.
pub fn copy_ids(ids: &Vec<DocId>) -> (r: Vec<DocId>)
    ensures
        r@ == ids@,
{
    let mut r: Vec<DocId> = Vec::new();
    let mut i: usize = 0;
    while i < ids.len()
        invariant
            i <= ids@.len(),
            r@ == ids@.take(i as int),
        decreases ids@.len() - i,
    {
        r.push(ids[i]);
        i = i + 1;
        assert(r@ =~= ids@.take(i as int));
    }
    assert(ids@.take(ids@.len() as int) =~= ids@);
    r
}

/// `id` occurs in `ids`.
pub fn ids_contain(ids: &Vec<DocId>, id: DocId) -> (b: bool)
    ensures
        b == ids@.contains(id),
{
    let mut i: usize = 0;
    while i < ids.len()
        invariant
            i <= ids@.len(),
            forall|j: int| 0 <= j < i ==> ids@[j] != id,
        decreases ids@.len() - i,
    {
        if ids[i] == id {
            assert(ids@[i as int] == id);
            return true;
        }
        i = i + 1;
    }
    false
}

/// Posting lists by term: for each term, the documents it occurs in.
pub struct Postings {
    terms: Vec<String>,
    lists: Vec<Vec<DocId>>,
}

impl View for Postings {
    type V = Map<Seq<char>, Seq<DocId>>;

    closed spec fn view(&self) -> Map<Seq<char>, Seq<DocId>> {
        entries_map(self.keys(), self.lists())
    }
}

impl Postings {
    /// The terms, in storage order.
    pub closed spec fn keys(&self) -> Seq<Seq<char>> {
        self.terms@.map_values(|t: String| t@)
    }

    /// The posting lists, in storage order.
    pub closed spec fn lists(&self) -> Seq<Seq<DocId>> {
        self.lists@.map_values(|l: Vec<DocId>| l@)
    }

    /// Each term has one posting list, and no term occurs twice.
    pub closed spec fn well_formed(&self) -> bool {
        &&& self.terms@.len() == self.lists@.len()
        &&& self.keys().no_duplicates()
    }

    /// No posting list.
    pub fn new() -> (p: Self)
        ensures
            p.well_formed(),
            p@ == Map::<Seq<char>, Seq<DocId>>::empty(),
            p.keys() == Seq::<Seq<char>>::empty(),
    {
        let p = Postings { terms: Vec::new(), lists: Vec::new() };
        assert(p.keys() =~= Seq::<Seq<char>>::empty());
        assert(p@ =~= Map::<Seq<char>, Seq<DocId>>::empty());
        p
    }

    /// Position of `term`.
    fn position(&self, term: &str) -> (r: Option<usize>)
        requires
            self.well_formed(),
        ensures
            match r {
                Some(i) => i < self.keys().len() && self.keys()[i as int] == term@,
                None => !self.keys().contains(term@),
            },
    {
        let mut i: usize = 0;
        while i < self.terms.len()
            invariant
                i <= self.terms@.len(),
                forall|j: int| 0 <= j < i ==> #[trigger] self.keys()[j] != term@,
            decreases self.terms@.len() - i,
        {
            assert(self.keys()[i as int] == self.terms@[i as int]@);
            if self.terms[i].as_str().eq(term) {
                return Some(i);
            }
            i = i + 1;
        }
        None
    }

    /// Number of terms.
    pub fn len(&self) -> (n: usize)
        requires
            self.well_formed(),
        ensures
            n == self@.len(),
    {
        proof {
            lemma_entries_map_len(self.keys(), self.lists());
        }
        self.terms.len()
    }

    /// The posting list of `term`.
    pub fn get(&self, term: &str) -> (r: Option<&Vec<DocId>>)
        requires
            self.well_formed(),
        ensures
            match r {
                Some(l) => self@.contains_key(term@) && l@ == self@[term@],
                None => !self@.contains_key(term@),
            },
    {
        match self.position(term) {
            Some(i) => {
                proof {
                    lemma_index_of_unique(self.keys(), i as int);
                }
                Some(&self.lists[i])
            },
            None => None,
        }
    }

    /// Sets the posting list of `term` to `ids`.
    pub fn insert(&mut self, term: String, ids: Vec<DocId>)
        requires
            old(self).well_formed(),
        ensures
            final(self).well_formed(),
            final(self)@ == old(self)@.insert(term@, ids@),
    {
        let ghost keys = self.keys();
        let ghost lists = self.lists();
        match self.position(term.as_str()) {
            Some(i) => {
                self.lists.set(i, ids);
                proof {
                    assert(self.lists() =~= lists.update(i as int, ids@));
                    lemma_entries_map_update(keys, lists, i as int, ids@);
                }
            },
            None => {
                let ghost t = term@;
                self.terms.push(term);
                self.lists.push(ids);
                proof {
                    assert(self.keys() =~= keys.push(t));
                    assert(self.lists() =~= lists.push(ids@));
                    lemma_entries_map_push(keys, lists, t, ids@);
                }
            },
        }
    }

    /// Removes `id` from every posting list; the terms stay.
    pub fn remove_doc(&mut self, id: DocId)
        requires
            old(self).well_formed(),
        ensures
            final(self).well_formed(),
            final(self)@.dom() == old(self)@.dom(),
            forall|t: Seq<char>| #[trigger]
                final(self)@.contains_key(t) ==> final(self)@[t] == without_doc(old(self)@[t], id),
    {
        let ghost keys = self.keys();
        let ghost lists = self.lists();
        let mut i: usize = 0;
        while i < self.lists.len()
            invariant
                i <= self.lists@.len(),
                self.terms@ == old(self).terms@,
                self.lists@.len() == old(self).lists@.len(),
                self.well_formed(),
                keys == self.keys(),
                lists == old(self).lists(),
                forall|j: int| 0 <= j < i ==> #[trigger] self.lists()[j] == without_doc(lists[j], id),
                forall|j: int| i <= j < self.lists@.len() ==> #[trigger] self.lists()[j] == lists[j],
            decreases self.lists@.len() - i,
        {
            let ghost before = self.lists();
            assert(before[i as int] == lists[i as int]);
            let kept = ids_without(&self.lists[i], id);
            let ghost kept_view = kept@;
            self.lists.set(i, kept);
            assert(self.lists() =~= before.update(i as int, kept_view));
            assert(self.lists()[i as int] == without_doc(lists[i as int], id));
            i = i + 1;
        }
        proof {
            assert forall|t: Seq<char>| #[trigger] self@.contains_key(t) implies self@[t] == without_doc(
                old(self)@[t],
                id,
            ) by {
                let j = keys.index_of(t);
                assert(keys.contains(t));
                assert(0 <= j < keys.len() && keys[j] == t);
            }
            assert(self@.dom() =~= old(self)@.dom());
        }
    }

    /// Some posting list holds `id`.
    pub fn contains_doc(&self, id: DocId) -> (b: bool)
        requires
            self.well_formed(),
        ensures
            b == exists|t: Seq<char>| #[trigger] self@.contains_key(t) && self@[t].contains(id),
    {
        let mut i: usize = 0;
        while i < self.lists.len()
            invariant
                i <= self.lists@.len(),
                self.well_formed(),
                forall|j: int| 0 <= j < i ==> !(#[trigger] self.lists()[j]).contains(id),
            decreases self.lists@.len() - i,
        {
            if ids_contain(&self.lists[i], id) {
                proof {
                    let t = self.keys()[i as int];
                    lemma_index_of_unique(self.keys(), i as int);
                    assert(self@.contains_key(t));
                }
                return true;
            }
            assert(!self.lists()[i as int].contains(id));
            i = i + 1;
        }
        proof {
            assert forall|t: Seq<char>| #[trigger] self@.contains_key(t) implies !self@[t].contains(id) by {
                let j = self.keys().index_of(t);
                assert(self.keys().contains(t));
            }
        }
        false
    }

    /// The term and posting list at position `i`.
    pub fn entry(&self, i: usize) -> (r: (&String, &Vec<DocId>))
        requires
            self.well_formed(),
            i < self.keys().len(),
        ensures
            r.0@ == self.keys()[i as int],
            r.1@ == self.lists()[i as int],
    {
        (&self.terms[i], &self.lists[i])
    }

    /// A copy of the table.
    pub fn duplicate(&self) -> (p: Self)
        requires
            self.well_formed(),
        ensures
            p.well_formed(),
            p@ == self@,
            p.keys() == self.keys(),
            p.lists() == self.lists(),
    {
        let mut terms: Vec<String> = Vec::new();
        let mut lists: Vec<Vec<DocId>> = Vec::new();
        let mut i: usize = 0;
        while i < self.terms.len()
            invariant
                i <= self.terms@.len(),
                self.well_formed(),
                terms@.len() == i,
                lists@.len() == i,
                terms@.map_values(|t: String| t@) == self.keys().take(i as int),
                lists@.map_values(|l: Vec<DocId>| l@) == self.lists().take(i as int),
            decreases self.terms@.len() - i,
        {
            terms.push(self.terms[i].clone());
            lists.push(copy_ids(&self.lists[i]));
            i = i + 1;
            assert(terms@.map_values(|t: String| t@) =~= self.keys().take(i as int));
            assert(lists@.map_values(|l: Vec<DocId>| l@) =~= self.lists().take(i as int));
        }
        let p = Postings { terms, lists };
        assert(p.keys() =~= self.keys());
        assert(p.lists() =~= self.lists());
        p
    }

    /// Bytes counted for all posting lists.
    pub closed spec fn content_bytes(&self) -> int {
        postings_bytes(self.keys(), self.lists(), self.keys().len() as int)
    }

    /// The bytes counted for all posting lists, saturated at `usize::MAX`.
    pub fn count_bytes(&self) -> (n: usize)
        requires
            self.well_formed(),
        ensures
            n == clamp(self.content_bytes()),
            self.content_bytes() >= 0,
    {
        let mut total: usize = 0;
        let mut i: usize = 0;
        let id_size = core::mem::size_of::<DocId>();
        while i < self.terms.len()
            invariant
                i <= self.terms@.len(),
                self.well_formed(),
                id_size == vstd::layout::size_of::<DocId>(),
                postings_bytes(self.keys(), self.lists(), i as int) >= 0,
                total == clamp(postings_bytes(self.keys(), self.lists(), i as int)),
            decreases self.terms@.len() - i,
        {
            let k = self.terms[i].as_str().len();
            assert(k == str_bytes(self.keys()[i as int]));
            let v = saturating_mul(self.lists[i].len(), id_size);
            assert(self.lists()[i as int].len() == self.lists@[i as int].len());
            let ghost prev = postings_bytes(self.keys(), self.lists(), i as int);
            let ghost vt: int = (self.lists()[i as int].len() * vstd::layout::size_of::<DocId>()) as int;
            assert(vt >= 0) by (nonlinear_arith)
                requires
                    vt == self.lists()[i as int].len() * vstd::layout::size_of::<DocId>(),
            ;
            proof {
                lemma_saturating_sum(prev, k as int);
                lemma_saturating_sum(prev + k, vt as int);
            }
            total = total.saturating_add(k).saturating_add(v);
            i = i + 1;
        }
        total
    }

    /// Drops every posting list.
    pub fn clear(&mut self)
        ensures
            final(self).well_formed(),
            final(self)@ == Map::<Seq<char>, Seq<DocId>>::empty(),
            final(self).keys() == Seq::<Seq<char>>::empty(),
    {
        self.terms.clear();
        self.lists.clear();
        assert(self.keys() =~= Seq::<Seq<char>>::empty());
        assert(self@ =~= Map::<Seq<char>, Seq<DocId>>::empty());
    }
}

/// Posting lists by context name, then by term.
pub struct ContextPostings {
    names: Vec<String>,
    maps: Vec<Postings>,
}

impl View for ContextPostings {
    type V = Map<Seq<char>, Map<Seq<char>, Seq<DocId>>>;

    closed spec fn view(&self) -> Map<Seq<char>, Map<Seq<char>, Seq<DocId>>> {
        entries_map(self.keys(), self.tables())
    }
}

/// The term table of context `ctx` after setting `term` to `ids` in it; a
/// missing context starts empty.
pub open spec fn context_insert(
    m: Map<Seq<char>, Map<Seq<char>, Seq<DocId>>>,
    ctx: Seq<char>,
    term: Seq<char>,
    ids: Seq<DocId>,
) -> Map<Seq<char>, Map<Seq<char>, Seq<DocId>>> {
    let table = if m.contains_key(ctx) {
        m[ctx]
    } else {
        Map::empty()
    };
    m.insert(ctx, table.insert(term, ids))
}

impl ContextPostings {
    /// The context names, in storage order.
    pub closed spec fn keys(&self) -> Seq<Seq<char>> {
        self.names@.map_values(|t: String| t@)
    }

    /// The term tables, in storage order.
    pub closed spec fn tables(&self) -> Seq<Map<Seq<char>, Seq<DocId>>> {
        self.maps@.map_values(|p: Postings| p@)
    }

    /// The term tables themselves, in storage order.
    pub closed spec fn table_values(&self) -> Seq<Postings> {
        self.maps@
    }

    /// Each context has one well-formed term table, and no name occurs twice.
    pub closed spec fn well_formed(&self) -> bool {
        &&& self.names@.len() == self.maps@.len()
        &&& self.keys().no_duplicates()
        &&& forall|i: int| 0 <= i < self.maps@.len() ==> (#[trigger] self.maps@[i]).well_formed()
    }

    /// No context.
    pub fn new() -> (c: Self)
        ensures
            c.well_formed(),
            c@ == Map::<Seq<char>, Map<Seq<char>, Seq<DocId>>>::empty(),
            c.keys() == Seq::<Seq<char>>::empty(),
    {
        let c = ContextPostings { names: Vec::new(), maps: Vec::new() };
        assert(c.keys() =~= Seq::<Seq<char>>::empty());
        assert(c@ =~= Map::<Seq<char>, Map<Seq<char>, Seq<DocId>>>::empty());
        c
    }

    /// Position of context `ctx`.
    fn position(&self, ctx: &str) -> (r: Option<usize>)
        requires
            self.well_formed(),
        ensures
            match r {
                Some(i) => i < self.keys().len() && self.keys()[i as int] == ctx@,
                None => !self.keys().contains(ctx@),
            },
    {
        let mut i: usize = 0;
        while i < self.names.len()
            invariant
                i <= self.names@.len(),
                forall|j: int| 0 <= j < i ==> #[trigger] self.keys()[j] != ctx@,
            decreases self.names@.len() - i,
        {
            assert(self.keys()[i as int] == self.names@[i as int]@);
            if self.names[i].as_str().eq(ctx) {
                return Some(i);
            }
            i = i + 1;
        }
        None
    }

    /// Number of contexts.
    pub fn len(&self) -> (n: usize)
        requires
            self.well_formed(),
        ensures
            n == self@.len(),
    {
        proof {
            lemma_entries_map_len(self.keys(), self.tables());
        }
        self.names.len()
    }

    /// The term table of context `ctx`.
    pub fn get(&self, ctx: &str) -> (r: Option<&Postings>)
        requires
            self.well_formed(),
        ensures
            match r {
                Some(p) => self@.contains_key(ctx@) && p@ == self@[ctx@] && p.well_formed(),
                None => !self@.contains_key(ctx@),
            },
    {
        match self.position(ctx) {
            Some(i) => {
                proof {
                    lemma_index_of_unique(self.keys(), i as int);
                }
                Some(&self.maps[i])
            },
            None => None,
        }
    }

    /// Sets the posting list of `term` to `ids` in context `ctx`, creating the
    /// context when it is missing.
    pub fn insert(&mut self, ctx: &str, term: String, ids: Vec<DocId>)
        requires
            old(self).well_formed(),
        ensures
            final(self).well_formed(),
            final(self)@ == context_insert(old(self)@, ctx@, term@, ids@),
    {
        let ghost keys = self.keys();
        let ghost tables = self.tables();
        match self.position(ctx) {
            Some(i) => {
                proof {
                    lemma_index_of_unique(keys, i as int);
                }
                let mut slot = Postings::new();
                self.maps.set_and_swap(i, &mut slot);
                assert(slot.well_formed());
                slot.insert(term, ids);
                let ghost updated = slot@;
                self.maps.set_and_swap(i, &mut slot);
                proof {
                    assert(self.tables() =~= tables.update(i as int, updated));
                    assert(self.keys() =~= keys);
                    lemma_entries_map_update(keys, tables, i as int, updated);
                }
            },
            None => {
                let mut table = Postings::new();
                table.insert(term, ids);
                let ghost tv = table@;
                self.names.push(ctx.to_owned());
                self.maps.push(table);
                proof {
                    assert(self.keys() =~= keys.push(ctx@));
                    assert(self.tables() =~= tables.push(tv));
                    lemma_entries_map_push(keys, tables, ctx@, tv);
                }
            },
        }
    }

    /// Removes `id` from every posting list of every context; contexts and
    /// terms stay.
    pub fn remove_doc(&mut self, id: DocId)
        requires
            old(self).well_formed(),
        ensures
            final(self).well_formed(),
            final(self)@.dom() == old(self)@.dom(),
            forall|c: Seq<char>| #[trigger]
                final(self)@.contains_key(c) ==> final(self)@[c].dom() == old(self)@[c].dom(),
            forall|c: Seq<char>, t: Seq<char>|
                #![trigger final(self)@[c][t]]
                final(self)@.contains_key(c) && final(self)@[c].contains_key(t) ==> final(self)@[c][t]
                    == without_doc(old(self)@[c][t], id),
    {
        let ghost keys = self.keys();
        let ghost tables = self.tables();
        let mut i: usize = 0;
        while i < self.maps.len()
            invariant
                i <= self.maps@.len(),
                self.names@ == old(self).names@,
                self.maps@.len() == old(self).maps@.len(),
                self.well_formed(),
                keys == self.keys(),
                tables == old(self).tables(),
                forall|j: int|
                    0 <= j < i ==> (#[trigger] self.tables()[j]).dom() == tables[j].dom() && forall|
                        t: Seq<char>,
                    | #[trigger]
                        self.tables()[j].contains_key(t) ==> self.tables()[j][t] == without_doc(
                            tables[j][t],
                            id,
                        ),
                forall|j: int| i <= j < self.maps@.len() ==> #[trigger] self.tables()[j] == tables[j],
            decreases self.maps@.len() - i,
        {
            let ghost before = self.tables();
            let ghost before_maps = self.maps@;
            assert(before[i as int] == tables[i as int]);
            assert(before_maps[i as int].well_formed());
            let mut slot = Postings::new();
            self.maps.set_and_swap(i, &mut slot);
            assert(slot == before_maps[i as int]);
            assert(slot@ == tables[i as int]);
            slot.remove_doc(id);
            let ghost updated = slot@;
            self.maps.set_and_swap(i, &mut slot);
            assert(self.tables() =~= before.update(i as int, updated));
            i = i + 1;
        }
        proof {
            assert forall|c: Seq<char>| #[trigger] self@.contains_key(c) implies self@[c].dom()
                == old(self)@[c].dom() by {
                assert(keys.contains(c));
            }
            assert forall|c: Seq<char>, t: Seq<char>|
                self@.contains_key(c) && self@[c].contains_key(t) implies #[trigger] self@[c][t]
                == without_doc(old(self)@[c][t], id) by {
                assert(keys.contains(c));
                let j = keys.index_of(c);
                assert(self.tables()[j].contains_key(t));
            }
            assert(self@.dom() =~= old(self)@.dom());
        }
    }

    /// Some posting list of some context holds `id`.
    pub fn contains_doc(&self, id: DocId) -> (b: bool)
        requires
            self.well_formed(),
        ensures
            b == exists|c: Seq<char>, t: Seq<char>|
                #![trigger self@[c][t]]
                self@.contains_key(c) && self@[c].contains_key(t) && self@[c][t].contains(id),
    {
        let mut i: usize = 0;
        while i < self.maps.len()
            invariant
                i <= self.maps@.len(),
                self.well_formed(),
                forall|j: int, t: Seq<char>|
                    #![trigger self.tables()[j][t]]
                    0 <= j < i && self.tables()[j].contains_key(t) ==> !self.tables()[j][t].contains(id),
            decreases self.maps@.len() - i,
        {
            assert(self.maps@[i as int].well_formed());
            if self.maps[i].contains_doc(id) {
                proof {
                    let c = self.keys()[i as int];
                    lemma_index_of_unique(self.keys(), i as int);
                    let t = choose|t: Seq<char>| #[trigger]
                        self.maps@[i as int]@.contains_key(t) && self.maps@[i as int]@[t].contains(id);
                    assert(self@[c][t].contains(id));
                }
                return true;
            }
            i = i + 1;
        }
        proof {
            assert forall|c: Seq<char>, t: Seq<char>|
                self@.contains_key(c) && self@[c].contains_key(t) implies !(#[trigger] self@[c][t]).contains(
                id,
            ) by {
                assert(self.keys().contains(c));
                let j = self.keys().index_of(c);
                assert(self.tables()[j].contains_key(t));
            }
        }
        false
    }

    /// The context name and term table at position `i`.
    pub fn entry(&self, i: usize) -> (r: (&String, &Postings))
        requires
            self.well_formed(),
            i < self.keys().len(),
        ensures
            r.0@ == self.keys()[i as int],
            r.1@ == self.tables()[i as int],
            r.1.well_formed(),
    {
        (&self.names[i], &self.maps[i])
    }

    /// A copy of the contexts.
    pub fn duplicate(&self) -> (c: Self)
        requires
            self.well_formed(),
        ensures
            c.well_formed(),
            c@ == self@,
            c.keys() == self.keys(),
            c.table_values().len() == self.table_values().len(),
            forall|i: int|
                0 <= i < c.table_values().len() ==> (#[trigger] c.table_values()[i]).keys()
                    == self.table_values()[i].keys() && c.table_values()[i].lists()
                    == self.table_values()[i].lists(),
    {
        let mut names: Vec<String> = Vec::new();
        let mut maps: Vec<Postings> = Vec::new();
        let mut i: usize = 0;
        while i < self.names.len()
            invariant
                i <= self.names@.len(),
                self.well_formed(),
                names@.len() == i,
                maps@.len() == i,
                names@.map_values(|t: String| t@) == self.keys().take(i as int),
                forall|j: int|
                    0 <= j < i ==> (#[trigger] maps@[j]).well_formed() && maps@[j].keys()
                        == self.maps@[j].keys() && maps@[j].lists() == self.maps@[j].lists()
                        && maps@[j]@ == self.maps@[j]@,
            decreases self.names@.len() - i,
        {
            names.push(self.names[i].clone());
            assert(self.maps@[i as int].well_formed());
            maps.push(self.maps[i].duplicate());
            i = i + 1;
            assert(names@.map_values(|t: String| t@) =~= self.keys().take(i as int));
        }
        let c = ContextPostings { names, maps };
        assert(c.keys() =~= self.keys());
        assert(c.tables() =~= self.tables());
        c
    }

    /// Bytes counted for all contexts.
    pub closed spec fn content_bytes(&self) -> int {
        contexts_bytes(self.keys(), self.table_values(), self.keys().len() as int)
    }

    /// The bytes counted for all contexts, saturated at `usize::MAX`.
    pub fn count_bytes(&self) -> (n: usize)
        requires
            self.well_formed(),
        ensures
            n == clamp(self.content_bytes()),
            self.content_bytes() >= 0,
    {
        let mut total: usize = 0;
        let mut i: usize = 0;
        let table_size = core::mem::size_of::<Postings>();
        while i < self.names.len()
            invariant
                i <= self.names@.len(),
                self.well_formed(),
                table_size == vstd::layout::size_of::<Postings>(),
                contexts_bytes(self.keys(), self.table_values(), i as int) >= 0,
                total == clamp(contexts_bytes(self.keys(), self.table_values(), i as int)),
            decreases self.names@.len() - i,
        {
            let k = self.names[i].as_str().len();
            assert(k == str_bytes(self.keys()[i as int]));
            assert(self.maps@[i as int].well_formed());
            let c = self.maps[i].count_bytes();
            let ghost prev = contexts_bytes(self.keys(), self.table_values(), i as int);
            let ghost cb = self.table_values()[i as int].content_bytes();
            proof {
                lemma_saturating_sum(prev, k as int);
                lemma_saturating_sum(prev + k, table_size as int);
                lemma_saturating_sum(prev + k + table_size, cb);
            }
            total = total.saturating_add(k).saturating_add(table_size).saturating_add(c);
            i = i + 1;
        }
        total
    }

    /// Drops every context.
    pub fn clear(&mut self)
        ensures
            final(self).well_formed(),
            final(self)@ == Map::<Seq<char>, Map<Seq<char>, Seq<DocId>>>::empty(),
            final(self).keys() == Seq::<Seq<char>>::empty(),
    {
        self.names.clear();
        self.maps.clear();
        assert(self.keys() =~= Seq::<Seq<char>>::empty());
        assert(self@ =~= Map::<Seq<char>, Map<Seq<char>, Seq<DocId>>>::empty());
    }
}

/// Document contents by identifier.
pub struct DocStore {
    ids: Vec<DocId>,
    contents: Vec<String>,
}

impl View for DocStore {
    type V = Map<DocId, Seq<char>>;

    closed spec fn view(&self) -> Map<DocId, Seq<char>> {
        entries_map(self.ids@, self.texts())
    }
}

impl DocStore {
    /// The identifiers, in storage order.
    pub closed spec fn keys(&self) -> Seq<DocId> {
        self.ids@
    }

    /// The contents, in storage order.
    pub closed spec fn texts(&self) -> Seq<Seq<char>> {
        self.contents@.map_values(|c: String| c@)
    }

    /// Each identifier has one content, and no identifier occurs twice.
    pub closed spec fn well_formed(&self) -> bool {
        &&& self.ids@.len() == self.contents@.len()
        &&& self.ids@.no_duplicates()
    }

    /// No document.
    pub fn new() -> (d: Self)
        ensures
            d.well_formed(),
            d@ == Map::<DocId, Seq<char>>::empty(),
            d.keys() == Seq::<DocId>::empty(),
    {
        let d = DocStore { ids: Vec::new(), contents: Vec::new() };
        assert(d@ =~= Map::<DocId, Seq<char>>::empty());
        d
    }

    /// Position of `id`.
    fn position(&self, id: DocId) -> (r: Option<usize>)
        requires
            self.well_formed(),
        ensures
            match r {
                Some(i) => i < self.keys().len() && self.keys()[i as int] == id,
                None => !self.keys().contains(id),
            },
    {
        let mut i: usize = 0;
        while i < self.ids.len()
            invariant
                i <= self.ids@.len(),
                forall|j: int| 0 <= j < i ==> self.ids@[j] != id,
            decreases self.ids@.len() - i,
        {
            if self.ids[i] == id {
                return Some(i);
            }
            i = i + 1;
        }
        None
    }

    /// Number of documents.
    pub fn len(&self) -> (n: usize)
        requires
            self.well_formed(),
        ensures
            n == self@.len(),
    {
        proof {
            lemma_entries_map_len(self.ids@, self.texts());
        }
        self.ids.len()
    }

    /// The content stored under `id`.
    pub fn get(&self, id: DocId) -> (r: Option<&String>)
        requires
            self.well_formed(),
        ensures
            match r {
                Some(c) => self@.contains_key(id) && c@ == self@[id],
                None => !self@.contains_key(id),
            },
    {
        match self.position(id) {
            Some(i) => {
                proof {
                    lemma_index_of_unique(self.ids@, i as int);
                }
                Some(&self.contents[i])
            },
            None => None,
        }
    }

    /// A document is stored under `id`.
    pub fn contains(&self, id: DocId) -> (b: bool)
        requires
            self.well_formed(),
        ensures
            b == self@.contains_key(id),
    {
        self.position(id).is_some()
    }

    /// Stores `content` under `id`, replacing what was there.
    pub fn insert(&mut self, id: DocId, content: String)
        requires
            old(self).well_formed(),
        ensures
            final(self).well_formed(),
            final(self)@ == old(self)@.insert(id, content@),
    {
        let ghost keys = self.ids@;
        let ghost texts = self.texts();
        let ghost c = content@;
        match self.position(id) {
            Some(i) => {
                self.contents.set(i, content);
                proof {
                    assert(self.texts() =~= texts.update(i as int, c));
                    lemma_entries_map_update(keys, texts, i as int, c);
                }
            },
            None => {
                self.ids.push(id);
                self.contents.push(content);
                proof {
                    assert(self.texts() =~= texts.push(c));
                    lemma_entries_map_push(keys, texts, id, c);
                }
            },
        }
    }

    /// Drops the document stored under `id`, if any.
    pub fn remove(&mut self, id: DocId)
        requires
            old(self).well_formed(),
        ensures
            final(self).well_formed(),
            final(self)@ == old(self)@.remove(id),
    {
        let ghost keys = self.ids@;
        let ghost texts = self.texts();
        match self.position(id) {
            Some(i) => {
                self.ids.remove(i);
                self.contents.remove(i);
                proof {
                    assert(self.texts() =~= texts.remove(i as int));
                    lemma_entries_map_remove(keys, texts, i as int);
                }
            },
            None => {
                assert(self@ =~= old(self)@.remove(id));
            },
        }
    }

    /// The identifier and content at position `i`.
    pub fn entry(&self, i: usize) -> (r: (DocId, &String))
        requires
            self.well_formed(),
            i < self.keys().len(),
        ensures
            r.0 == self.keys()[i as int],
            r.1@ == self.texts()[i as int],
    {
        (self.ids[i], &self.contents[i])
    }

    /// A copy of the documents.
    pub fn duplicate(&self) -> (d: Self)
        requires
            self.well_formed(),
        ensures
            d.well_formed(),
            d@ == self@,
            d.keys() == self.keys(),
            d.texts() == self.texts(),
    {
        let ids = copy_ids(&self.ids);
        let mut contents: Vec<String> = Vec::new();
        let mut i: usize = 0;
        while i < self.contents.len()
            invariant
                i <= self.contents@.len(),
                self.well_formed(),
                contents@.len() == i,
                contents@.map_values(|c: String| c@) == self.texts().take(i as int),
            decreases self.contents@.len() - i,
        {
            let ghost prev = contents@;
            let c = self.contents[i].clone();
            assert(c@ == self.texts()[i as int]);
            contents.push(c);
            assert(contents@ == prev.push(c));
            i = i + 1;
            assert(contents@.map_values(|c: String| c@) =~= self.texts().take(i as int));
        }
        let d = DocStore { ids, contents };
        assert(d.texts() =~= self.texts());
        d
    }

    /// Bytes counted for all documents.
    pub closed spec fn content_bytes(&self) -> int {
        docs_bytes(self.texts(), self.ids@.len() as int)
    }

    /// The bytes counted for all documents, saturated at `usize::MAX`.
    pub fn count_bytes(&self) -> (n: usize)
        requires
            self.well_formed(),
        ensures
            n == clamp(self.content_bytes()),
            self.content_bytes() >= 0,
    {
        let mut total: usize = 0;
        let mut i: usize = 0;
        let id_size = core::mem::size_of::<DocId>();
        while i < self.ids.len()
            invariant
                i <= self.ids@.len(),
                self.well_formed(),
                id_size == vstd::layout::size_of::<DocId>(),
                docs_bytes(self.texts(), i as int) >= 0,
                total == clamp(docs_bytes(self.texts(), i as int)),
            decreases self.ids@.len() - i,
        {
            let c = self.contents[i].as_str().len();
            assert(c == str_bytes(self.texts()[i as int]));
            let ghost prev = docs_bytes(self.texts(), i as int);
            proof {
                lemma_saturating_sum(prev, id_size as int);
                lemma_saturating_sum(prev + id_size, c as int);
            }
            total = total.saturating_add(id_size).saturating_add(c);
            i = i + 1;
        }
        total
    }

    /// Drops every document.
    pub fn clear(&mut self)
        ensures
            final(self).well_formed(),
            final(self)@ == Map::<DocId, Seq<char>>::empty(),
            final(self).keys() == Seq::<DocId>::empty(),
    {
        self.ids.clear();
        self.contents.clear();
        assert(self@ =~= Map::<DocId, Seq<char>>::empty());
    }
}

} // verus!
