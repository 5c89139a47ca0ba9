//! Paging of result lists, and cutting a list into batches.

use crate::inversearch::index::DocId;
use vstd::prelude::*;

verus! {

/// First position of the page: the offset, at most the length.
pub open spec fn window_start(len: nat, offset: usize) -> nat {
    if offset < len {
        offset as nat
    } else {
        len
    }
}

/// End of the page: `limit` results after its start, at most the length; a
/// limit of zero means no limit.
pub open spec fn window_end(len: nat, limit: usize, offset: usize) -> nat {
    let start = window_start(len, offset);
    if limit > 0 {
        if start + limit < len {
            (start + limit) as nat
        } else {
            len
        }
    } else {
        len
    }
}

/// The page of `results` selected by `limit` and `offset`.
pub open spec fn window(results: Seq<DocId>, limit: usize, offset: usize) -> Seq<DocId> {
    results.subrange(
        window_start(results.len(), offset) as int,
        window_end(results.len(), limit, offset) as int,
    )
}

/// Computing the page's end stays within `usize`: the list is empty, there is
/// no limit, or start plus limit fits.
pub open spec fn window_fits(len: nat, limit: usize, offset: usize) -> bool {
    len == 0 || limit == 0 || window_start(len, offset) + limit <= usize::MAX
}

/// A page is the run of results that starts at the offset (or at the end,
/// when the offset lies beyond it); it holds at most `limit` results when a
/// limit is set, and every remaining result when none is.
pub proof fn lemma_window_shape(results: Seq<DocId>, limit: usize, offset: usize)
    ensures
        window(results, limit, offset).len() <= results.len(),
        limit > 0 ==> window(results, limit, offset).len() <= limit,
        limit == 0 ==> window(results, limit, offset) == results.skip(
            window_start(results.len(), offset) as int,
        ),
        forall|i: int|
            0 <= i < window(results, limit, offset).len() ==> #[trigger] window(results, limit, offset)[i]
                == results[window_start(results.len(), offset) + i],
        offset >= results.len() ==> window(results, limit, offset).len() == 0,
        window(results, 0, 0) == results,
{
    assert(results.subrange(0, results.len() as int) =~= results);
    if limit == 0 {
        assert(window(results, limit, offset) =~= results.skip(
            window_start(results.len(), offset) as int,
        ));
    }
}

/// Whether the page of a list of `len` results can be computed within
/// `usize` (see [`window_fits`]).
pub fn page_fits(len: usize, limit: usize, offset: usize) -> (b: bool)
    ensures
        b == window_fits(len as nat, limit, offset),
{
    let start = if offset < len {
        offset
    } else {
        len
    };
    len == 0 || limit == 0 || limit <= usize::MAX - start
}

/// The page of `results` that starts at `offset` and holds at most `limit`
/// results (all remaining ones when `limit` is zero).
pub fn apply_limit_offset(results: &[DocId], limit: usize, offset: usize) -> (r: Vec<DocId>)
    requires
        window_fits(results@.len(), limit, offset),
    ensures
        r@ == window(results@, limit, offset),
{
    if results.len() == 0 {
        assert(window(results@, limit, offset) =~= Seq::<DocId>::empty());
        return Vec::new();
    }
    let start = if offset < results.len() {
        offset
    } else {
        results.len()
    };
    let end = if limit > 0 {
        if start + limit < results.len() {
            start + limit
        } else {
            results.len()
        }
    } else {
        results.len()
    };
    let mut r: Vec<DocId> = Vec::new();
    let mut i = start;
    while i < end
        invariant
            start <= i <= end <= results@.len(),
            start == window_start(results@.len(), offset),
            end == window_end(results@.len(), limit, offset),
            r@ == results@.subrange(start as int, i as int),
        decreases end - i,
    {
        r.push(results[i]);
        i = i + 1;
        assert(r@ =~= results@.subrange(start as int, i as int));
    }
    r
}


/// `s` cut into runs of `n` items, in order; the last run holds what is left.
pub open spec fn chunked<T>(s: Seq<T>, n: nat) -> Seq<Seq<T>>
    decreases s.len(),
{
    if s.len() == 0 || n == 0 {
        Seq::empty()
    } else if s.len() <= n {
        seq![s]
    } else {
        seq![s.take(n as int)] + chunked(s.skip(n as int), n)
    }
}

/// The batches of a list hold, one after the other, exactly its items; none
/// is empty, none holds more than the batch size, and every batch but the
/// last holds exactly the batch size.
pub proof fn lemma_chunked_partition<T>(s: Seq<T>, n: nat)
    requires
        n > 0,
    ensures
        chunked(s, n).flatten() == s,
        forall|i: int| 0 <= i < chunked(s, n).len() ==> 0 < #[trigger] chunked(s, n)[i].len() <= n,
        forall|i: int|
            0 <= i < chunked(s, n).len() - 1 ==> #[trigger] chunked(s, n)[i].len() == n,
    decreases s.len(),
{
    let c = chunked(s, n);
    if s.len() == 0 {
    } else if s.len() <= n {
        assert(c.first() == s);
        assert(c.drop_first() =~= Seq::<Seq<T>>::empty());
        assert(c.drop_first().flatten() =~= Seq::<T>::empty());
        assert(c.flatten() =~= s);
    } else {
        let rest = chunked(s.skip(n as int), n);
        lemma_chunked_partition(s.skip(n as int), n);
        assert(c.drop_first() =~= rest);
        assert(c.first() == s.take(n as int));
        assert(c.flatten() =~= s.take(n as int) + rest.flatten());
        assert(s.take(n as int) + s.skip(n as int) =~= s);
        assert forall|i: int| 0 <= i < c.len() implies 0 < #[trigger] c[i].len() <= n by {
            if i > 0 {
                assert(c[i] == rest[i - 1]);
            }
        }
        assert forall|i: int| 0 <= i < c.len() - 1 implies #[trigger] c[i].len() == n by {
            if i > 0 {
                assert(c[i] == rest[i - 1]);
            }
        }
    }
}

/// `items` cut into batches of `batch_size`, in order; the last batch holds
/// what is left.
pub fn batches<T>(items: Vec<T>, batch_size: usize) -> (r: Vec<Vec<T>>)
    requires
        batch_size > 0,
    ensures
        r@.map_values(|b: Vec<T>| b@) == chunked(items@, batch_size as nat),
{
    let ghost whole = items@;
    let mut rest = items;
    let mut r: Vec<Vec<T>> = Vec::new();
    while rest.len() > 0
        invariant
            batch_size > 0,
            r@.map_values(|b: Vec<T>| b@) + chunked(rest@, batch_size as nat) == chunked(
                whole,
                batch_size as nat,
            ),
        decreases rest.len(),
    {
        let ghost before = r@.map_values(|b: Vec<T>| b@);
        if rest.len() > batch_size {
            let tail = rest.split_off(batch_size);
            let ghost head = rest@;
            r.push(rest);
            rest = tail;
            assert(r@.map_values(|b: Vec<T>| b@) =~= before.push(head));
            assert(before.push(head) + chunked(rest@, batch_size as nat) =~= before + (seq![head]
                + chunked(rest@, batch_size as nat)));
        } else {
            let ghost head = rest@;
            r.push(rest);
            rest = Vec::new();
            assert(r@.map_values(|b: Vec<T>| b@) =~= before.push(head));
            assert(chunked(rest@, batch_size as nat) =~= Seq::<Seq<T>>::empty());
            assert(before.push(head) + chunked(rest@, batch_size as nat) =~= before + seq![head]);
        }
    }
    assert(chunked(rest@, batch_size as nat) =~= Seq::<Seq<T>>::empty());
    assert(r@.map_values(|b: Vec<T>| b@) + Seq::<Seq<T>>::empty() =~= r@.map_values(
        |b: Vec<T>| b@,
    ));
    r
}

} // verus!
