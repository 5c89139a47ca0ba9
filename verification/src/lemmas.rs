//! Facts about sequences shared by the containers of the library.

use vstd::prelude::*;

verus! {

/// Filtering one more element of a prefix appends it when it passes.
pub proof fn lemma_filter_take_step<A>(s: Seq<A>, j: int, pred: spec_fn(A) -> bool)
    requires
        0 <= j < s.len(),
    ensures
        s.take(j + 1).filter(pred) == if pred(s[j]) {
            s.take(j).filter(pred).push(s[j])
        } else {
            s.take(j).filter(pred)
        },
{
    reveal(Seq::filter);
    assert(s.take(j + 1).drop_last() =~= s.take(j));
}

/// The map that sends each key to the value at its position.
pub open spec fn entries_map<K, V>(keys: Seq<K>, vals: Seq<V>) -> Map<K, V> {
    Map::new(|k: K| keys.contains(k), |k: K| vals[keys.index_of(k)])
}

/// In a sequence without duplicates, an element's index is its position.
pub proof fn lemma_index_of_unique<A>(s: Seq<A>, i: int)
    requires
        s.no_duplicates(),
        0 <= i < s.len(),
    ensures
        s.contains(s[i]),
        s.index_of(s[i]) == i,
{
    assert(s.contains(s[i]));
}

/// A map built from distinct keys has one entry per key.
pub proof fn lemma_entries_map_len<K, V>(keys: Seq<K>, vals: Seq<V>)
    requires
        keys.no_duplicates(),
    ensures
        entries_map(keys, vals).len() == keys.len(),
        entries_map(keys, vals).dom() == keys.to_set(),
{
    assert(entries_map(keys, vals).dom() =~= keys.to_set());
    keys.unique_seq_to_set();
}

/// Replacing the value at a position updates the map at that key.
pub proof fn lemma_entries_map_update<K, V>(keys: Seq<K>, vals: Seq<V>, i: int, v: V)
    requires
        keys.no_duplicates(),
        keys.len() == vals.len(),
        0 <= i < keys.len(),
    ensures
        entries_map(keys, vals.update(i, v)) == entries_map(keys, vals).insert(keys[i], v),
{
    lemma_index_of_unique(keys, i);
    assert forall|k: K| keys.contains(k) implies entries_map(keys, vals.update(i, v))[k] == entries_map(
        keys,
        vals,
    ).insert(keys[i], v)[k] by {
        let j = keys.index_of(k);
        lemma_index_of_unique(keys, j);
    }
    assert(entries_map(keys, vals.update(i, v)) =~= entries_map(keys, vals).insert(keys[i], v));
}

/// Appending a new key adds it to the map and keeps the keys distinct.
pub proof fn lemma_entries_map_push<K, V>(keys: Seq<K>, vals: Seq<V>, k: K, v: V)
    requires
        keys.no_duplicates(),
        keys.len() == vals.len(),
        !keys.contains(k),
    ensures
        keys.push(k).no_duplicates(),
        entries_map(keys.push(k), vals.push(v)) == entries_map(keys, vals).insert(k, v),
{
    let nk = keys.push(k);
    let nv = vals.push(v);
    assert forall|a: int, b: int| 0 <= a < nk.len() && 0 <= b < nk.len() && a != b implies nk[a]
        != nk[b] by {
        if a == keys.len() {
            assert(keys[b] == nk[b]);
        } else if b == keys.len() {
            assert(keys[a] == nk[a]);
        }
    }
    lemma_index_of_unique(nk, keys.len() as int);
    assert forall|x: K| nk.contains(x) implies entries_map(nk, nv)[x] == entries_map(keys, vals).insert(
        k,
        v,
    )[x] by {
        let j = nk.index_of(x);
        lemma_index_of_unique(nk, j);
        if x != k {
            assert(keys[j] == x);
            lemma_index_of_unique(keys, j);
        }
    }
    assert forall|x: K| keys.contains(x) || x == k implies #[trigger] nk.contains(x) by {
        if keys.contains(x) {
            let j = keys.index_of(x);
            assert(nk[j] == x);
        }
    }
    assert forall|x: K| #[trigger] nk.contains(x) implies keys.contains(x) || x == k by {
        let j = nk.index_of(x);
        if j < keys.len() {
            assert(keys[j] == x);
        }
    }
    assert(entries_map(nk, nv) =~= entries_map(keys, vals).insert(k, v));
}

/// Dropping the entry at a position removes its key from the map.
pub proof fn lemma_entries_map_remove<K, V>(keys: Seq<K>, vals: Seq<V>, i: int)
    requires
        keys.no_duplicates(),
        keys.len() == vals.len(),
        0 <= i < keys.len(),
    ensures
        keys.remove(i).no_duplicates(),
        entries_map(keys.remove(i), vals.remove(i)) == entries_map(keys, vals).remove(keys[i]),
{
    let nk = keys.remove(i);
    let nv = vals.remove(i);
    assert forall|a: int, b: int| 0 <= a < nk.len() && 0 <= b < nk.len() && a != b implies nk[a]
        != nk[b] by {
        let a0 = if a < i { a } else { a + 1 };
        let b0 = if b < i { b } else { b + 1 };
        assert(nk[a] == keys[a0]);
        assert(nk[b] == keys[b0]);
    }
    assert forall|x: K| #[trigger] nk.contains(x) <==> keys.contains(x) && x != keys[i] by {
        if nk.contains(x) {
            let j = nk.index_of(x);
            let j0 = if j < i { j } else { j + 1 };
            assert(keys[j0] == x);
            assert(j0 != i);
        }
        if keys.contains(x) && x != keys[i] {
            let j0 = keys.index_of(x);
            let j = if j0 < i { j0 } else { j0 - 1 };
            assert(nk[j] == x);
        }
    }
    assert forall|x: K| nk.contains(x) implies entries_map(nk, nv)[x] == entries_map(keys, vals)[x] by {
        let j = nk.index_of(x);
        lemma_index_of_unique(nk, j);
        let j0 = if j < i { j } else { j + 1 };
        assert(keys[j0] == x);
        lemma_index_of_unique(keys, j0);
    }
    assert(entries_map(nk, nv) =~= entries_map(keys, vals).remove(keys[i]));
}

} // verus!
