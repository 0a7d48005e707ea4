use vstd::prelude::*;

verus! {

/// Association lists: a sequence of (key, value) entries read as a map in which
/// the first entry under a key is the one that counts.
/// The index of the first entry under `k`, or -1 when there is none.
pub open spec fn assoc_find<K, V>(e: Seq<(K, V)>, k: K) -> int
    decreases e.len(),
{
    if e.len() == 0 {
        -1
    } else {
        let i = assoc_find(e.drop_last(), k);
        if i >= 0 {
            i
        } else if e.last().0 == k {
            e.len() - 1
        } else {
            -1
        }
    }
}

/// The value under `k`.
pub open spec fn assoc_lookup<K, V>(e: Seq<(K, V)>, k: K) -> Option<V> {
    let i = assoc_find(e, k);
    if i >= 0 {
        Some(e[i].1)
    } else {
        None
    }
}

/// Sets the value under `k`: the entry under `k` takes `v` where there is one;
/// otherwise a new entry goes at the end.
pub open spec fn assoc_insert<K, V>(e: Seq<(K, V)>, k: K, v: V) -> Seq<(K, V)> {
    let i = assoc_find(e, k);
    if i >= 0 {
        e.update(i, (k, v))
    } else {
        e.push((k, v))
    }
}

/// No two entries share a key.
pub open spec fn assoc_unique<K, V>(e: Seq<(K, V)>) -> bool {
    forall|i: int, j: int| 0 <= i < j < e.len() ==> e[i].0 != e[j].0
}

pub proof fn lemma_assoc_find<K, V>(e: Seq<(K, V)>, k: K)
    ensures
        -1 <= assoc_find(e, k) < e.len(),
        assoc_find(e, k) == -1 <==> (forall|j: int| 0 <= j < e.len() ==> e[j].0 != k),
        assoc_find(e, k) >= 0 ==> e[assoc_find(e, k)].0 == k,
        forall|j: int| 0 <= j < assoc_find(e, k) ==> e[j].0 != k,
    decreases e.len(),
{
    if e.len() > 0 {
        lemma_assoc_find(e.drop_last(), k);
        let i = assoc_find(e.drop_last(), k);
        assert forall|j: int| 0 <= j < e.len() - 1 implies e[j] == e.drop_last()[j] by {}
        if i < 0 && e.last().0 != k {
            assert forall|j: int| 0 <= j < e.len() implies e[j].0 != k by {
                if j < e.len() - 1 {
                    assert(e[j] == e.drop_last()[j]);
                }
            }
        }
    }
}

/// The first index `i` with `e[i].0 == k` is what `assoc_find` gives.
pub proof fn lemma_assoc_find_at<K, V>(e: Seq<(K, V)>, k: K, i: int)
    requires
        0 <= i < e.len(),
        e[i].0 == k,
        forall|j: int| 0 <= j < i ==> e[j].0 != k,
    ensures
        assoc_find(e, k) == i,
{
    lemma_assoc_find(e, k);
    let f = assoc_find(e, k);
    if f < 0 {
        assert(e[i].0 != k);
    } else if f < i {
        assert(e[f].0 != k);
    } else if f > i {
        assert(e[i].0 != k);
    }
}

/// Inserting under a key keeps every key in the entries once: a key already there
/// has its entry replaced, a new one is appended.
pub proof fn lemma_assoc_insert_unique<K, V>(e: Seq<(K, V)>, k: K, v: V)
    requires
        assoc_unique(e),
    ensures
        assoc_unique(assoc_insert(e, k, v)),
{
    lemma_assoc_find(e, k);
}

} // verus!

verus! {

/// The value of the last entry under `k`: what a map filled from the entries in
/// order holds under `k`.
pub open spec fn assoc_last<K, V>(e: Seq<(K, V)>, k: K) -> Option<V>
    decreases e.len(),
{
    if e.len() == 0 {
        None
    } else if e.last().0 == k {
        Some(e.last().1)
    } else {
        assoc_last(e.drop_last(), k)
    }
}

/// Looking up after an insert finds the inserted value under its key, and what was
/// there before under every other key.
pub proof fn lemma_assoc_lookup_insert<K, V>(e: Seq<(K, V)>, k: K, v: V, k2: K)
    ensures
        assoc_lookup(assoc_insert(e, k, v), k2) == if k2 == k {
            Some(v)
        } else {
            assoc_lookup(e, k2)
        },
{
    lemma_assoc_find(e, k);
    lemma_assoc_find(e, k2);
    let e2 = assoc_insert(e, k, v);
    lemma_assoc_find(e2, k2);
    let i = assoc_find(e, k);
    if i >= 0 {
        if k2 == k {
            lemma_assoc_find_at(e2, k2, i);
        } else {
            let j = assoc_find(e, k2);
            if j >= 0 {
                lemma_assoc_find_at(e2, k2, j);
            } else {
                assert forall|q: int| 0 <= q < e2.len() implies e2[q].0 != k2 by {
                    if q != i {
                        assert(e2[q] == e[q]);
                    }
                }
            }
        }
    } else {
        if k2 == k {
            lemma_assoc_find_at(e2, k2, e.len() as int);
        } else {
            let j = assoc_find(e, k2);
            if j >= 0 {
                lemma_assoc_find_at(e2, k2, j);
            } else {
                assert forall|q: int| 0 <= q < e2.len() implies e2[q].0 != k2 by {
                    if q < e.len() {
                        assert(e2[q] == e[q]);
                    }
                }
            }
        }
    }
}

} // verus!
