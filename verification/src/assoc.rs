//! Association sequences: string-keyed entry lists with first-match lookup
//! and insert-or-overwrite, the storage shape shared by the registry, the
//! alias table, parse results and environment snapshots.

use vstd::prelude::*;

verus! {

/// The view of a keyed entry list: each key as its character sequence and
/// each value as its view.
pub open spec fn entries_view<T: View>(s: Seq<(String, T)>) -> Seq<(Seq<char>, T::V)> {
    s.map_values(|p: (String, T)| (p.0@, p.1@))
}

/// First-match lookup in an association sequence.
pub open spec fn assoc_find<V>(s: Seq<(Seq<char>, V)>, k: Seq<char>) -> Option<V>
    decreases s.len(),
{
    if s.len() == 0 {
        None
    } else if s[0].0 == k {
        Some(s[0].1)
    } else {
        assoc_find(s.drop_first(), k)
    }
}

/// Whether some entry carries key `k`.
pub open spec fn assoc_has<V>(s: Seq<(Seq<char>, V)>, k: Seq<char>) -> bool {
    assoc_find(s, k) is Some
}

/// Insert-or-overwrite: replaces the first entry keyed `k` in place, or
/// appends a new entry at the end.
pub open spec fn assoc_insert<V>(s: Seq<(Seq<char>, V)>, k: Seq<char>, v: V) -> Seq<
    (Seq<char>, V),
>
    decreases s.len(),
{
    if s.len() == 0 {
        seq![(k, v)]
    } else if s[0].0 == k {
        seq![(k, v)] + s.drop_first()
    } else {
        seq![s[0]] + assoc_insert(s.drop_first(), k, v)
    }
}

/// Whether the keys of an association sequence are pairwise distinct, so
/// that each key names at most one entry.
pub open spec fn distinct_keys<V>(s: Seq<(Seq<char>, V)>) -> bool {
    forall|i: int, j: int| 0 <= i < j < s.len() ==> s[i].0 != s[j].0
}

/// Lookup finds the value at the first index whose key matches.
pub proof fn lemma_assoc_find_at<V>(s: Seq<(Seq<char>, V)>, k: Seq<char>, i: int)
    requires
        0 <= i < s.len(),
        s[i].0 == k,
        forall|j: int| 0 <= j < i ==> s[j].0 != k,
    ensures
        assoc_find(s, k) == Some(s[i].1),
    decreases i,
{
    if i > 0 {
        lemma_assoc_find_at(s.drop_first(), k, i - 1);
    }
}

/// Lookup misses when no entry carries the key.
pub proof fn lemma_assoc_find_absent<V>(s: Seq<(Seq<char>, V)>, k: Seq<char>)
    requires
        forall|j: int| 0 <= j < s.len() ==> s[j].0 != k,
    ensures
        assoc_find(s, k) is None,
    decreases s.len(),
{
    if s.len() > 0 {
        lemma_assoc_find_absent(s.drop_first(), k);
    }
}

/// When the first matching entry sits at index `i`, insertion is an
/// in-place update there.
pub proof fn lemma_assoc_insert_update<V>(s: Seq<(Seq<char>, V)>, k: Seq<char>, v: V, i: int)
    requires
        0 <= i < s.len(),
        s[i].0 == k,
        forall|j: int| 0 <= j < i ==> s[j].0 != k,
    ensures
        assoc_insert(s, k, v) == s.update(i, (k, v)),
    decreases i,
{
    if i == 0 {
        assert(seq![(k, v)] + s.drop_first() =~= s.update(0, (k, v)));
    } else {
        lemma_assoc_insert_update(s.drop_first(), k, v, i - 1);
        assert(seq![s[0]] + s.drop_first().update(i - 1, (k, v)) =~= s.update(i, (k, v)));
    }
}

/// When no entry carries the key, insertion appends at the end.
pub proof fn lemma_assoc_insert_append<V>(s: Seq<(Seq<char>, V)>, k: Seq<char>, v: V)
    requires
        forall|j: int| 0 <= j < s.len() ==> s[j].0 != k,
    ensures
        assoc_insert(s, k, v) == s.push((k, v)),
    decreases s.len(),
{
    if s.len() == 0 {
        assert(assoc_insert(s, k, v) =~= s.push((k, v)));
    } else {
        lemma_assoc_insert_append(s.drop_first(), k, v);
        assert(seq![s[0]] + s.drop_first().push((k, v)) =~= s.push((k, v)));
    }
}

/// Insertion keeps keys pairwise distinct: it either updates the one entry
/// already keyed `k` in place or appends a key that was absent.
pub proof fn lemma_assoc_insert_distinct<V>(s: Seq<(Seq<char>, V)>, k: Seq<char>, v: V)
    requires
        distinct_keys(s),
    ensures
        distinct_keys(assoc_insert(s, k, v)),
{
    if exists|i: int| 0 <= i < s.len() && s[i].0 == k {
        let i = choose|i: int| 0 <= i < s.len() && s[i].0 == k;
        assert(forall|j: int| 0 <= j < i ==> s[j].0 != k);
        lemma_assoc_insert_update(s, k, v, i);
        let out = s.update(i, (k, v));
        assert(forall|idx: int| 0 <= idx < s.len() ==> out[idx].0 == s[idx].0);
    } else {
        assert(forall|j: int| 0 <= j < s.len() ==> s[j].0 != k);
        lemma_assoc_insert_append(s, k, v);
    }
}

/// What lookup sees after an insertion: the new value under the inserted
/// key, and the old answer under every other key.
pub proof fn lemma_assoc_find_insert<V>(s: Seq<(Seq<char>, V)>, k: Seq<char>, v: V, k2: Seq<char>)
    ensures
        assoc_find(assoc_insert(s, k, v), k2) == if k2 == k {
            Some(v)
        } else {
            assoc_find(s, k2)
        },
    decreases s.len(),
{
    let out = assoc_insert(s, k, v);
    if s.len() == 0 {
        assert(out =~= seq![(k, v)]);
        assert(out[0] == (k, v));
        assert(out.drop_first() =~= Seq::<(Seq<char>, V)>::empty());
        assert(assoc_find(out.drop_first(), k2) is None);
        if k2 == k {
            assert(assoc_find(out, k2) == Some(v));
        } else {
            assert(assoc_find(out, k2) is None);
            assert(assoc_find(s, k2) is None);
        }
    } else if s[0].0 == k {
        assert(out =~= seq![(k, v)] + s.drop_first());
        assert(out[0] == (k, v));
        assert(out.drop_first() =~= s.drop_first());
        if k2 == k {
            assert(assoc_find(out, k2) == Some(v));
        } else {
            assert(assoc_find(out, k2) == assoc_find(s.drop_first(), k2));
            assert(assoc_find(s, k2) == assoc_find(s.drop_first(), k2));
        }
    } else {
        assert(out =~= seq![s[0]] + assoc_insert(s.drop_first(), k, v));
        assert(out[0] == s[0]);
        assert(out.len() > 0);
        assert(out.drop_first() =~= assoc_insert(s.drop_first(), k, v));
        lemma_assoc_find_insert(s.drop_first(), k, v, k2);
        if k2 == s[0].0 {
            assert(k2 != k);
            assert(assoc_find(out, k2) == Some(s[0].1));
            assert(assoc_find(s, k2) == Some(s[0].1));
        } else {
            assert(assoc_find(out, k2) == assoc_find(assoc_insert(s.drop_first(), k, v), k2));
            assert(assoc_find(s, k2) == assoc_find(s.drop_first(), k2));
        }
    }
}

/// Finds the first entry whose key equals `k`.
pub fn assoc_idx<T>(v: &Vec<(String, T)>, k: &String) -> (r: Option<usize>)
    ensures
        match r {
            Some(i) => 0 <= i < v@.len() && v@[i as int].0@ == k@ && (forall|j: int|
                0 <= j < i ==> v@[j].0@ != k@),
            None => forall|j: int| 0 <= j < v@.len() ==> v@[j].0@ != k@,
        },
{
    let mut i: usize = 0;
    while i < v.len()
        invariant
            0 <= i <= v@.len(),
            forall|j: int| 0 <= j < i ==> v@[j].0@ != k@,
        decreases v@.len() - i,
    {
        if v[i].0 == *k {
            return Some(i);
        }
        i = i + 1;
    }
    None
}

/// Inserts `val` under key `k`, overwriting the first entry with that key
/// or appending a new one.
pub fn assoc_set<T: View>(v: &mut Vec<(String, T)>, k: String, val: T)
    ensures
        entries_view(final(v)@) == assoc_insert(entries_view(old(v)@), k@, val@),
{
    let found = assoc_idx(v, &k);
    match found {
        Some(i) => {
            proof {
                lemma_assoc_insert_update(entries_view(old(v)@), k@, val@, i as int);
            }
            let ghost kv = k@;
            let ghost vv = val@;
            v.set(i, (k, val));
            proof {
                assert(entries_view(v@) =~= entries_view(old(v)@).update(i as int, (kv, vv)));
            }
        },
        None => {
            proof {
                lemma_assoc_insert_append(entries_view(old(v)@), k@, val@);
            }
            let ghost kv = k@;
            let ghost vv = val@;
            v.push((k, val));
            proof {
                assert(entries_view(v@) =~= entries_view(old(v)@).push((kv, vv)));
            }
        },
    }
}

} // verus!
