//! Association sequences viewed as maps.
//!
//! The job table and the serving scope both hold their entries as a vector
//! of key/value pairs with pairwise-distinct keys. This module gives that
//! representation its mathematical reading — a `Map` — and the lemmas that
//! relate the vector operations (push, update, remove) to map operations.

use vstd::prelude::*;

verus! {

/// The keys of the pair sequence are pairwise distinct.
pub open spec fn pairs_unique<K, V>(s: Seq<(K, V)>) -> bool {
    forall|i: int, j: int| 0 <= i < j < s.len() ==> s[i].0 != s[j].0
}

/// The map that a pair sequence denotes; later pairs win (irrelevant under
/// `pairs_unique`).
pub open spec fn as_map<K, V>(s: Seq<(K, V)>) -> Map<K, V>
    decreases s.len(),
{
    if s.len() == 0 {
        Map::empty()
    } else {
        as_map(s.drop_last()).insert(s.last().0, s.last().1)
    }
}

/// The denoted map contains a key exactly when some pair holds it.
pub proof fn lemma_as_map_contains<K, V>(s: Seq<(K, V)>, k: K)
    ensures
        as_map(s).contains_key(k) <==> exists|i: int| 0 <= i < s.len() && s[i].0 == k,
    decreases s.len(),
{
    if s.len() > 0 {
        lemma_as_map_contains(s.drop_last(), k);
        if s.last().0 == k {
            assert(s[s.len() - 1].0 == k);
        } else if as_map(s.drop_last()).contains_key(k) {
            let i = choose|i: int| 0 <= i < s.drop_last().len() && s.drop_last()[i].0 == k;
            assert(s[i].0 == k);
        } else if exists|i: int| 0 <= i < s.len() && s[i].0 == k {
            let i = choose|i: int| 0 <= i < s.len() && s[i].0 == k;
            assert(s.drop_last()[i].0 == k);
        }
    }
}

/// Under unique keys, the denoted map sends a pair's key to its value.
pub proof fn lemma_as_map_index<K, V>(s: Seq<(K, V)>, i: int)
    requires
        pairs_unique(s),
        0 <= i < s.len(),
    ensures
        as_map(s).contains_key(s[i].0),
        as_map(s)[s[i].0] == s[i].1,
    decreases s.len(),
{
    lemma_as_map_contains(s, s[i].0);
    if i < s.len() - 1 {
        assert(s[i].0 != s.last().0);
        assert(s.drop_last()[i] == s[i]);
        lemma_as_map_index(s.drop_last(), i);
    }
}

/// Pushing a pair denotes inserting it.
pub proof fn lemma_as_map_push<K, V>(s: Seq<(K, V)>, k: K, v: V)
    ensures
        as_map(s.push((k, v))) == as_map(s).insert(k, v),
{
    assert(s.push((k, v)).drop_last() =~= s);
}

/// Under unique keys, updating the pair that holds `k` denotes inserting the
/// new value under `k`.
pub proof fn lemma_as_map_update<K, V>(s: Seq<(K, V)>, i: int, k: K, v: V)
    requires
        pairs_unique(s),
        0 <= i < s.len(),
        s[i].0 == k,
    ensures
        as_map(s.update(i, (k, v))) == as_map(s).insert(k, v),
    decreases s.len(),
{
    let s2 = s.update(i, (k, v));
    if i == s.len() - 1 {
        assert(s2.drop_last() =~= s.drop_last());
        assert(as_map(s2) =~= as_map(s).insert(k, v));
    } else {
        assert(s2.drop_last() =~= s.drop_last().update(i, (k, v)));
        assert(s.drop_last()[i] == s[i]);
        lemma_as_map_update(s.drop_last(), i, k, v);
        assert(s.last().0 != k);
        assert(s2.last() == s.last());
        assert(as_map(s2) =~= as_map(s).insert(k, v));
    }
}

/// Under unique keys, removing the pair that holds `k` denotes removing `k`.
pub proof fn lemma_as_map_remove<K, V>(s: Seq<(K, V)>, i: int)
    requires
        pairs_unique(s),
        0 <= i < s.len(),
    ensures
        as_map(s.remove(i)) == as_map(s).remove(s[i].0),
    decreases s.len(),
{
    let k = s[i].0;
    if i == s.len() - 1 {
        assert(s.remove(i) =~= s.drop_last());
        lemma_as_map_contains(s.drop_last(), k);
        assert(forall|j: int|
            0 <= j < s.drop_last().len() ==> s.drop_last()[j] == s[j] && s[j].0 != k);
        assert(!as_map(s.drop_last()).contains_key(k));
        assert(as_map(s.drop_last()) =~= as_map(s).remove(k));
    } else {
        assert(s.remove(i).drop_last() =~= s.drop_last().remove(i));
        assert(s.drop_last()[i] == s[i]);
        lemma_as_map_remove(s.drop_last(), i);
        assert(s.last().0 != k);
        assert(s.remove(i).last() == s.last());
        assert(as_map(s.remove(i)) =~= as_map(s).remove(k));
    }
}

} // verus!
