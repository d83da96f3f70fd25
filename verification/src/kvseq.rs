//! Association lists: lookups by the first binding of a key, and the
//! mapping such a list denotes.

use vstd::prelude::*;

verus! {

/// The first position binding the key, or -1.
pub open spec fn kv_index_of<K, V>(s: Seq<(K, V)>, k: K) -> int
    decreases s.len(),
{
    if s.len() == 0 {
        -1
    } else if s[0].0 == k {
        0
    } else {
        let r = kv_index_of(s.drop_first(), k);
        if r == -1 {
            -1
        } else {
            r + 1
        }
    }
}

/// Whether the list binds the key.
pub open spec fn kv_contains<K, V>(s: Seq<(K, V)>, k: K) -> bool {
    kv_index_of(s, k) >= 0
}

/// The value of the first binding of the key.
pub open spec fn kv_lookup<K, V>(s: Seq<(K, V)>, k: K) -> Option<V> {
    if kv_contains(s, k) {
        Some(s[kv_index_of(s, k)].1)
    } else {
        None
    }
}

/// The mapping the list denotes; the first binding of a key wins.
pub open spec fn kv_map<K, V>(s: Seq<(K, V)>) -> Map<K, V>
    decreases s.len(),
{
    if s.len() == 0 {
        Map::empty()
    } else {
        kv_map(s.drop_first()).insert(s[0].0, s[0].1)
    }
}

/// Where a key's first binding sits, from what the entries show.
pub proof fn lemma_kv_index_of_first<K, V>(s: Seq<(K, V)>, k: K, j: int)
    requires
        0 <= j < s.len(),
        s[j].0 == k,
        forall|i: int| 0 <= i < j ==> s[i].0 != k,
    ensures
        kv_index_of(s, k) == j,
    decreases j,
{
    if j > 0 {
        lemma_kv_index_of_first(s.drop_first(), k, j - 1);
    }
}

/// A key no entry binds has no position.
pub proof fn lemma_kv_index_of_absent<K, V>(s: Seq<(K, V)>, k: K)
    requires
        forall|i: int| 0 <= i < s.len() ==> s[i].0 != k,
    ensures
        kv_index_of(s, k) == -1,
    decreases s.len(),
{
    if s.len() > 0 {
        lemma_kv_index_of_absent(s.drop_first(), k);
    }
}

/// Appending a binding for a fresh key adds it to the mapping.
pub proof fn lemma_kv_map_push_absent<K, V>(s: Seq<(K, V)>, p: (K, V))
    requires
        forall|i: int| 0 <= i < s.len() ==> s[i].0 != p.0,
    ensures
        kv_map(s.push(p)) == kv_map(s).insert(p.0, p.1),
    decreases s.len(),
{
    if s.len() == 0 {
        assert(s.push(p)[0] == p);
        assert(s.push(p).drop_first() =~= Seq::<(K, V)>::empty());
        assert(kv_map(Seq::<(K, V)>::empty()) =~= Map::<K, V>::empty());
        assert(kv_map(s.push(p)) =~= kv_map(s).insert(p.0, p.1));
    } else {
        lemma_kv_map_push_absent(s.drop_first(), p);
        assert(s.push(p).drop_first() =~= s.drop_first().push(p));
        assert(s.push(p)[0] == s[0]);
        assert(kv_map(s).insert(p.0, p.1) =~= kv_map(s.drop_first()).insert(p.0, p.1).insert(
            s[0].0,
            s[0].1,
        )) by {
            assert(s[0].0 != p.0);
        }
    }
}

/// Replacing the first binding of a key updates the mapping at that key.
pub proof fn lemma_kv_map_update_first<K, V>(s: Seq<(K, V)>, idx: int, p: (K, V))
    requires
        0 <= idx < s.len(),
        s[idx].0 == p.0,
        forall|i: int| 0 <= i < idx ==> s[i].0 != p.0,
    ensures
        kv_map(s.update(idx, p)) == kv_map(s).insert(p.0, p.1),
    decreases idx,
{
    let v = s.update(idx, p);
    if idx == 0 {
        assert(v.drop_first() =~= s.drop_first());
        assert(v[0] == p);
        assert(kv_map(s).insert(p.0, p.1) =~= kv_map(s.drop_first()).insert(p.0, p.1));
    } else {
        assert(s.drop_first()[idx - 1] == s[idx]);
        assert forall|i: int| 0 <= i < idx - 1 implies (#[trigger] s.drop_first()[i]).0 != p.0 by {
            assert(s.drop_first()[i] == s[i + 1]);
        }
        lemma_kv_map_update_first(s.drop_first(), idx - 1, p);
        assert(v.drop_first() =~= s.drop_first().update(idx - 1, p));
        assert(v[0] == s[0]);
        assert(kv_map(s).insert(p.0, p.1) =~= kv_map(s.drop_first()).insert(p.0, p.1).insert(
            s[0].0,
            s[0].1,
        )) by {
            assert(s[0].0 != p.0);
        }
    }
}


/// The bindings of `s` laid over `m` in order; a later binding of a key
/// replaces an earlier one.
pub open spec fn kv_fold_insert<K, V>(m: Map<K, V>, s: Seq<(K, V)>) -> Map<K, V>
    decreases s.len(),
{
    if s.len() == 0 {
        m
    } else {
        kv_fold_insert(m.insert(s[0].0, s[0].1), s.drop_first())
    }
}

} // verus!
