//! Association lists with distinct keys, read as finite maps.
use vstd::prelude::*;

verus! {

/// The keys of the entries are pairwise distinct.
pub open spec fn distinct_keys<K, V>(s: Seq<(K, V)>) -> bool {
    forall|i: int, j: int| 0 <= i < j < s.len() ==> #[trigger] s[i].0 != #[trigger] s[j].0
}

/// The map holding each entry; a later entry wins over an earlier one with the same key.
pub open spec fn assoc_map<K, V>(s: Seq<(K, V)>) -> Map<K, V>
    decreases s.len(),
{
    if s.len() == 0 {
        Map::empty()
    } else {
        assoc_map(s.drop_last()).insert(s.last().0, s.last().1)
    }
}

/// Index of the entry with key `k`, if any.
pub open spec fn key_index<K, V>(s: Seq<(K, V)>, k: K) -> Option<int> {
    if exists|i: int| 0 <= i < s.len() && s[i].0 == k {
        Some(choose|i: int| 0 <= i < s.len() && s[i].0 == k)
    } else {
        None
    }
}

/// The map's domain is the set of keys, and the value of a key is that of its entry.
pub proof fn lemma_assoc_map_lookup<K, V>(s: Seq<(K, V)>)
    requires
        distinct_keys(s),
    ensures
        forall|k: K| #[trigger] assoc_map(s).dom().contains(k) <==> exists|i: int|
            0 <= i < s.len() && s[i].0 == k,
        forall|i: int| 0 <= i < s.len() ==> #[trigger] assoc_map(s)[s[i].0] == s[i].1,
        assoc_map(s).dom().finite(),
        assoc_map(s).dom().len() == s.len(),
    decreases s.len(),
{
    if s.len() > 0 {
        let t = s.drop_last();
        assert(distinct_keys(t));
        lemma_assoc_map_lookup(t);
        let last = s.last();
        assert(!assoc_map(t).dom().contains(last.0)) by {
            if assoc_map(t).dom().contains(last.0) {
                let i = choose|i: int| 0 <= i < t.len() && t[i].0 == last.0;
                assert(s[i].0 == s[s.len() - 1].0);
            }
        }
        assert forall|k: K| #[trigger] assoc_map(s).dom().contains(k) <==> exists|i: int|
            0 <= i < s.len() && s[i].0 == k by {
            if assoc_map(s).dom().contains(k) && k != last.0 {
                let i = choose|i: int| 0 <= i < t.len() && t[i].0 == k;
                assert(s[i].0 == k);
            }
            if exists|i: int| 0 <= i < s.len() && s[i].0 == k {
                let i = choose|i: int| 0 <= i < s.len() && s[i].0 == k;
                if i < t.len() {
                    assert(t[i].0 == k);
                }
            }
        }
        assert forall|i: int| 0 <= i < s.len() implies #[trigger] assoc_map(s)[s[i].0] == s[i].1 by {
            if i < t.len() {
                assert(t[i] == s[i]);
                assert(s[i].0 != last.0);
            }
        }
    }
}

/// Replacing the value of an existing key updates the map at that key.
pub proof fn lemma_assoc_map_update<K, V>(s: Seq<(K, V)>, i: int, v: V)
    requires
        distinct_keys(s),
        0 <= i < s.len(),
    ensures
        distinct_keys(s.update(i, (s[i].0, v))),
        assoc_map(s.update(i, (s[i].0, v))) == assoc_map(s).insert(s[i].0, v),
{
    let u = s.update(i, (s[i].0, v));
    assert(distinct_keys(u)) by {
        assert forall|a: int, b: int| 0 <= a < b < u.len() implies #[trigger] u[a].0
            != #[trigger] u[b].0 by {
            assert(u[a].0 == s[a].0 && u[b].0 == s[b].0);
        }
    }
    lemma_assoc_map_lookup(s);
    lemma_assoc_map_lookup(u);
    let m = assoc_map(s).insert(s[i].0, v);
    assert forall|k: K| #[trigger] assoc_map(u).dom().contains(k) <==> m.dom().contains(k) by {
        if k == s[i].0 {
            assert(0 <= i < u.len() && u[i].0 == k);
        } else if m.dom().contains(k) {
            let j = choose|j: int| 0 <= j < s.len() && s[j].0 == k;
            assert(0 <= j < u.len() && u[j].0 == k);
        }
        if assoc_map(u).dom().contains(k) {
            let j = choose|j: int| 0 <= j < u.len() && u[j].0 == k;
            assert(0 <= j < s.len() && s[j].0 == k);
        }
    }
    assert forall|k: K| #[trigger] assoc_map(u).dom().contains(k) implies assoc_map(u)[k] == m[k] by {
        let j = choose|j: int| 0 <= j < u.len() && u[j].0 == k;
        assert(assoc_map(u)[u[j].0] == u[j].1);
        if j != i {
            assert(assoc_map(s)[s[j].0] == s[j].1);
        }
    }
    assert(assoc_map(u) =~= m);
}

/// Appending an entry with a new key inserts it.
pub proof fn lemma_assoc_map_push<K, V>(s: Seq<(K, V)>, k: K, v: V)
    requires
        distinct_keys(s),
        forall|i: int| 0 <= i < s.len() ==> s[i].0 != k,
    ensures
        distinct_keys(s.push((k, v))),
        assoc_map(s.push((k, v))) == assoc_map(s).insert(k, v),
{
    let p = s.push((k, v));
    assert(p.drop_last() == s);
    assert forall|a: int, b: int| 0 <= a < b < p.len() implies #[trigger] p[a].0
        != #[trigger] p[b].0 by {
        if b < s.len() {
            assert(p[a] == s[a] && p[b] == s[b]);
        } else {
            assert(p[a] == s[a]);
        }
    }
}

/// The map of an association list is finite, and inserting a key adds one entry exactly
/// when the key is new.
pub proof fn lemma_assoc_map_insert_len<K, V>(s: Seq<(K, V)>, k: K, v: V)
    requires
        distinct_keys(s),
    ensures
        assoc_map(s).dom().finite(),
        assoc_map(s).insert(k, v).dom().finite(),
        assoc_map(s).insert(k, v).len() == if assoc_map(s).contains_key(k) {
            assoc_map(s).len()
        } else {
            assoc_map(s).len() + 1
        },
{
    lemma_assoc_map_lookup(s);
    assert(assoc_map(s).insert(k, v).dom() =~= assoc_map(s).dom().insert(k));
}

} // verus!
