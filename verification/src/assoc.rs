//! Keyed collections kept as two sequences, keys and values side by side,
//! and the map that they stand for while no key occurs twice.

use vstd::prelude::*;

verus! {

/// Does no key occur twice?
pub open spec fn unique<K>(keys: Seq<K>) -> bool {
    forall|i: int, j: int| 0 <= i < j < keys.len() ==> keys[i] != keys[j]
}

/// The map that sends each key to the value beside it.
pub open spec fn as_map<K, V>(keys: Seq<K>, vals: Seq<V>) -> Map<K, V> {
    Map::new(|k: K| keys.contains(k), |k: K| vals[keys.index_of(k)])
}

/// The value beside a key is the key's value in the map.
pub proof fn lemma_map_get<K, V>(keys: Seq<K>, vals: Seq<V>, i: int)
    requires
        unique(keys),
        0 <= i < keys.len(),
    ensures
        as_map(keys, vals).contains_key(keys[i]),
        as_map(keys, vals)[keys[i]] == vals[i],
        keys.index_of(keys[i]) == i,
{
    assert(keys.contains(keys[i]));
    let j = keys.index_of(keys[i]);
    assert(0 <= j < keys.len() && keys[j] == keys[i]);
    if j != i {
        if j < i {
            assert(keys[j] != keys[i]);
        } else {
            assert(keys[i] != keys[j]);
        }
    }
}

/// A key that stands nowhere has no value in the map.
pub proof fn lemma_map_absent<K, V>(keys: Seq<K>, vals: Seq<V>, k: K)
    requires
        forall|i: int| 0 <= i < keys.len() ==> keys[i] != k,
    ensures
        !as_map(keys, vals).contains_key(k),
        !keys.contains(k),
{
}

/// Appending a new key with its value inserts it into the map.
pub proof fn lemma_map_push<K, V>(keys: Seq<K>, vals: Seq<V>, k: K, v: V)
    requires
        unique(keys),
        keys.len() == vals.len(),
        !keys.contains(k),
    ensures
        unique(keys.push(k)),
        as_map(keys.push(k), vals.push(v)) == as_map(keys, vals).insert(k, v),
{
    let keys2 = keys.push(k);
    let vals2 = vals.push(v);
    assert forall|i: int, j: int| 0 <= i < j < keys2.len() implies keys2[i] != keys2[j] by {
        if j == keys.len() {
            assert(keys.contains(keys[i]));
        }
    }
    let m2 = as_map(keys2, vals2);
    let m = as_map(keys, vals).insert(k, v);
    assert forall|q: K| m2.contains_key(q) <==> m.contains_key(q) by {
        if keys2.contains(q) {
            let i = choose|i: int| 0 <= i < keys2.len() && keys2[i] == q;
            if i < keys.len() {
                assert(keys[i] == q);
            }
        }
        if keys.contains(q) {
            let i = choose|i: int| 0 <= i < keys.len() && keys[i] == q;
            assert(keys2[i] == q);
        }
        if q == k {
            assert(keys2[keys.len() as int] == k);
        }
    }
    assert forall|q: K| m2.contains_key(q) implies m2[q] == m[q] by {
        let i = keys2.index_of(q);
        lemma_map_get(keys2, vals2, i);
        if i < keys.len() {
            lemma_map_get(keys, vals, i);
            assert(keys[i] == q);
            assert(q != k);
        }
    }
    assert(m2 =~= m);
}

/// Taking a key out with its value removes it from the map.
pub proof fn lemma_map_remove<K, V>(keys: Seq<K>, vals: Seq<V>, i: int)
    requires
        unique(keys),
        keys.len() == vals.len(),
        0 <= i < keys.len(),
    ensures
        unique(keys.remove(i)),
        !keys.remove(i).contains(keys[i]),
        as_map(keys.remove(i), vals.remove(i)) == as_map(keys, vals).remove(keys[i]),
{
    let keys2 = keys.remove(i);
    let vals2 = vals.remove(i);
    assert forall|a: int, b: int| 0 <= a < b < keys2.len() implies keys2[a] != keys2[b] by {
        let a1 = if a < i {
            a
        } else {
            a + 1
        };
        let b1 = if b < i {
            b
        } else {
            b + 1
        };
        assert(keys2[a] == keys[a1] && keys2[b] == keys[b1]);
    }
    assert forall|a: int| 0 <= a < keys2.len() implies keys2[a] != keys[i] by {
        let a1 = if a < i {
            a
        } else {
            a + 1
        };
        assert(keys2[a] == keys[a1]);
        if a1 < i {
            assert(keys[a1] != keys[i]);
        } else {
            assert(keys[i] != keys[a1]);
        }
    }
    let m2 = as_map(keys2, vals2);
    let m = as_map(keys, vals).remove(keys[i]);
    assert forall|q: K| m2.contains_key(q) <==> m.contains_key(q) by {
        if keys2.contains(q) {
            let a = choose|a: int| 0 <= a < keys2.len() && keys2[a] == q;
            let a1 = if a < i {
                a
            } else {
                a + 1
            };
            assert(keys[a1] == q);
        }
        if keys.contains(q) && q != keys[i] {
            let a = choose|a: int| 0 <= a < keys.len() && keys[a] == q;
            let a2 = if a < i {
                a
            } else {
                a - 1
            };
            assert(keys2[a2] == q);
        }
    }
    assert forall|q: K| m2.contains_key(q) implies m2[q] == m[q] by {
        let a = keys2.index_of(q);
        lemma_map_get(keys2, vals2, a);
        let a1 = if a < i {
            a
        } else {
            a + 1
        };
        lemma_map_get(keys, vals, a1);
    }
    assert(m2 =~= m);
}

/// Replacing the value beside a key replaces the key's value in the map.
pub proof fn lemma_map_update<K, V>(keys: Seq<K>, vals: Seq<V>, i: int, v: V)
    requires
        unique(keys),
        keys.len() == vals.len(),
        0 <= i < keys.len(),
    ensures
        as_map(keys, vals.update(i, v)) == as_map(keys, vals).insert(keys[i], v),
{
    let vals2 = vals.update(i, v);
    let m2 = as_map(keys, vals2);
    let m = as_map(keys, vals).insert(keys[i], v);
    assert forall|q: K| m2.contains_key(q) <==> m.contains_key(q) by {
        if q == keys[i] {
            assert(keys.contains(q));
        }
    }
    assert forall|q: K| m2.contains_key(q) implies m2[q] == m[q] by {
        let a = keys.index_of(q);
        lemma_map_get(keys, vals2, a);
        lemma_map_get(keys, vals, a);
        lemma_map_get(keys, vals, i);
    }
    assert(m2 =~= m);
}

/// The map of finitely many keys is finite.
pub proof fn lemma_map_finite<K, V>(keys: Seq<K>, vals: Seq<V>)
    ensures
        as_map(keys, vals).dom().finite(),
        as_map(keys, vals).dom() == keys.to_set(),
{
    vstd::seq_lib::seq_to_set_is_finite(keys);
    assert(as_map(keys, vals).dom() =~= keys.to_set());
}

} // verus!
