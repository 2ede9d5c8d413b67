//! Maps held as sequences of entries with distinct keys.
use vstd::prelude::*;

verus! {

/// The map whose entries are those of `s`, each keyed by `key`; a later entry
/// overrides an earlier one of the same key.
pub open spec fn keyed_map<E, K, V>(s: Seq<E>, key: spec_fn(E) -> K, val: spec_fn(E) -> V) -> Map<K, V>
    decreases s.len(),
{
    if s.len() == 0 {
        Map::empty()
    } else {
        keyed_map(s.drop_last(), key, val).insert(key(s.last()), val(s.last()))
    }
}

pub open spec fn unique_keys<E, K>(s: Seq<E>, key: spec_fn(E) -> K) -> bool {
    forall|i: int, j: int|
        0 <= i < s.len() && 0 <= j < s.len() && i != j ==> key(#[trigger] s[i]) != key(#[trigger] s[j])
}

pub proof fn lemma_keyed_map_contains<E, K, V>(
    s: Seq<E>,
    key: spec_fn(E) -> K,
    val: spec_fn(E) -> V,
    k: K,
)
    ensures
        keyed_map(s, key, val).contains_key(k) <==> exists|i: int| 0 <= i < s.len() && key(s[i]) == k,
    decreases s.len(),
{
    if s.len() > 0 {
        lemma_keyed_map_contains(s.drop_last(), key, val, k);
        if keyed_map(s, key, val).contains_key(k) {
            if key(s.last()) != k {
                let i = choose|i: int| 0 <= i < s.drop_last().len() && key(s.drop_last()[i]) == k;
                assert(key(s[i]) == k);
            } else {
                assert(key(s[s.len() - 1]) == k);
            }
        }
        if exists|i: int| 0 <= i < s.len() && key(s[i]) == k {
            let i = choose|i: int| 0 <= i < s.len() && key(s[i]) == k;
            if i < s.len() - 1 {
                assert(key(s.drop_last()[i]) == k);
            }
        }
    }
}

pub proof fn lemma_keyed_map_index<E, K, V>(s: Seq<E>, key: spec_fn(E) -> K, val: spec_fn(E) -> V, i: int)
    requires
        unique_keys(s, key),
        0 <= i < s.len(),
    ensures
        keyed_map(s, key, val).contains_key(key(s[i])),
        keyed_map(s, key, val)[key(s[i])] == val(s[i]),
    decreases s.len(),
{
    if i < s.len() - 1 {
        let t = s.drop_last();
        assert forall|a: int, b: int|
            0 <= a < t.len() && 0 <= b < t.len() && a != b implies key(#[trigger] t[a]) != key(
            #[trigger] t[b],
        ) by {
            assert(t[a] == s[a] && t[b] == s[b]);
        }
        lemma_keyed_map_index(t, key, val, i);
        assert(t[i] == s[i]);
        assert(key(s[i]) != key(s[s.len() - 1]));
    }
}

pub proof fn lemma_keyed_map_update<E, K, V>(
    s: Seq<E>,
    key: spec_fn(E) -> K,
    val: spec_fn(E) -> V,
    i: int,
    e: E,
)
    requires
        unique_keys(s, key),
        0 <= i < s.len(),
        key(e) == key(s[i]),
    ensures
        unique_keys(s.update(i, e), key),
        keyed_map(s.update(i, e), key, val) == keyed_map(s, key, val).insert(key(e), val(e)),
    decreases s.len(),
{
    let u = s.update(i, e);
    assert forall|a: int, b: int|
        0 <= a < u.len() && 0 <= b < u.len() && a != b implies key(#[trigger] u[a]) != key(
        #[trigger] u[b],
    ) by {
        assert(key(u[a]) == key(s[a]) && key(u[b]) == key(s[b]));
    }
    let t = s.drop_last();
    assert forall|a: int, b: int|
        0 <= a < t.len() && 0 <= b < t.len() && a != b implies key(#[trigger] t[a]) != key(
        #[trigger] t[b],
    ) by {
        assert(t[a] == s[a] && t[b] == s[b]);
    }
    if i == s.len() - 1 {
        assert(u.drop_last() =~= t);
        assert(keyed_map(u, key, val) =~= keyed_map(s, key, val).insert(key(e), val(e)));
    } else {
        lemma_keyed_map_update(t, key, val, i, e);
        assert(u.drop_last() =~= t.update(i, e));
        assert(key(s[i]) != key(s[s.len() - 1]));
        assert(keyed_map(u, key, val) =~= keyed_map(s, key, val).insert(key(e), val(e)));
    }
}

pub proof fn lemma_keyed_map_push<E, K, V>(s: Seq<E>, key: spec_fn(E) -> K, val: spec_fn(E) -> V, e: E)
    requires
        unique_keys(s, key),
        !keyed_map(s, key, val).contains_key(key(e)),
    ensures
        unique_keys(s.push(e), key),
        keyed_map(s.push(e), key, val) == keyed_map(s, key, val).insert(key(e), val(e)),
{
    lemma_keyed_map_contains(s, key, val, key(e));
    let u = s.push(e);
    assert forall|a: int, b: int|
        0 <= a < u.len() && 0 <= b < u.len() && a != b implies key(#[trigger] u[a]) != key(
        #[trigger] u[b],
    ) by {
        if a < s.len() && b < s.len() {
            assert(u[a] == s[a] && u[b] == s[b]);
        } else if a < s.len() {
            assert(u[a] == s[a]);
        } else {
            assert(u[b] == s[b]);
        }
    }
    assert(u.drop_last() =~= s);
}

pub proof fn lemma_keyed_map_remove<E, K, V>(
    s: Seq<E>,
    key: spec_fn(E) -> K,
    val: spec_fn(E) -> V,
    i: int,
)
    requires
        unique_keys(s, key),
        0 <= i < s.len(),
    ensures
        unique_keys(s.remove(i), key),
        keyed_map(s.remove(i), key, val) == keyed_map(s, key, val).remove(key(s[i])),
    decreases s.len(),
{
    let u = s.remove(i);
    assert forall|a: int, b: int|
        0 <= a < u.len() && 0 <= b < u.len() && a != b implies key(#[trigger] u[a]) != key(
        #[trigger] u[b],
    ) by {
        let a2 = if a < i {
            a
        } else {
            a + 1
        };
        let b2 = if b < i {
            b
        } else {
            b + 1
        };
        assert(u[a] == s[a2] && u[b] == s[b2]);
    }
    let t = s.drop_last();
    assert forall|a: int, b: int|
        0 <= a < t.len() && 0 <= b < t.len() && a != b implies key(#[trigger] t[a]) != key(
        #[trigger] t[b],
    ) by {
        assert(t[a] == s[a] && t[b] == s[b]);
    }
    if i == s.len() - 1 {
        assert(u =~= t);
        lemma_keyed_map_contains(t, key, val, key(s[i]));
        if exists|j: int| 0 <= j < t.len() && key(t[j]) == key(s[i]) {
            let j = choose|j: int| 0 <= j < t.len() && key(t[j]) == key(s[i]);
            assert(t[j] == s[j]);
        }
        assert(keyed_map(u, key, val) =~= keyed_map(s, key, val).remove(key(s[i])));
    } else {
        lemma_keyed_map_remove(t, key, val, i);
        assert(u.drop_last() =~= t.remove(i));
        assert(u.last() == s.last());
        assert(key(s[i]) != key(s[s.len() - 1]));
        assert(keyed_map(u, key, val) =~= keyed_map(s, key, val).remove(key(s[i])));
    }
}

} // verus!
