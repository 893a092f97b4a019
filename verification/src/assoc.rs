//! Association lists: sequences of key/value pairs standing for finite maps.
use vstd::prelude::*;

verus! {

/// The value of the last pair in `s` whose key is `k`.
pub open spec fn assoc_find<K, V>(s: Seq<(K, V)>, k: K) -> Option<V>
    decreases s.len(),
{
    if s.len() == 0 {
        None
    } else if s.last().0 == k {
        Some(s.last().1)
    } else {
        assoc_find(s.drop_last(), k)
    }
}

/// No key occurs twice in `s`.
pub open spec fn keys_unique<K, V>(s: Seq<(K, V)>) -> bool {
    forall|i: int, j: int| 0 <= i < j < s.len() ==> s[i].0 != s[j].0
}

/// The map that an association list stands for.
pub open spec fn assoc_map<K, V>(s: Seq<(K, V)>) -> Map<K, V> {
    Map::new(|k: K| assoc_find(s, k) is Some, |k: K| assoc_find(s, k).unwrap())
}

pub proof fn lemma_find_absent<K, V>(s: Seq<(K, V)>, k: K)
    ensures
        (assoc_find(s, k) is None) <==> (forall|i: int| 0 <= i < s.len() ==> s[i].0 != k),
    decreases s.len(),
{
    if s.len() > 0 {
        lemma_find_absent(s.drop_last(), k);
        if assoc_find(s, k) is None {
            assert forall|i: int| 0 <= i < s.len() implies s[i].0 != k by {
                if i < s.len() - 1 {
                    assert(s[i] == s.drop_last()[i]);
                }
            }
        } else if s.last().0 != k {
            let i = choose|i: int| 0 <= i < s.drop_last().len() && s.drop_last()[i].0 == k;
            assert(s[i] == s.drop_last()[i]);
        }
    }
}

pub proof fn lemma_find_at<K, V>(s: Seq<(K, V)>, i: int)
    requires
        keys_unique(s),
        0 <= i < s.len(),
    ensures
        assoc_find(s, s[i].0) == Some(s[i].1),
    decreases s.len(),
{
    if i < s.len() - 1 {
        assert(s.drop_last()[i] == s[i]);
        lemma_find_at(s.drop_last(), i);
    }
}

pub proof fn lemma_find_update<K, V>(s: Seq<(K, V)>, i: int, v: V)
    requires
        keys_unique(s),
        0 <= i < s.len(),
    ensures
        keys_unique(s.update(i, (s[i].0, v))),
        assoc_map(s.update(i, (s[i].0, v))) == assoc_map(s).insert(s[i].0, v),
{
    let k = s[i].0;
    let t = s.update(i, (k, v));
    assert forall|q: K| #[trigger] assoc_find(t, q) == (if q == k { Some(v) } else { assoc_find(s, q) }) by {
        if q == k {
            lemma_find_at(t, i);
        } else {
            lemma_find_absent(s, q);
            lemma_find_absent(t, q);
            if assoc_find(s, q) is Some {
                let j = choose|j: int| 0 <= j < s.len() && s[j].0 == q;
                lemma_find_at(s, j);
                lemma_find_at(t, j);
            }
        }
    }
    assert(assoc_map(t) =~= assoc_map(s).insert(k, v));
}

pub proof fn lemma_find_push<K, V>(s: Seq<(K, V)>, k: K, v: V)
    requires
        keys_unique(s),
        assoc_find(s, k) is None,
    ensures
        keys_unique(s.push((k, v))),
        assoc_map(s.push((k, v))) == assoc_map(s).insert(k, v),
{
    lemma_find_absent(s, k);
    let t = s.push((k, v));
    assert(t.drop_last() =~= s);
    assert forall|q: K| #[trigger] assoc_find(t, q) == (if q == k { Some(v) } else { assoc_find(s, q) }) by {
    }
    assert(assoc_map(t) =~= assoc_map(s).insert(k, v));
}


/// Index of the last pair in `s` whose key is `k`, or -1.
pub open spec fn key_index<K, V>(s: Seq<(K, V)>, k: K) -> int
    decreases s.len(),
{
    if s.len() == 0 {
        -1
    } else if s.last().0 == k {
        s.len() - 1
    } else {
        key_index(s.drop_last(), k)
    }
}

pub proof fn lemma_key_index<K, V>(s: Seq<(K, V)>, k: K)
    ensures
        -1 <= key_index(s, k) < s.len(),
        key_index(s, k) >= 0 ==> s[key_index(s, k)].0 == k,
        key_index(s, k) == -1 <==> (forall|i: int| 0 <= i < s.len() ==> s[i].0 != k),
        keys_unique(s) ==> forall|i: int| 0 <= i < s.len() && s[i].0 == k ==> key_index(s, k) == i,
    decreases s.len(),
{
    if s.len() > 0 {
        lemma_key_index(s.drop_last(), k);
        assert forall|i: int| 0 <= i < s.len() - 1 implies s.drop_last()[i] == s[i] by {}
        if s.last().0 != k && key_index(s, k) == -1 {
            assert forall|i: int| 0 <= i < s.len() implies s[i].0 != k by {
                if i < s.len() - 1 {
                    assert(s.drop_last()[i] == s[i]);
                }
            }
        }
    }
}

/// Counting one more occurrence of `k`: its count goes up by one (wrapping), or it
/// enters with a count of one.
pub open spec fn bump_count<K>(s: Seq<(K, u64)>, k: K) -> Seq<(K, u64)> {
    let i = key_index(s, k);
    if i >= 0 {
        s.update(i, (k, s[i].1.wrapping_add(1)))
    } else {
        s.push((k, 1u64))
    }
}

pub proof fn lemma_bump_count<K>(s: Seq<(K, u64)>, k: K)
    requires
        keys_unique(s),
    ensures
        keys_unique(bump_count(s, k)),
        assoc_map(bump_count(s, k)) == assoc_map(s).insert(
            k,
            if assoc_map(s).dom().contains(k) {
                assoc_map(s)[k].wrapping_add(1)
            } else {
                1u64
            },
        ),
{
    lemma_key_index(s, k);
    let i = key_index(s, k);
    if i >= 0 {
        lemma_find_at(s, i);
        lemma_find_update(s, i, s[i].1.wrapping_add(1));
    } else {
        lemma_find_absent(s, k);
        lemma_find_push(s, k, 1u64);
    }
}

} // verus!
