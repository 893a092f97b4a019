//! Ranking by decreasing key: a stable insertion sort of positions.
use vstd::prelude::*;

verus! {

/// `order` lists each position `0..n` exactly once.
pub open spec fn is_index_perm(order: Seq<usize>, n: nat) -> bool {
    &&& order.len() == n
    &&& forall|i: int| 0 <= i < n ==> order[i] < n
    &&& forall|i: int, j: int| 0 <= i < j < n ==> order[i] != order[j]
    &&& forall|x: usize| x < n ==> order.contains(x)
}

/// The keys along `order` never increase.
pub open spec fn sorted_desc_by_key(order: Seq<usize>, keys: Seq<u64>) -> bool {
    forall|i: int, j: int| 0 <= i < j < order.len() ==> keys[order[i] as int] >= keys[order[j] as int]
}

/// Positions `0..keys.len()` in decreasing order of key; equal keys keep their order.
pub fn rank_desc(keys: &Vec<u64>) -> (order: Vec<usize>)
    ensures
        is_index_perm(order@, keys@.len()),
        sorted_desc_by_key(order@, keys@),
{
    let mut order: Vec<usize> = Vec::new();
    let n = keys.len();
    let mut i: usize = 0;
    while i < n
        invariant
            i <= n,
            n == keys@.len(),
            is_index_perm(order@, i as nat),
            sorted_desc_by_key(order@, keys@),
        decreases n - i,
    {
        let k = keys[i];
        let mut p: usize = 0;
        while p < order.len() && keys[order[p]] >= k
            invariant
                p <= order@.len(),
                order@.len() == i,
                i < n,
                n == keys@.len(),
                is_index_perm(order@, i as nat),
                forall|q: int| 0 <= q < p ==> keys@[order@[q] as int] >= k,
            decreases order.len() - p,
        {
            p = p + 1;
        }
        let ghost old_order = order@;
        order.insert(p, i);
        proof {
            assert(p < old_order.len() ==> keys@[old_order[p as int] as int] < k);
            assert forall|a: int, b: int| 0 <= a < b < order@.len() implies keys@[order@[a] as int]
                >= keys@[order@[b] as int] by {
                if b < p {
                } else if b == p {
                } else if a < p {
                } else if a == p {
                    assert(keys@[old_order[p as int] as int] < k);
                    if b - 1 > p {
                        assert(keys@[old_order[p as int] as int] >= keys@[old_order[b - 1] as int]);
                    }
                } else {
                }
            }
            assert forall|x: usize| x < i + 1 implies order@.contains(x) by {
                if x == i {
                    assert(order@[p as int] == x);
                } else {
                    assert(old_order.contains(x));
                    let j = choose|j: int| 0 <= j < old_order.len() && old_order[j] == x;
                    if j < p {
                        assert(order@[j] == x);
                    } else {
                        assert(order@[j + 1] == x);
                    }
                }
            }
            assert forall|a: int, b: int| 0 <= a < b < i + 1 implies order@[a] != order@[b] by {
                if a == p || b == p {
                } else {
                }
            }
        }
        i = i + 1;
    }
    order
}

/// What ranking guarantees of the first `m` places: a position outside them has a key no
/// larger than any key inside them.
pub proof fn lemma_top_places(order: Seq<usize>, keys: Seq<u64>, m: int, x: usize, k: int)
    requires
        is_index_perm(order, keys.len()),
        sorted_desc_by_key(order, keys),
        0 <= k < m <= order.len(),
        x < keys.len(),
        forall|q: int| 0 <= q < m ==> order[q] != x,
    ensures
        keys[x as int] <= keys[order[k] as int],
{
    assert(order.contains(x));
    let j = choose|j: int| 0 <= j < order.len() && order[j] == x;
    assert(j >= m);
}

} // verus!
