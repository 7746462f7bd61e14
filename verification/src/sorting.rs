//! Stable ordering of items by a numeric key, as `slice::sort_by_key` orders them.

use vstd::prelude::*;

verus! {

/// Inserts index `x` into `sorted` after every index whose key is not greater.
pub open spec fn insert_by_key(sorted: Seq<usize>, x: usize, keys: Seq<u128>) -> Seq<usize>
    decreases sorted.len(),
{
    if sorted.len() == 0 {
        seq![x]
    } else if keys[x as int] < keys[sorted[0] as int] {
        seq![x] + sorted
    } else {
        seq![sorted[0]] + insert_by_key(sorted.drop_first(), x, keys)
    }
}

/// The stable ascending order of the indices `0..n` by `keys`: the order a stable
/// sort by key puts the items in.
pub open spec fn stable_order(n: nat, keys: Seq<u128>) -> Seq<usize>
    decreases n,
{
    if n == 0 {
        Seq::empty()
    } else {
        insert_by_key(stable_order((n - 1) as nat, keys), (n - 1) as usize, keys)
    }
}

proof fn lemma_insert_at(sorted: Seq<usize>, x: usize, keys: Seq<u128>, k: int)
    requires
        0 <= k <= sorted.len(),
        x < keys.len(),
        forall|j: int| 0 <= j < sorted.len() ==> (#[trigger] sorted[j]) < keys.len(),
        forall|j: int| 0 <= j < k ==> keys[(#[trigger] sorted[j]) as int] <= keys[x as int],
        k < sorted.len() ==> keys[x as int] < keys[sorted[k] as int],
    ensures
        insert_by_key(sorted, x, keys) == sorted.insert(k, x),
    decreases sorted.len(),
{
    if sorted.len() == 0 {
        assert(sorted.insert(k, x) =~= seq![x]);
    } else if k == 0 {
        assert(sorted.insert(k, x) =~= seq![x] + sorted);
    } else {
        let rest = sorted.drop_first();
        assert forall|j: int| 0 <= j < k - 1 implies keys[(#[trigger] rest[j]) as int] <= keys[x as int] by {
            assert(rest[j] == sorted[j + 1]);
        }
        lemma_insert_at(rest, x, keys, k - 1);
        assert(sorted.insert(k, x) =~= seq![sorted[0]] + rest.insert(k - 1, x));
    }
}

proof fn lemma_insert_len_in_range(sorted: Seq<usize>, x: usize, keys: Seq<u128>, n: int)
    requires
        x < n,
        forall|j: int| 0 <= j < sorted.len() ==> (#[trigger] sorted[j]) < n,
    ensures
        insert_by_key(sorted, x, keys).len() == sorted.len() + 1,
        forall|j: int|
            0 <= j < insert_by_key(sorted, x, keys).len() ==> (#[trigger] insert_by_key(
                sorted,
                x,
                keys,
            )[j]) < n,
    decreases sorted.len(),
{
    if sorted.len() > 0 && !(keys[x as int] < keys[sorted[0] as int]) {
        let rest = sorted.drop_first();
        lemma_insert_len_in_range(rest, x, keys, n);
        let r = insert_by_key(sorted, x, keys);
        assert(r == seq![sorted[0]] + insert_by_key(rest, x, keys));
        assert forall|j: int| 0 <= j < r.len() implies (#[trigger] r[j]) < n by {
            if j > 0 {
                assert(r[j] == insert_by_key(rest, x, keys)[j - 1]);
            }
        }
    }
}

/// The indices `0..keys.len()` in the stable ascending order of their keys.
pub fn stable_order_by_key(keys: &Vec<u128>) -> (r: Vec<usize>)
    ensures
        r@ == stable_order(keys@.len() as nat, keys@),
        r@.len() == keys@.len(),
        forall|j: int| 0 <= j < r@.len() ==> (#[trigger] r@[j]) < keys@.len(),
{
    let n = keys.len();
    let mut order: Vec<usize> = Vec::new();
    let mut i: usize = 0;
    while i < n
        invariant
            n == keys@.len(),
            i <= n,
            order@ == stable_order(i as nat, keys@),
            order@.len() == i,
            forall|j: int| 0 <= j < order@.len() ==> (#[trigger] order@[j]) < i,
        decreases n - i,
    {
        let ki = keys[i];
        let mut k: usize = 0;
        while k < order.len() && keys[order[k]] <= ki
            invariant
                n == keys@.len(),
                i < n,
                ki == keys@[i as int],
                k <= order@.len(),
                order@.len() == i,
                forall|j: int| 0 <= j < order@.len() ==> (#[trigger] order@[j]) < i,
                forall|j: int| 0 <= j < k ==> keys@[(#[trigger] order@[j]) as int] <= ki,
            decreases order@.len() - k,
        {
            k = k + 1;
        }
        proof {
            assert forall|j: int| 0 <= j < order@.len() implies (#[trigger] order@[j]) < keys@.len() by {}
            lemma_insert_at(order@, i, keys@, k as int);
            lemma_insert_len_in_range(order@, i, keys@, (i + 1) as int);
            assert forall|j: int| 0 <= j < order@.len() implies (#[trigger] order@[j]) < i + 1 by {}
        }
        order.insert(k, i);
        i = i + 1;
    }
    order
}

/// Every index of a stable order is one of `0..n`.
pub proof fn lemma_stable_order_in_range(n: nat, keys: Seq<u128>)
    ensures
        stable_order(n, keys).len() == n,
        forall|j: int| 0 <= j < stable_order(n, keys).len() ==> (#[trigger] stable_order(n, keys)[j]) < n,
    decreases n,
{
    if n > 0 {
        lemma_stable_order_in_range((n - 1) as nat, keys);
        lemma_insert_len_in_range(stable_order((n - 1) as nat, keys), (n - 1) as usize, keys, n as int);
    }
}

/// Keys along a stable order never decrease.
pub open spec fn keys_nondecreasing(order: Seq<usize>, keys: Seq<u128>) -> bool {
    forall|a: int, b: int|
        0 <= a < b < order.len() ==> keys[order[a] as int] <= keys[order[b] as int]
}

proof fn lemma_insert_keeps_sorted(sorted: Seq<usize>, x: usize, keys: Seq<u128>)
    requires
        keys_nondecreasing(sorted, keys),
    ensures
        keys_nondecreasing(insert_by_key(sorted, x, keys), keys),
        insert_by_key(sorted, x, keys).len() == sorted.len() + 1,
        forall|j: int|
            0 <= j < insert_by_key(sorted, x, keys).len() ==> (#[trigger] insert_by_key(
                sorted,
                x,
                keys,
            )[j] == x || sorted.contains(insert_by_key(sorted, x, keys)[j])),
    decreases sorted.len(),
{
    let r = insert_by_key(sorted, x, keys);
    if sorted.len() == 0 {
    } else if keys[x as int] < keys[sorted[0] as int] {
        assert forall|a: int, b: int| 0 <= a < b < r.len() implies keys[r[a] as int] <= keys[r[b] as int] by {
            if a == 0 {
                assert(r[b] == sorted[b - 1]);
            } else {
                assert(r[a] == sorted[a - 1]);
                assert(r[b] == sorted[b - 1]);
            }
        }
        assert forall|j: int| 0 <= j < r.len() implies (#[trigger] r[j] == x || sorted.contains(r[j])) by {
            if j > 0 {
                assert(r[j] == sorted[j - 1]);
            }
        }
    } else {
        let rest = sorted.drop_first();
        lemma_insert_keeps_sorted(rest, x, keys);
        let ir = insert_by_key(rest, x, keys);
        assert(r == seq![sorted[0]] + ir);
        assert forall|a: int, b: int| 0 <= a < b < r.len() implies keys[r[a] as int] <= keys[r[b] as int] by {
            if a == 0 {
                let e = ir[b - 1];
                assert(r[b] == e);
                if e == x {
                } else {
                    assert(rest.contains(e));
                    let t = choose|t: int| 0 <= t < rest.len() && rest[t] == e;
                    assert(rest[t] == sorted[t + 1]);
                }
            } else {
                assert(r[a] == ir[a - 1]);
                assert(r[b] == ir[b - 1]);
            }
        }
        assert forall|j: int| 0 <= j < r.len() implies (#[trigger] r[j] == x || sorted.contains(r[j])) by {
            if j > 0 {
                let e = ir[j - 1];
                assert(r[j] == e);
                if e != x {
                    assert(rest.contains(e));
                    let t = choose|t: int| 0 <= t < rest.len() && rest[t] == e;
                    assert(sorted[t + 1] == e);
                }
            } else {
                assert(sorted[0] == r[0]);
            }
        }
    }
}

/// A stable order lists the items by non-decreasing key.
pub proof fn law_stable_order_sorted(n: nat, keys: Seq<u128>)
    ensures
        keys_nondecreasing(stable_order(n, keys), keys),
        stable_order(n, keys).len() == n,
    decreases n,
{
    if n > 0 {
        law_stable_order_sorted((n - 1) as nat, keys);
        lemma_insert_keeps_sorted(stable_order((n - 1) as nat, keys), (n - 1) as usize, keys);
    }
}

} // verus!
