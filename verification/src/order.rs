//! Stable ordering by a pair of numbers.
use vstd::prelude::*;

verus! {

/// Whether the item at `a` comes before the one at `b`: by the first number,
/// then by the second, then by position.
pub open spec fn comes_before(keys: Seq<(int, int)>, a: int, b: int) -> bool {
    ||| keys[a].0 < keys[b].0
    ||| keys[a].0 == keys[b].0 && keys[a].1 < keys[b].1
    ||| keys[a] == keys[b] && a < b
}

/// Whether `perm` lists the positions of all items in ascending order of their
/// keys, equal keys in their given order.
pub open spec fn is_stable_order(keys: Seq<(int, int)>, perm: Seq<int>) -> bool {
    &&& perm.len() == keys.len()
    &&& forall|i: int| 0 <= i < perm.len() ==> 0 <= #[trigger] perm[i] < keys.len()
    &&& forall|v: int| 0 <= v < keys.len() ==> #[trigger] perm.contains(v)
    &&& forall|i: int, j: int|
        0 <= i < j < perm.len() ==> comes_before(keys, #[trigger] perm[i], #[trigger] perm[j])
}

/// The positions of all items in ascending order of their keys, equal keys in
/// their given order.
pub open spec fn stable_order(keys: Seq<(int, int)>) -> Seq<int> {
    choose|perm: Seq<int>| is_stable_order(keys, perm)
}

/// The items in ascending order of their keys, equal keys in their given order.
pub open spec fn arranged<T>(items: Seq<T>, keys: Seq<(int, int)>) -> Seq<T> {
    stable_order(keys).map_values(|i: int| items[i])
}

/// There is at most one stable order.
pub proof fn lemma_stable_order_unique(keys: Seq<(int, int)>, p: Seq<int>, q: Seq<int>)
    requires
        is_stable_order(keys, p),
        is_stable_order(keys, q),
    ensures
        p == q,
{
    assert forall|i: int| 0 <= i < p.len() implies p[i] == q[i] by {
        lemma_stable_order_agrees(keys, p, q, i);
    }
    assert(p =~= q);
}

proof fn lemma_stable_order_agrees(keys: Seq<(int, int)>, p: Seq<int>, q: Seq<int>, i: int)
    requires
        is_stable_order(keys, p),
        is_stable_order(keys, q),
        0 <= i < p.len(),
    ensures
        p[i] == q[i],
    decreases i,
{
    assert forall|k: int| 0 <= k < i implies p[k] == q[k] by {
        lemma_stable_order_agrees(keys, p, q, k);
    }
    if p[i] != q[i] {
        assert(q.contains(p[i]));
        let j = choose|j: int| 0 <= j < q.len() && q[j] == p[i];
        if j < i {
            assert(comes_before(keys, p[j], p[i]));
        }
        assert(comes_before(keys, q[i], q[j]));
        assert(p.contains(q[i]));
        let l = choose|l: int| 0 <= l < p.len() && p[l] == q[i];
        if l < i {
            assert(comes_before(keys, q[l], q[i]));
        }
        assert(comes_before(keys, p[i], p[l]));
    }
}

/// The keys as mathematical integers.
pub open spec fn as_keys(keys: Seq<(i64, i128)>) -> Seq<(int, int)> {
    keys.map_values(|k: (i64, i128)| (k.0 as int, k.1 as int))
}

/// Positions as mathematical integers.
pub open spec fn as_positions(perm: Seq<usize>) -> Seq<int> {
    perm.map_values(|i: usize| i as int)
}

proof fn lemma_insert_keeps_order(keys: Seq<(int, int)>, perm: Seq<int>, k: int, pos: int)
    requires
        0 <= k < keys.len(),
        is_stable_order(keys.take(k), perm),
        0 <= pos <= perm.len(),
        forall|i: int| 0 <= i < pos ==> comes_before(keys, #[trigger] perm[i], k),
        forall|i: int| pos <= i < perm.len() ==> comes_before(keys, k, #[trigger] perm[i]),
    ensures
        is_stable_order(keys.take(k + 1), perm.insert(pos, k)),
{
    let before = keys.take(k);
    let after = keys.take(k + 1);
    let out = perm.insert(pos, k);
    assert forall|i: int| 0 <= i < out.len() implies 0 <= #[trigger] out[i] < after.len() by {
        if i < pos {
            assert(out[i] == perm[i]);
        } else if i > pos {
            assert(out[i] == perm[i - 1]);
        }
    }
    assert forall|v: int| 0 <= v < after.len() implies #[trigger] out.contains(v) by {
        if v == k {
            assert(out[pos] == k);
        } else {
            assert(perm.contains(v));
            let i = choose|i: int| 0 <= i < perm.len() && perm[i] == v;
            if i < pos {
                assert(out[i] == v);
            } else {
                assert(out[i + 1] == v);
            }
        }
    }
    assert forall|i: int, j: int| 0 <= i < j < out.len() implies comes_before(
        after,
        #[trigger] out[i],
        #[trigger] out[j],
    ) by {
        let a = if i < pos { i } else { i - 1 };
        let b = if j < pos { j } else { j - 1 };
        if i == pos {
            assert(out[j] == perm[b]);
        } else if j == pos {
            assert(out[i] == perm[a]);
        } else {
            assert(out[i] == perm[a] && out[j] == perm[b]);
            assert(comes_before(before, perm[a], perm[b]));
        }
    }
}

/// There is a stable order.
pub proof fn lemma_stable_order_exists(keys: Seq<(int, int)>)
    ensures
        is_stable_order(keys, stable_order(keys)),
    decreases keys.len(),
{
    if keys.len() == 0 {
        assert(is_stable_order(keys, Seq::<int>::empty()));
    } else {
        let k = keys.len() - 1;
        let front = keys.take(k);
        lemma_stable_order_exists(front);
        let perm = stable_order(front);
        let pos = lemma_place(keys, perm, k, perm.len() as int);
        lemma_insert_keeps_order(keys, perm, k, pos);
        assert(keys.take(k + 1) =~= keys);
        assert(is_stable_order(keys, perm.insert(pos, k)));
    }
}

/// Finds the place of the item at `k` among those before it, given that it comes
/// before all from `top` on.
proof fn lemma_place(keys: Seq<(int, int)>, perm: Seq<int>, k: int, top: int) -> (pos: int)
    requires
        0 <= k < keys.len(),
        is_stable_order(keys.take(k), perm),
        0 <= top <= perm.len(),
        forall|i: int| top <= i < perm.len() ==> comes_before(keys, k, #[trigger] perm[i]),
    ensures
        0 <= pos <= perm.len(),
        forall|i: int| 0 <= i < pos ==> comes_before(keys, #[trigger] perm[i], k),
        forall|i: int| pos <= i < perm.len() ==> comes_before(keys, k, #[trigger] perm[i]),
    decreases top,
{
    if top > 0 && comes_before(keys, k, perm[top - 1]) {
        lemma_place(keys, perm, k, top - 1)
    } else {
        assert forall|i: int| 0 <= i < top implies comes_before(keys, #[trigger] perm[i], k) by {
            assert(0 <= perm[top - 1] < k);
            if i < top - 1 {
                assert(comes_before(keys.take(k), perm[i], perm[top - 1]));
            }
        }
        top
    }
}

/// Whether the first key is greater than the second.
fn greater(a: (i64, i128), b: (i64, i128)) -> (r: bool)
    ensures
        r == (a.0 > b.0 || (a.0 == b.0 && a.1 > b.1)),
{
    a.0 > b.0 || (a.0 == b.0 && a.1 > b.1)
}

/// Finds the stable order of items from their keys.
pub fn find_stable_order(keys: &Vec<(i64, i128)>) -> (perm: Vec<usize>)
    ensures
        as_positions(perm@) == stable_order(as_keys(keys@)),
        is_stable_order(as_keys(keys@), as_positions(perm@)),
{
    let ghost all = as_keys(keys@);
    let mut perm: Vec<usize> = Vec::new();
    assert(is_stable_order(all.take(0), as_positions(perm@)));
    for k in 0..keys.len()
        invariant
            all == as_keys(keys@),
            is_stable_order(all.take(k as int), as_positions(perm@)),
    {
        let ghost now = as_positions(perm@);
        assert forall|i: int| 0 <= i < perm@.len() implies 0 <= (#[trigger] perm@[i]) < k by {
            assert(now[i] == perm@[i]);
        }
        let mut pos: usize = perm.len();
        while pos > 0 && greater(keys[perm[pos - 1]], keys[k])
            invariant
                pos <= perm@.len(),
                k < keys@.len(),
                all == as_keys(keys@),
                now == as_positions(perm@),
                forall|i: int| 0 <= i < perm@.len() ==> 0 <= (#[trigger] perm@[i]) < k,
                forall|i: int|
                    pos <= i < now.len() ==> comes_before(all, k as int, #[trigger] now[i]),
            decreases pos,
        {
            assert(now[pos - 1] == perm@[pos - 1]);
            pos = pos - 1;
        }
        proof {
            assert forall|i: int| 0 <= i < pos implies comes_before(
                all,
                #[trigger] now[i],
                k as int,
            ) by {
                assert(now[i] == perm@[i]);
                assert(now[pos - 1] == perm@[pos - 1]);
                if i < pos - 1 {
                    assert(comes_before(all.take(k as int), now[i], now[pos - 1]));
                }
            }
            lemma_insert_keeps_order(all, now, k as int, pos as int);
        }
        perm.insert(pos, k);
        assert(as_positions(perm@) =~= now.insert(pos as int, k as int));
    }
    proof {
        assert(all.take(keys@.len() as int) =~= all);
        lemma_stable_order_unique(all, as_positions(perm@), stable_order(all));
    }
    perm
}

/// Arranging keeps the number of items, every item stays, and they come in
/// ascending order of their keys.
pub proof fn lemma_arranged<T>(items: Seq<T>, keys: Seq<(int, int)>)
    requires
        items.len() == keys.len(),
    ensures
        arranged(items, keys).len() == items.len(),
        forall|x: T| arranged(items, keys).contains(x) <==> items.contains(x),
        forall|i: int, j: int|
            0 <= i < j < items.len() ==> comes_before(
                keys,
                #[trigger] stable_order(keys)[i],
                #[trigger] stable_order(keys)[j],
            ),
{
    lemma_stable_order_exists(keys);
    let perm = stable_order(keys);
    let out = arranged(items, keys);
    assert forall|x: T| items.contains(x) implies out.contains(x) by {
        let v = choose|v: int| 0 <= v < items.len() && items[v] == x;
        assert(perm.contains(v));
        let i = choose|i: int| 0 <= i < perm.len() && perm[i] == v;
        assert(out[i] == x);
    }
    assert forall|x: T| out.contains(x) implies items.contains(x) by {
        let i = choose|i: int| 0 <= i < out.len() && out[i] == x;
        assert(items[perm[i]] == x);
    }
}

/// Items with equal keys stay in the order in which they were given.
pub proof fn law_equal_keys_keep_their_order(keys: Seq<(int, int)>, i: int, j: int)
    requires
        0 <= i < j < keys.len(),
        keys[stable_order(keys)[i]] == keys[stable_order(keys)[j]],
    ensures
        stable_order(keys)[i] < stable_order(keys)[j],
{
    lemma_stable_order_exists(keys);
    let perm = stable_order(keys);
    assert(comes_before(keys, perm[i], perm[j]));
}

} // verus!
