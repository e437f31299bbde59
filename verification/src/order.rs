//! Stable ordering by an integer key.

use vstd::prelude::*;

verus! {

/// Whether position `a` of `keys` comes before position `b` in the stable
/// ascending order: by key, and among equal keys by position.
pub open spec fn precedes(keys: Seq<i64>, a: int, b: int) -> bool {
    keys[a] < keys[b] || (keys[a] == keys[b] && a < b)
}

/// Whether position `p` occurs in `order`.
pub open spec fn lists(order: Seq<usize>, p: int) -> bool {
    exists|k: int| 0 <= k < order.len() && order[k] == p
}

/// Whether `order` lists the positions of `keys`, each once, in the stable
/// ascending order of their keys.
pub open spec fn is_stable_order(keys: Seq<i64>, order: Seq<usize>) -> bool {
    &&& order.len() == keys.len()
    &&& forall|k: int| 0 <= k < order.len() ==> (#[trigger] order[k]) < keys.len()
    &&& forall|p: int| 0 <= p < keys.len() ==> #[trigger] lists(order, p)
    &&& forall|a: int, b: int|
        0 <= a < b < order.len() ==> precedes(keys, #[trigger] order[a] as int, #[trigger] order[b] as int)
}

/// No position occurs twice in a stable order.
pub proof fn lemma_stable_order_distinct(keys: Seq<i64>, order: Seq<usize>, a: int, b: int)
    requires
        is_stable_order(keys, order),
        0 <= a < order.len(),
        0 <= b < order.len(),
        a != b,
    ensures
        order[a] != order[b],
{
    if a < b {
        assert(precedes(keys, order[a] as int, order[b] as int));
    } else {
        assert(precedes(keys, order[b] as int, order[a] as int));
    }
}

/// Whether each item of `items` comes before every later one.
pub open spec fn strictly_sorted<T>(items: Seq<T>, before: spec_fn(T, T) -> bool) -> bool {
    forall|i: int, j: int| 0 <= i < j < items.len() ==> before(#[trigger] items[i], #[trigger] items[j])
}

/// Whether `first` and `second` hold the same items, however often and in
/// whatever order.
pub open spec fn same_items<T>(first: Seq<T>, second: Seq<T>) -> bool {
    &&& forall|i: int| 0 <= i < first.len() ==> second.contains(#[trigger] first[i])
    &&& forall|i: int| 0 <= i < second.len() ==> first.contains(#[trigger] second[i])
}

/// Whether `before` never puts two items each before the other.
pub open spec fn one_way<T>(before: spec_fn(T, T) -> bool) -> bool {
    forall|x: T, y: T| #![trigger before(x, y)] !(before(x, y) && before(y, x))
}

/// Two strictly sorted sequences of the same items agree at every place that
/// both have.
proof fn lemma_sorted_same_at<T>(first: Seq<T>, second: Seq<T>, before: spec_fn(T, T) -> bool, k: int)
    requires
        one_way(before),
        strictly_sorted(first, before),
        strictly_sorted(second, before),
        same_items(first, second),
        0 <= k < first.len(),
        k < second.len(),
    ensures
        first[k] == second[k],
    decreases k,
{
    assert(second.contains(first[k]));
    let m = choose|m: int| 0 <= m < second.len() && second[m] == first[k];
    assert(first.contains(second[k]));
    let n = choose|n: int| 0 <= n < first.len() && first[n] == second[k];
    if m < k {
        lemma_sorted_same_at(first, second, before, m);
        assert(before(first[m], first[k]));
    } else if n < k {
        lemma_sorted_same_at(first, second, before, n);
        assert(before(second[n], second[k]));
    } else if m > k && n > k {
        assert(before(second[k], second[m]));
        assert(before(first[k], first[n]));
    }
}

/// Strictly sorted sequences of the same items are the same sequence: what
/// is to be listed and the order fix the list.
pub proof fn lemma_sorted_unique<T>(first: Seq<T>, second: Seq<T>, before: spec_fn(T, T) -> bool)
    requires
        one_way(before),
        strictly_sorted(first, before),
        strictly_sorted(second, before),
        same_items(first, second),
    ensures
        first == second,
{
    if first.len() < second.len() {
        let extra = second[first.len() as int];
        assert(first.contains(extra));
        let n = choose|n: int| 0 <= n < first.len() && first[n] == extra;
        lemma_sorted_same_at(first, second, before, n);
        assert(before(second[n], second[first.len() as int]));
    } else if second.len() < first.len() {
        let extra = first[second.len() as int];
        assert(second.contains(extra));
        let m = choose|m: int| 0 <= m < second.len() && second[m] == extra;
        lemma_sorted_same_at(first, second, before, m);
        assert(before(first[m], first[second.len() as int]));
    }
    assert forall|k: int| 0 <= k < first.len() implies first[k] == second[k] by {
        lemma_sorted_same_at(first, second, before, k);
    }
    assert(first =~= second);
}

/// The stable ascending order of `keys` is unique.
pub proof fn lemma_stable_order_unique(keys: Seq<i64>, first: Seq<usize>, second: Seq<usize>)
    requires
        is_stable_order(keys, first),
        is_stable_order(keys, second),
    ensures
        first == second,
{
    let before = |a: usize, b: usize| precedes(keys, a as int, b as int);
    assert forall|i: int| 0 <= i < first.len() implies second.contains(#[trigger] first[i]) by {
        assert(lists(second, first[i] as int));
        let k = choose|k: int| 0 <= k < second.len() && second[k] == first[i] as int;
        assert(second[k] == first[i]);
    }
    assert forall|i: int| 0 <= i < second.len() implies first.contains(#[trigger] second[i]) by {
        assert(lists(first, second[i] as int));
        let k = choose|k: int| 0 <= k < first.len() && first[k] == second[i] as int;
        assert(first[k] == second[i]);
    }
    lemma_sorted_unique(first, second, before);
}

/// Orders the positions of `keys` by key, ascending; positions with equal
/// keys stay in their order.
pub fn stable_order(keys: &Vec<i64>) -> (order: Vec<usize>)
    ensures
        is_stable_order(keys@, order@),
{
    let n = keys.len();
    let mut order: Vec<usize> = Vec::new();
    let mut i: usize = 0;
    while i < n
        invariant
            n == keys.len(),
            i <= n,
            order.len() == i,
            forall|k: int| 0 <= k < order.len() ==> (#[trigger] order[k]) < i,
            forall|p: int| 0 <= p < i ==> #[trigger] lists(order@, p),
            forall|a: int, b: int|
                0 <= a < b < order.len() ==> precedes(
                    keys@,
                    #[trigger] order[a] as int,
                    #[trigger] order[b] as int,
                ),
        decreases n - i,
    {
        let key = keys[i];
        let mut at: usize = order.len();
        while at > 0 && keys[order[at - 1]] > key
            invariant
                n == keys.len(),
                i < n,
                key == keys[i as int],
                at <= order.len(),
                order.len() == i,
                forall|k: int| 0 <= k < order.len() ==> (#[trigger] order[k]) < i,
                forall|k: int| at <= k < order.len() ==> keys[(#[trigger] order[k]) as int] > key,
            decreases at,
        {
            at = at - 1;
        }
        let ghost before = order@;
        proof {
            assert forall|k: int| 0 <= k < at implies keys[(#[trigger] before[k]) as int] <= key by {
                if k < at - 1 {
                    assert(precedes(keys@, before[k] as int, before[at - 1] as int));
                }
            }
        }
        order.insert(at, i);
        proof {
            let after = order@;
            assert forall|k: int| 0 <= k < after.len() implies (#[trigger] after[k]) < i + 1 by {
                if k < at {
                    assert(after[k] == before[k]);
                } else if k > at {
                    assert(after[k] == before[k - 1]);
                }
            }
            assert forall|p: int| 0 <= p < i + 1 implies #[trigger] lists(after, p) by {
                if p == i {
                    assert(after[at as int] == p);
                } else {
                    assert(lists(before, p));
                    let k = choose|k: int| 0 <= k < before.len() && before[k] == p;
                    if k < at {
                        assert(after[k] == p);
                    } else {
                        assert(after[k + 1] == p);
                    }
                }
            }
            assert forall|a: int, b: int| 0 <= a < b < after.len() implies precedes(
                keys@,
                #[trigger] after[a] as int,
                #[trigger] after[b] as int,
            ) by {
                let x = if a < at { a } else { a - 1 };
                let y = if b < at { b } else { b - 1 };
                if a != at && b != at {
                    assert(after[a] == before[x]);
                    assert(after[b] == before[y]);
                    assert(precedes(keys@, before[x] as int, before[y] as int));
                } else if a == at {
                    assert(after[b] == before[y]);
                    assert(keys@[before[y] as int] > key);
                } else {
                    assert(after[a] == before[x]);
                    assert(keys@[before[x] as int] <= key);
                    assert(before[x] < i);
                }
            }
        }
        i = i + 1;
    }
    order
}

/// Whether position `a` of `keys` comes before position `b` among the
/// positions that hold a key: by key, and among equal keys by position.
pub open spec fn comes_first(keys: Seq<Option<i64>>, a: int, b: int) -> bool {
    keys[a]->0 < keys[b]->0 || (keys[a]->0 == keys[b]->0 && a < b)
}

/// Whether `picked` lists the positions of `keys` that hold a key, each once
/// and no others, in the stable ascending order of their keys.
pub open spec fn is_selection(keys: Seq<Option<i64>>, picked: Seq<usize>) -> bool {
    &&& forall|k: int|
        0 <= k < picked.len() ==> (#[trigger] picked[k]) < keys.len() && keys[picked[k] as int] is Some
    &&& forall|p: int| 0 <= p < keys.len() && keys[p] is Some ==> #[trigger] lists(picked, p)
    &&& forall|a: int, b: int|
        0 <= a < b < picked.len() ==> comes_first(
            keys,
            #[trigger] picked[a] as int,
            #[trigger] picked[b] as int,
        )
}

/// Picks the positions of `keys` that hold a key and orders them by key,
/// ascending; positions with equal keys stay in their order.
pub fn select_in_order(keys: &Vec<Option<i64>>) -> (picked: Vec<usize>)
    ensures
        is_selection(keys@, picked@),
{
    let n = keys.len();
    let mut chosen: Vec<usize> = Vec::new();
    let mut dense: Vec<i64> = Vec::new();
    let mut i: usize = 0;
    while i < n
        invariant
            n == keys.len(),
            i <= n,
            chosen.len() == dense.len(),
            forall|k: int|
                0 <= k < chosen.len() ==> (#[trigger] chosen[k]) < i && keys[chosen[k] as int] == Some(
                    dense[k],
                ),
            forall|a: int, b: int|
                0 <= a < b < chosen.len() ==> (#[trigger] chosen[a]) < (#[trigger] chosen[b]),
            forall|p: int| 0 <= p < i && keys[p] is Some ==> #[trigger] lists(chosen@, p),
        decreases n - i,
    {
        let ghost before = chosen@;
        match keys[i] {
            Some(key) => {
                chosen.push(i);
                dense.push(key);
            },
            None => {},
        }
        proof {
            assert forall|p: int| 0 <= p < i + 1 && keys[p] is Some implies #[trigger] lists(
                chosen@,
                p,
            ) by {
                if p == i {
                    assert(chosen@[chosen.len() - 1] == p);
                } else {
                    assert(lists(before, p));
                    let k = choose|k: int| 0 <= k < before.len() && before[k] == p;
                    assert(chosen@[k] == p);
                }
            }
        }
        i = i + 1;
    }
    let order = stable_order(&dense);
    let mut picked: Vec<usize> = Vec::new();
    let mut k: usize = 0;
    while k < order.len()
        invariant
            k <= order.len(),
            picked.len() == k,
            is_stable_order(dense@, order@),
            chosen.len() == dense.len(),
            forall|j: int| 0 <= j < k ==> (#[trigger] picked[j]) == chosen[order[j] as int],
        decreases order.len() - k,
    {
        assert(order[k as int] < dense.len());
        picked.push(chosen[order[k]]);
        k = k + 1;
    }
    proof {
        assert forall|j: int| 0 <= j < picked.len() implies (#[trigger] picked[j]) < keys.len()
            && keys[picked[j] as int] is Some by {
            assert(order[j] < dense.len());
        }
        assert forall|p: int| 0 <= p < keys.len() && keys[p] is Some implies #[trigger] lists(
            picked@,
            p,
        ) by {
            assert(lists(chosen@, p));
            let c = choose|c: int| 0 <= c < chosen.len() && chosen[c] == p;
            assert(lists(order@, c));
            let j = choose|j: int| 0 <= j < order.len() && order[j] == c;
            assert(picked[j] == p);
        }
        assert forall|a: int, b: int| 0 <= a < b < picked.len() implies comes_first(
            keys@,
            #[trigger] picked[a] as int,
            #[trigger] picked[b] as int,
        ) by {
            let x = order[a] as int;
            let y = order[b] as int;
            assert(x < dense.len() && y < dense.len());
            assert(precedes(dense@, x, y));
            assert(keys[chosen[x] as int] == Some(dense[x]));
            assert(keys[chosen[y] as int] == Some(dense[y]));
        }
    }
    picked
}

} // verus!
