//! Sorting by name.

use crate::table::{before, before_is_strict_and_total, before_is_transitive, is_before};
use crate::text::strs;
use vstd::prelude::*;

verus! {

/// The order with the index `k` put behind every index whose name is not behind
/// its own.
pub open spec fn placed(names: Seq<Seq<char>>, order: Seq<int>, k: int) -> Seq<int>
    decreases order.len(),
{
    if order.len() == 0 || !before(names[k], names[order.last()]) {
        order.push(k)
    } else {
        placed(names, order.drop_last(), k).push(order.last())
    }
}

/// The first `n` indices, in the order of their names; equal names keep their
/// order.
pub open spec fn name_order(names: Seq<Seq<char>>, n: nat) -> Seq<int>
    decreases n,
{
    if n == 0 {
        seq![]
    } else {
        placed(names, name_order(names, (n - 1) as nat), n - 1)
    }
}

pub open spec fn indices(order: Seq<usize>) -> Seq<int> {
    Seq::new(order.len(), |i: int| order[i] as int)
}

proof fn lemma_placed_tail(names: Seq<Seq<char>>, order: Seq<int>, k: int, p: int)
    requires
        0 < p <= order.len(),
        placed(names, order, k) == placed(names, order.take(p), k) + order.skip(p),
        before(names[k], names[order[p - 1]]),
    ensures
        placed(names, order, k) == placed(names, order.take(p - 1), k) + order.skip(p - 1),
{
    assert(order.take(p).drop_last() =~= order.take(p - 1));
    assert(placed(names, order.take(p), k) == placed(names, order.take(p - 1), k).push(
        order[p - 1],
    ));
    assert(placed(names, order.take(p - 1), k).push(order[p - 1]) + order.skip(p) =~= placed(
        names,
        order.take(p - 1),
        k,
    ) + order.skip(p - 1));
}

/// The indices of `names`, in the order of the names; equal names keep their
/// order.
pub fn sort_order(names: &Vec<String>) -> (r: Vec<usize>)
    ensures
        indices(r@) == name_order(strs(names@), names@.len()),
        r@.len() == names@.len(),
        forall|i: int| 0 <= i < r@.len() ==> (#[trigger] r@[i]) < names@.len(),
{
    let ghost all = strs(names@);
    let mut order: Vec<usize> = Vec::new();
    assert(indices(order@) =~= name_order(all, 0));
    for k in 0..names.len()
        invariant
            all == strs(names@),
            indices(order@) == name_order(all, k as nat),
            order@.len() == k,
            forall|i: int| 0 <= i < order@.len() ==> (#[trigger] order@[i]) < names@.len(),
    {
        let ghost now = indices(order@);
        let mut p: usize = order.len();
        assert(now.take(p as int) =~= now);
        assert(placed(all, now, k as int) + now.skip(p as int) =~= placed(all, now, k as int));
        while p > 0 && is_before(names[k].as_str(), names[order[p - 1]].as_str())
            invariant
                p <= order@.len(),
                k < names@.len(),
                all == strs(names@),
                now == indices(order@),
                forall|i: int| 0 <= i < order@.len() ==> (#[trigger] order@[i]) < names@.len(),
                placed(all, now, k as int) == placed(all, now.take(p as int), k as int)
                    + now.skip(p as int),
            decreases p,
        {
            assert(now[p - 1] == order@[p - 1] as int);
            assert(all[k as int] == names@[k as int]@);
            assert(all[now[p - 1]] == names@[order@[p - 1] as int]@);
            proof {
                lemma_placed_tail(all, now, k as int, p as int);
            }
            p -= 1;
        }
        proof {
            if p > 0 {
                assert(now[p - 1] == order@[p - 1] as int);
                assert(all[k as int] == names@[k as int]@);
                assert(all[now[p - 1]] == names@[order@[p - 1] as int]@);
                assert(now.take(p as int).last() == now[p - 1]);
            }
            assert(placed(all, now.take(p as int), k as int) == now.take(p as int).push(k as int));
        }
        let ghost previous = order@;
        order.insert(p, k);
        assert(indices(order@) =~= now.take(p as int).push(k as int) + now.skip(p as int)) by {
            assert(order@ =~= previous.insert(p as int, k));
        }
        assert forall|i: int| 0 <= i < order@.len() implies (#[trigger] order@[i])
            < names@.len() by {
            if i < p {
                assert(order@[i] == previous[i]);
            } else if i > p {
                assert(order@[i] == previous[i - 1]);
            }
        }
    }
    order
}

/// Whether the names are in order along `order`.
pub open spec fn in_name_order(names: Seq<Seq<char>>, order: Seq<int>) -> bool {
    forall|i: int, j: int|
        0 <= i < j < order.len() ==> !before(#[trigger] names[order[j]], #[trigger] names[order[i]])
}

/// Whether `order` holds every index below `n` once.
pub open spec fn holds_each_once(order: Seq<int>, n: nat) -> bool {
    &&& order.len() == n
    &&& order.no_duplicates()
    &&& forall|i: int| 0 <= i < n ==> order.contains(i)
    &&& forall|i: int| 0 <= i < order.len() ==> 0 <= #[trigger] order[i] < n
}

proof fn lemma_placed(names: Seq<Seq<char>>, order: Seq<int>, k: int)
    requires
        in_name_order(names, order),
    ensures
        in_name_order(names, placed(names, order, k)),
        placed(names, order, k).len() == order.len() + 1,
        forall|x: int|
            #[trigger] placed(names, order, k).contains(x) <==> order.contains(x) || x == k,
        placed(names, order, k).last() == k || (order.len() > 0 && placed(names, order, k).last()
            == order.last() && before(names[k], names[order.last()])),
    decreases order.len(),
{
    if order.len() == 0 || !before(names[k], names[order.last()]) {
        let r = order.push(k);
        assert forall|i: int, j: int| 0 <= i < j < r.len() implies !before(
            #[trigger] names[r[j]],
            #[trigger] names[r[i]],
        ) by {
            if j == order.len() {
                // `order[i]` is not behind the last one, and `k` is not before that.
                let last = order.last();
                if i < order.len() - 1 {
                    assert(!before(names[order[order.len() - 1]], names[order[i]]));
                }
                if before(names[k], names[order[i]]) {
                    before_is_strict_and_total(names[order[i]], names[last]);
                    if before(names[order[i]], names[last]) {
                        before_is_transitive(names[k], names[order[i]], names[last]);
                    }
                }
            }
        }
        assert forall|x: int| #[trigger] r.contains(x) <==> order.contains(x) || x == k by {
            if r.contains(x) {
                let i = choose|i: int| 0 <= i < r.len() && r[i] == x;
                if i < order.len() {
                    assert(order[i] == x);
                }
            }
            if order.contains(x) {
                let i = choose|i: int| 0 <= i < order.len() && order[i] == x;
                assert(r[i] == x);
            }
            if x == k {
                assert(r[order.len() as int] == k);
            }
        }
    } else {
        let rest = order.drop_last();
        let last = order.last();
        assert(in_name_order(names, rest)) by {
            assert forall|i: int, j: int| 0 <= i < j < rest.len() implies !before(
                #[trigger] names[rest[j]],
                #[trigger] names[rest[i]],
            ) by {
                assert(rest[i] == order[i] && rest[j] == order[j]);
                assert(!before(names[order[j]], names[order[i]]));
            }
        }
        lemma_placed(names, rest, k);
        let p = placed(names, rest, k);
        let r = p.push(last);
        assert(placed(names, order, k) == r);
        assert forall|i: int, j: int| 0 <= i < j < r.len() implies !before(
            #[trigger] names[r[j]],
            #[trigger] names[r[i]],
        ) by {
            if j == p.len() {
                assert(p.contains(p[i]));
                before_is_strict_and_total(names[k], names[last]);
                if rest.contains(p[i]) {
                    let m = choose|m: int| 0 <= m < rest.len() && rest[m] == p[i];
                    assert(order[m] == p[i]);
                    assert(!before(names[order[order.len() - 1]], names[order[m]]));
                }
            } else {
                assert(!before(names[p[j]], names[p[i]]));
            }
        }
        assert forall|x: int| #[trigger] r.contains(x) <==> order.contains(x) || x == k by {
            if r.contains(x) {
                let i = choose|i: int| 0 <= i < r.len() && r[i] == x;
                if i < p.len() {
                    assert(p.contains(x));
                    if rest.contains(x) {
                        let m = choose|m: int| 0 <= m < rest.len() && rest[m] == x;
                        assert(order[m] == x);
                    }
                } else {
                    assert(order[order.len() - 1] == x);
                }
            }
            if order.contains(x) {
                let m = choose|m: int| 0 <= m < order.len() && order[m] == x;
                if m < rest.len() {
                    assert(rest[m] == x);
                    assert(p.contains(x));
                    let i = choose|i: int| 0 <= i < p.len() && p[i] == x;
                    assert(r[i] == x);
                } else {
                    assert(r[p.len() as int] == x);
                }
            }
            if x == k {
                assert(p.contains(k));
                let i = choose|i: int| 0 <= i < p.len() && p[i] == k;
                assert(r[i] == k);
            }
        }
    }
}

proof fn lemma_placed_no_duplicates(names: Seq<Seq<char>>, order: Seq<int>, k: int)
    requires
        order.no_duplicates(),
        !order.contains(k),
        in_name_order(names, order),
    ensures
        placed(names, order, k).no_duplicates(),
    decreases order.len(),
{
    if order.len() == 0 || !before(names[k], names[order.last()]) {
        let r = order.push(k);
        assert forall|i: int, j: int| 0 <= i < j < r.len() implies r[i] != r[j] by {
            if j == order.len() {
                assert(order.contains(order[i]));
            }
        }
    } else {
        let rest = order.drop_last();
        let last = order.last();
        assert(in_name_order(names, rest)) by {
            assert forall|i: int, j: int| 0 <= i < j < rest.len() implies !before(
                #[trigger] names[rest[j]],
                #[trigger] names[rest[i]],
            ) by {
                assert(rest[i] == order[i] && rest[j] == order[j]);
                assert(!before(names[order[j]], names[order[i]]));
            }
        }
        assert(!rest.contains(k)) by {
            if rest.contains(k) {
                let m = choose|m: int| 0 <= m < rest.len() && rest[m] == k;
                assert(order[m] == k);
            }
        }
        lemma_placed_no_duplicates(names, rest, k);
        lemma_placed(names, rest, k);
        let p = placed(names, rest, k);
        let r = p.push(last);
        assert forall|i: int, j: int| 0 <= i < j < r.len() implies r[i] != r[j] by {
            if j == p.len() && p[i] == last {
                assert(p.contains(last));
                assert(last == k || rest.contains(last));
                if last == k {
                    assert(order[order.len() - 1] == k);
                } else {
                    let m = choose|m: int| 0 <= m < rest.len() && rest[m] == last;
                    assert(order[m] == order[order.len() - 1]);
                }
            }
        }
    }
}

/// The order puts the names in order and leaves none out or in twice.
pub proof fn sorting_orders_and_keeps_all(names: Seq<Seq<char>>, n: nat)
    requires
        n <= names.len(),
    ensures
        in_name_order(names, name_order(names, n)),
        holds_each_once(name_order(names, n), n),
    decreases n,
{
    if n > 0 {
        let m = (n - 1) as nat;
        sorting_orders_and_keeps_all(names, m);
        let order = name_order(names, m);
        assert(!order.contains(n - 1)) by {
            if order.contains(n - 1) {
                let i = choose|i: int| 0 <= i < order.len() && order[i] == n - 1;
                assert(order[i] < m);
            }
        }
        lemma_placed(names, order, n - 1);
        lemma_placed_no_duplicates(names, order, n - 1);
        let r = name_order(names, n);
        assert forall|i: int| 0 <= i < n implies r.contains(i) by {
            assert(placed(names, order, n - 1).contains(i) <==> order.contains(i) || i == n - 1);
        }
        assert forall|i: int| 0 <= i < r.len() implies 0 <= #[trigger] r[i] < n by {
            assert(r.contains(r[i]));
            if order.contains(r[i]) {
                let j = choose|j: int| 0 <= j < order.len() && order[j] == r[i];
                assert(order[j] < m);
            }
        }
    }
}

} // verus!
