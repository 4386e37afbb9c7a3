//! Stable sorting of positions by the values they refer to.

use crate::order::Relation;
use crate::value::{views_of, Value, ValueView};
use vstd::prelude::*;

verus! {

/// Whether the item at position `a` must come before the item at position
/// `b`: its value is smaller when sorting upwards, greater when sorting
/// downwards. Values that stand in no relation, or are equal, impose no
/// order.
pub open spec fn precedes(keys: Seq<ValueView>, ascending: bool, a: int, b: int) -> bool {
    match keys[a].relation(keys[b]) {
        Some(Relation::Less) => ascending,
        Some(Relation::Greater) => !ascending,
        _ => false,
    }
}

/// A sorted list of positions with one more position put in: it goes
/// behind every position it need not precede, as far back as possible.
pub open spec fn inserted(order: Seq<int>, keys: Seq<ValueView>, ascending: bool, x: int) -> Seq<
    int,
>
    decreases order.len(),
{
    if order.len() == 0 {
        seq![x]
    } else if precedes(keys, ascending, x, order.last()) {
        inserted(order.drop_last(), keys, ascending, x).push(order.last())
    } else {
        order.push(x)
    }
}

/// The first `n` positions in sorted order: each position in turn is put
/// into the sorted list of those before it. Positions whose values impose
/// no order on each other stay in the order they had.
pub open spec fn sorted_order(keys: Seq<ValueView>, ascending: bool, n: nat) -> Seq<int>
    decreases n,
{
    if n == 0 {
        Seq::empty()
    } else {
        inserted(sorted_order(keys, ascending, (n - 1) as nat), keys, ascending, n - 1)
    }
}

/// Putting a position in is the same as inserting it at the place behind
/// which every position must follow it and before which the nearest one
/// need not.
pub proof fn lemma_inserted_at(
    order: Seq<int>,
    keys: Seq<ValueView>,
    ascending: bool,
    x: int,
    p: int,
)
    requires
        0 <= p <= order.len(),
        forall|j: int| p <= j < order.len() ==> precedes(keys, ascending, x, #[trigger] order[j]),
        p > 0 ==> !precedes(keys, ascending, x, order[p - 1]),
    ensures
        inserted(order, keys, ascending, x) == order.insert(p, x),
    decreases order.len(),
{
    if order.len() == 0 {
        assert(order.insert(p, x) =~= seq![x]);
    } else if p == order.len() {
        assert(order.insert(p, x) =~= order.push(x));
    } else {
        assert(precedes(keys, ascending, x, order[order.len() - 1]));
        lemma_inserted_at(order.drop_last(), keys, ascending, x, p);
        assert(order.drop_last().insert(p, x).push(order.last()) =~= order.insert(p, x));
    }
}

/// Putting a position in adds it once and keeps every other position.
pub proof fn lemma_inserted_contents(
    order: Seq<int>,
    keys: Seq<ValueView>,
    ascending: bool,
    x: int,
)
    ensures
        inserted(order, keys, ascending, x).len() == order.len() + 1,
        inserted(order, keys, ascending, x).to_multiset() == order.to_multiset().insert(x),
    decreases order.len(),
{
    broadcast use vstd::seq_lib::group_to_multiset_ensures;

    if order.len() == 0 {
        assert(order =~= Seq::empty());
        assert(seq![x] =~= Seq::<int>::empty().push(x));
    } else if precedes(keys, ascending, x, order.last()) {
        lemma_inserted_contents(order.drop_last(), keys, ascending, x);
        assert(order =~= order.drop_last().push(order.last()));
        assert(inserted(order.drop_last(), keys, ascending, x).push(order.last()).to_multiset()
            =~= order.to_multiset().insert(x));
    }
}

/// The sorted order of `n` positions holds each of `0..n` exactly once.
pub proof fn lemma_sorted_order_is_permutation(keys: Seq<ValueView>, ascending: bool, n: nat)
    ensures
        sorted_order(keys, ascending, n).len() == n,
        sorted_order(keys, ascending, n).to_multiset() == Seq::new(n, |i: int| i).to_multiset(),
        forall|i: int|
            0 <= i < n ==> 0 <= #[trigger] sorted_order(keys, ascending, n)[i] < n,
    decreases n,
{
    broadcast use vstd::seq_lib::group_to_multiset_ensures;

    if n == 0 {
        assert(sorted_order(keys, ascending, n) =~= Seq::new(n, |i: int| i));
    } else {
        let before = sorted_order(keys, ascending, (n - 1) as nat);
        lemma_sorted_order_is_permutation(keys, ascending, (n - 1) as nat);
        lemma_inserted_contents(before, keys, ascending, n - 1);
        assert(Seq::new(n, |i: int| i) =~= Seq::new((n - 1) as nat, |i: int| i).push(n - 1));
        let after = sorted_order(keys, ascending, n);
        assert forall|i: int| 0 <= i < n implies 0 <= #[trigger] after[i] < n by {
            assert(after.to_multiset().contains(after[i]));
            if after[i] != n - 1 {
                assert(before.to_multiset().contains(after[i]));
                let w = choose|w: int| 0 <= w < before.len() && before[w] == after[i];
                assert(0 <= before[w] < n - 1);
            }
        }
    }
}

/// In a list sorted upwards no position with `Null` follows one without;
/// in a list sorted downwards none precedes one without.
pub open spec fn nulls_at_end(order: Seq<int>, keys: Seq<ValueView>, ascending: bool) -> bool {
    forall|i: int, j: int|
        0 <= i < j < order.len() ==> if ascending {
            keys[#[trigger] order[j]] is Null ==> keys[#[trigger] order[i]] is Null
        } else {
            keys[order[i]] is Null ==> keys[order[j]] is Null
        }
}

/// Putting a position in keeps the `Null`s at their end.
pub proof fn lemma_inserted_keeps_nulls(
    order: Seq<int>,
    keys: Seq<ValueView>,
    ascending: bool,
    x: int,
)
    requires
        nulls_at_end(order, keys, ascending),
    ensures
        nulls_at_end(inserted(order, keys, ascending, x), keys, ascending),
    decreases order.len(),
{
    let after = inserted(order, keys, ascending, x);
    if order.len() == 0 {
    } else if precedes(keys, ascending, x, order.last()) {
        let front = order.drop_last();
        assert forall|i: int, j: int| 0 <= i < j < front.len() implies if ascending {
            keys[#[trigger] front[j]] is Null ==> keys[#[trigger] front[i]] is Null
        } else {
            keys[front[i]] is Null ==> keys[front[j]] is Null
        } by {
            assert(front[i] == order[i] && front[j] == order[j]);
        }
        lemma_inserted_keeps_nulls(front, keys, ascending, x);
        lemma_inserted_contents(front, keys, ascending, x);
        let inner = inserted(front, keys, ascending, x);
        let last = order.last();
        assert forall|i: int, j: int| 0 <= i < j < after.len() implies if ascending {
            keys[#[trigger] after[j]] is Null ==> keys[#[trigger] after[i]] is Null
        } else {
            keys[after[i]] is Null ==> keys[after[j]] is Null
        } by {
            if j < inner.len() {
                assert(after[i] == inner[i] && after[j] == inner[j]);
            } else {
                assert(after[j] == last);
                assert(after[i] == inner[i]);
                lemma_inserted_member(front, keys, ascending, x, i);
                if inner[i] != x {
                    let w = choose|w: int| 0 <= w < front.len() && front[w] == inner[i];
                    assert(order[w] == front[w]);
                    assert(order[order.len() - 1] == last);
                }
            }
        }
    } else {
        assert forall|i: int, j: int| 0 <= i < j < after.len() implies if ascending {
            keys[#[trigger] after[j]] is Null ==> keys[#[trigger] after[i]] is Null
        } else {
            keys[after[i]] is Null ==> keys[after[j]] is Null
        } by {
            if j < order.len() {
                assert(after[i] == order[i] && after[j] == order[j]);
            } else {
                assert(after[j] == x);
                assert(after[i] == order[i]);
                assert(order[order.len() - 1] == order.last());
            }
        }
    }
}

/// Every position of a list after putting `x` in is `x` or a position of
/// the list before.
pub proof fn lemma_inserted_member(
    order: Seq<int>,
    keys: Seq<ValueView>,
    ascending: bool,
    x: int,
    i: int,
)
    requires
        0 <= i < inserted(order, keys, ascending, x).len(),
    ensures
        inserted(order, keys, ascending, x)[i] == x || exists|w: int|
            0 <= w < order.len() && order[w] == inserted(order, keys, ascending, x)[i],
    decreases order.len(),
{
    if order.len() == 0 {
    } else if precedes(keys, ascending, x, order.last()) {
        let front = order.drop_last();
        let inner = inserted(front, keys, ascending, x);
        lemma_inserted_contents(front, keys, ascending, x);
        if i < inner.len() {
            lemma_inserted_member(front, keys, ascending, x, i);
            if inner[i] != x {
                let w = choose|w: int| 0 <= w < front.len() && front[w] == inner[i];
                assert(order[w] == front[w]);
            }
        } else {
            assert(order[order.len() - 1] == order.last());
        }
    } else {
        if i < order.len() {
            assert(order.push(x)[i] == order[i]);
        }
    }
}

/// Sorting places every `Null` at the front when sorting upwards and at
/// the back when sorting downwards.
pub proof fn law_nulls_at_end(keys: Seq<ValueView>, ascending: bool, n: nat)
    requires
        n <= keys.len(),
    ensures
        nulls_at_end(sorted_order(keys, ascending, n), keys, ascending),
    decreases n,
{
    if n > 0 {
        law_nulls_at_end(keys, ascending, (n - 1) as nat);
        lemma_inserted_keeps_nulls(
            sorted_order(keys, ascending, (n - 1) as nat),
            keys,
            ascending,
            n - 1,
        );
    }
}

/// The positions as machine integers.
pub open spec fn as_ints(order: Seq<usize>) -> Seq<int> {
    order.map_values(|p: usize| p as int)
}

/// Whether the value at position `a` must come before the value at
/// position `b`: see [`precedes`].
fn must_precede(keys: &Vec<Value>, ascending: bool, a: usize, b: usize) -> (r: bool)
    requires
        a < keys@.len(),
        b < keys@.len(),
    ensures
        r == precedes(views_of(keys@), ascending, a as int, b as int),
{
    match keys[a].relation(&keys[b]) {
        Some(Relation::Less) => ascending,
        Some(Relation::Greater) => !ascending,
        _ => false,
    }
}

/// The positions of the values in sorted order: see [`sorted_order`].
pub fn sort_positions(keys: &Vec<Value>, ascending: bool) -> (r: Vec<usize>)
    ensures
        as_ints(r@) == sorted_order(views_of(keys@), ascending, keys@.len()),
        r@.len() == keys@.len(),
        forall|i: int| 0 <= i < r@.len() ==> #[trigger] r@[i] < keys@.len(),
{
    let ghost kv = views_of(keys@);
    let mut order: Vec<usize> = Vec::with_capacity(keys.len());
    let mut n: usize = 0;
    proof {
        assert(as_ints(order@) =~= sorted_order(kv, ascending, 0));
    }
    while n < keys.len()
        invariant
            kv == views_of(keys@),
            n <= keys@.len(),
            order@.len() == n,
            as_ints(order@) == sorted_order(kv, ascending, n as nat),
            forall|i: int| 0 <= i < order@.len() ==> #[trigger] order@[i] < keys@.len(),
        decreases keys@.len() - n,
    {
        let mut p: usize = order.len();
        while p > 0 && must_precede(keys, ascending, n, order[p - 1])
            invariant
                kv == views_of(keys@),
                n < keys@.len(),
                p <= order@.len(),
                forall|i: int| 0 <= i < order@.len() ==> #[trigger] order@[i] < keys@.len(),
                forall|j: int|
                    p <= j < order@.len() ==> precedes(
                        kv,
                        ascending,
                        n as int,
                        #[trigger] as_ints(order@)[j],
                    ),
            decreases p,
        {
            p -= 1;
        }
        proof {
            lemma_inserted_at(as_ints(order@), kv, ascending, n as int, p as int);
            assert(as_ints(order@.insert(p as int, n)) =~= as_ints(order@).insert(
                p as int,
                n as int,
            ));
        }
        order.insert(p, n);
        n += 1;
    }
    order
}

} // verus!
