//! Sorting that keeps equal items in the order they came in.
use vstd::prelude::*;
use vstd::seq_lib::{to_multiset_build, to_multiset_insert, to_multiset_len};

verus! {

/// Items with an order in which two different items may rank alike.
pub trait Ranked: Sized {
    /// Whether this item ranks before the other.
    spec fn before(self, other: Self) -> bool;

    /// No item ranks before itself, and both ranking before and not ranking
    /// before carry over.
    proof fn rank_laws(a: Self, b: Self, c: Self)
        ensures
            !a.before(a),
            a.before(b) && b.before(c) ==> a.before(c),
            !a.before(b) && !b.before(c) ==> !a.before(c),
    ;

    fn precedes(&self, other: &Self) -> (r: bool)
        ensures
            r == self.before(*other),
    ;
}

/// Where an item goes, looking from `i` on: in front of the first item that it
/// ranks before.
pub open spec fn slot<T: Ranked>(items: Seq<T>, item: T, i: int) -> int
    decreases items.len() - i,
{
    if i >= items.len() {
        items.len() as int
    } else if item.before(items[i]) {
        i
    } else {
        slot(items, item, i + 1)
    }
}

/// The list with one more item in its place.
pub open spec fn placed<T: Ranked>(items: Seq<T>, item: T) -> Seq<T> {
    items.insert(slot(items, item, 0), item)
}

/// The items in order; those that rank alike stay as they came.
pub open spec fn sorted<T: Ranked>(items: Seq<T>) -> Seq<T>
    decreases items.len(),
{
    if items.len() == 0 {
        Seq::empty()
    } else {
        placed(sorted(items.drop_last()), items.last())
    }
}

/// No item stands behind one that it ranks before.
pub open spec fn in_order<T: Ranked>(items: Seq<T>) -> bool {
    forall|i: int, j: int|
        0 <= i < j < items.len() ==> !(#[trigger] items[j]).before(#[trigger] items[i])
}

proof fn lemma_slot<T: Ranked>(items: Seq<T>, item: T, i: int)
    requires
        0 <= i <= items.len(),
        forall|k: int| 0 <= k < i ==> !item.before(#[trigger] items[k]),
    ensures
        i <= slot(items, item, i) <= items.len(),
        forall|k: int| 0 <= k < slot(items, item, i) ==> !item.before(#[trigger] items[k]),
        slot(items, item, i) < items.len() ==> item.before(items[slot(items, item, i)]),
    decreases items.len() - i,
{
    if i < items.len() && !item.before(items[i]) {
        lemma_slot(items, item, i + 1);
    }
}

proof fn lemma_placed<T: Ranked>(items: Seq<T>, item: T)
    requires
        in_order(items),
    ensures
        in_order(placed(items, item)),
        placed(items, item).to_multiset() == items.to_multiset().insert(item),
{
    lemma_slot(items, item, 0);
    let at = slot(items, item, 0);
    let after = placed(items, item);
    to_multiset_insert(items, at, item);
    assert forall|k: int| at <= k < items.len() implies !(#[trigger] items[k]).before(item) by {
        T::rank_laws(item, items[at], items[k]);
        T::rank_laws(items[k], item, items[at]);
        T::rank_laws(items[k], items[k], items[k]);
    }
    assert forall|i: int, j: int| 0 <= i < j < after.len() implies !(#[trigger] after[j]).before(
        #[trigger] after[i],
    ) by {
        if j < at {
            assert(after[i] == items[i] && after[j] == items[j]);
        } else if j == at {
            assert(after[i] == items[i]);
        } else {
            assert(after[j] == items[j - 1]);
            if i < at {
                assert(after[i] == items[i]);
            } else if i > at {
                assert(after[i] == items[i - 1]);
            }
        }
    }
}

/// Sorting puts the items in order, and neither adds nor drops one.
pub proof fn sorting_orders<T: Ranked>(items: Seq<T>)
    ensures
        in_order(sorted(items)),
        sorted(items).to_multiset() == items.to_multiset(),
        sorted(items).len() == items.len(),
    decreases items.len(),
{
    if items.len() > 0 {
        sorting_orders(items.drop_last());
        lemma_placed(sorted(items.drop_last()), items.last());
        to_multiset_build(items.drop_last(), items.last());
        assert(items.drop_last().push(items.last()) =~= items);
    }
    to_multiset_len(sorted(items));
    to_multiset_len(items);
}

/// Sorts the items.
pub fn sort<T: Ranked>(items: Vec<T>) -> (r: Vec<T>)
    ensures
        r@ == sorted(items@),
{
    let ghost all = items@;
    let mut rest: Vec<T> = items;
    let mut out: Vec<T> = Vec::new();
    let ghost mut done: int = 0;
    assert(all.subrange(0, all.len() as int) =~= all);
    while rest.len() > 0
        invariant
            0 <= done <= all.len(),
            rest@ == all.subrange(done, all.len() as int),
            out@ == sorted(all.subrange(0, done)),
        decreases rest@.len(),
    {
        let item: T = rest.remove(0);
        let mut at: usize = 0;
        let ghost from = out@;
        assert(item == all[done]);
        while at < out.len() && !item.precedes(&out[at])
            invariant
                at <= out@.len(),
                out@ == from,
                slot(from, item, 0) == slot(from, item, at as int),
            decreases out@.len() - at,
        {
            at += 1;
        }
        out.insert(at, item);
        proof {
            let longer = all.subrange(0, done + 1);
            assert(longer.drop_last() =~= all.subrange(0, done));
            assert(longer.last() == item);
            done = done + 1;
            assert(rest@ =~= all.subrange(done, all.len() as int));
        }
    }
    assert(all.subrange(0, done) =~= all);
    out
}

} // verus!
