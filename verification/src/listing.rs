//! Ordered lists of distinct texts, and checks that go through a list in order.
use vstd::prelude::*;

use crate::text::{
    lemma_text_less_irreflexive, lemma_text_less_total, lemma_text_less_transitive, less_text, same,
    text_less, texts,
};

verus! {

/// How often a text stands in a list.
pub open spec fn occurrences(list: Seq<Seq<char>>, t: Seq<char>) -> nat
    decreases list.len(),
{
    if list.len() == 0 {
        0
    } else {
        occurrences(list.drop_last(), t) + if list.last() == t {
            1nat
        } else {
            0nat
        }
    }
}

/// Strictly ascending, so in particular without duplicates.
pub open spec fn ascending(s: Seq<Seq<char>>) -> bool {
    forall|i: int, j: int| 0 <= i < j < s.len() ==> text_less(#[trigger] s[i], #[trigger] s[j])
}

/// The same texts occur in both lists.
pub open spec fn same_members(a: Seq<Seq<char>>, b: Seq<Seq<char>>) -> bool {
    forall|t: Seq<char>| #![trigger a.contains(t)] #![trigger b.contains(t)] a.contains(t) == b.contains(t)
}

/// An ascending list is determined by the texts in it.
pub proof fn ascending_lists_are_determined(a: Seq<Seq<char>>, b: Seq<Seq<char>>)
    requires
        ascending(a),
        ascending(b),
        same_members(a, b),
    ensures
        a == b,
    decreases a.len(),
{
    if a.len() == 0 {
        if b.len() > 0 {
            assert(b.contains(b[0]));
            assert(a.contains(b[0]));
        }
        assert(a =~= b);
    } else {
        assert(a.contains(a.last()));
        assert(b.contains(a.last()));
        assert(b.contains(b.last()));
        assert(a.contains(b.last()));
        let i = choose|i: int| 0 <= i < b.len() && b[i] == a.last();
        let j = choose|j: int| 0 <= j < a.len() && a[j] == b.last();
        if a.last() != b.last() {
            assert(text_less(b[i], b.last()));
            assert(text_less(a[j], a.last()));
            lemma_text_less_transitive(a.last(), b.last(), a.last());
            lemma_text_less_irreflexive(a.last());
        }
        let x = a.drop_last();
        let y = b.drop_last();
        assert(ascending(x)) by {
            assert forall|i: int, j: int| 0 <= i < j < x.len() implies text_less(
                #[trigger] x[i],
                #[trigger] x[j],
            ) by {
                assert(x[i] == a[i] && x[j] == a[j]);
            }
        }
        assert(ascending(y)) by {
            assert forall|i: int, j: int| 0 <= i < j < y.len() implies text_less(
                #[trigger] y[i],
                #[trigger] y[j],
            ) by {
                assert(y[i] == b[i] && y[j] == b[j]);
            }
        }
        assert forall|t: Seq<char>| x.contains(t) == y.contains(t) by {
            lemma_member_without_last(a, t);
            lemma_member_without_last(b, t);
        }
        ascending_lists_are_determined(x, y);
        assert(a =~= x.push(a.last()));
        assert(b =~= y.push(b.last()));
    }
}

proof fn lemma_member_without_last(a: Seq<Seq<char>>, t: Seq<char>)
    requires
        a.len() > 0,
        ascending(a),
    ensures
        a.drop_last().contains(t) == (a.contains(t) && t != a.last()),
{
    let x = a.drop_last();
    if x.contains(t) {
        let k = choose|k: int| 0 <= k < x.len() && x[k] == t;
        assert(a[k] == t);
        assert(text_less(a[k], a.last()));
        lemma_text_less_irreflexive(t);
    }
    if a.contains(t) && t != a.last() {
        let k = choose|k: int| 0 <= k < a.len() && a[k] == t;
        assert(x[k] == t);
    }
}

/// Puts a text into an ascending list, unless it is there already.
pub fn insert_ascending(list: &mut Vec<String>, item: &str)
    requires
        ascending(texts(old(list)@)),
    ensures
        ascending(texts(final(list)@)),
        forall|t: Seq<char>| #[trigger]
            texts(final(list)@).contains(t) <==> texts(old(list)@).contains(t) || t == item@,
{
    let ghost before = texts(list@);
    let mut at: usize = 0;
    while at < list.len() && less_text(list[at].as_str(), item)
        invariant
            at <= list@.len(),
            texts(list@) == before,
            forall|i: int| 0 <= i < at ==> text_less(#[trigger] before[i], item@),
        decreases list@.len() - at,
    {
        at += 1;
    }
    if at < list.len() && same(list[at].as_str(), item) {
        assert(before[at as int] == item@);
        return ;
    }
    list.insert(at, item.to_owned());
    proof {
        let after = texts(list@);
        assert(after =~= before.insert(at as int, item@));
        if at < before.len() {
            lemma_text_less_total(before[at as int], item@);
        }
        assert forall|i: int| at <= i < before.len() implies text_less(
            item@,
            #[trigger] before[i],
        ) by {
            if i > at {
                lemma_text_less_transitive(item@, before[at as int], before[i]);
            }
        }
        assert forall|i: int, j: int| 0 <= i < j < after.len() implies text_less(
            #[trigger] after[i],
            #[trigger] after[j],
        ) by {
            if i < at {
                assert(after[i] == before[i]);
                if j > at {
                    assert(after[j] == before[j - 1]);
                }
            } else if i == at {
                assert(after[j] == before[j - 1]);
            } else {
                assert(after[i] == before[i - 1]);
                assert(after[j] == before[j - 1]);
            }
        }
        assert forall|t: Seq<char>| #[trigger] after.contains(t) == (before.contains(t) || t
            == item@) by {
            if before.contains(t) {
                let k = choose|k: int| 0 <= k < before.len() && before[k] == t;
                if k < at {
                    assert(after[k] == t);
                } else {
                    assert(after[k + 1] == t);
                }
            }
            if t == item@ {
                assert(after[at as int] == t);
            }
            if after.contains(t) {
                let k = choose|k: int| 0 <= k < after.len() && after[k] == t;
                if k < at {
                    assert(before[k] == t);
                } else if k > at {
                    assert(before[k - 1] == t);
                }
            }
        }
    }
}

/// What the first item that fails a check fails with.
pub open spec fn first_failure<T, E>(items: Seq<T>, check: spec_fn(T) -> Option<E>) -> Option<E>
    decreases items.len(),
{
    if items.len() == 0 {
        None
    } else {
        match check(items[0]) {
            Some(e) => Some(e),
            None => first_failure(items.subrange(1, items.len() as int), check),
        }
    }
}

/// How a check that has passed for the first items goes on.
pub proof fn lemma_first_failure_from<T, E>(
    items: Seq<T>,
    check: spec_fn(T) -> Option<E>,
    done: int,
)
    requires
        0 <= done <= items.len(),
        forall|i: int| 0 <= i < done ==> check(#[trigger] items[i]) is None,
    ensures
        first_failure(items, check) == first_failure(
            items.subrange(done, items.len() as int),
            check,
        ),
    decreases done,
{
    if done == 0 {
        assert(items.subrange(0, items.len() as int) =~= items);
    } else {
        let rest = items.subrange(1, items.len() as int);
        assert(check(items[0]) is None);
        assert forall|i: int| 0 <= i < done - 1 implies check(#[trigger] rest[i]) is None by {
            assert(rest[i] == items[i + 1]);
        }
        lemma_first_failure_from(rest, check, done - 1);
        assert(rest.subrange(done - 1, rest.len() as int) =~= items.subrange(
            done,
            items.len() as int,
        ));
    }
}

/// A check that every item passes fails nowhere, and conversely.
pub proof fn lemma_no_failure<T, E>(items: Seq<T>, check: spec_fn(T) -> Option<E>)
    ensures
        first_failure(items, check) is None <==> forall|i: int|
            0 <= i < items.len() ==> check(#[trigger] items[i]) is None,
    decreases items.len(),
{
    if items.len() > 0 {
        let rest = items.subrange(1, items.len() as int);
        lemma_no_failure(rest, check);
        if forall|i: int| 0 <= i < items.len() ==> check(#[trigger] items[i]) is None {
            assert forall|i: int| 0 <= i < rest.len() implies check(#[trigger] rest[i]) is None by {
                assert(rest[i] == items[i + 1]);
            }
        }
        if first_failure(items, check) is None {
            assert forall|i: int| 0 <= i < items.len() implies check(#[trigger] items[i]) is None by {
                if i > 0 {
                    assert(rest[i - 1] == items[i]);
                }
            }
        }
    }
}

/// The first item that fails is the failure.
pub proof fn lemma_failure_at<T, E>(items: Seq<T>, check: spec_fn(T) -> Option<E>, at: int)
    requires
        0 <= at < items.len(),
        forall|i: int| 0 <= i < at ==> check(#[trigger] items[i]) is None,
        check(items[at]) is Some,
    ensures
        first_failure(items, check) == check(items[at]),
{
    lemma_first_failure_from(items, check, at);
    let rest = items.subrange(at, items.len() as int);
    assert(rest[0] == items[at]);
}

/// A pass over a list that stops at the first item it cannot take.
pub open spec fn pass<T, A, E>(
    items: Seq<T>,
    start: A,
    step: spec_fn(A, T) -> Result<A, E>,
) -> Result<A, E>
    decreases items.len(),
{
    if items.len() == 0 {
        Ok(start)
    } else {
        match pass(items.drop_last(), start, step) {
            Err(e) => Err(e),
            Ok(a) => step(a, items.last()),
        }
    }
}

/// One more step of a pass.
pub proof fn lemma_pass_step<T, A, E>(
    items: Seq<T>,
    start: A,
    step: spec_fn(A, T) -> Result<A, E>,
    done: int,
)
    requires
        0 <= done < items.len(),
        pass(items.subrange(0, done), start, step) is Ok,
    ensures
        pass(items.subrange(0, done + 1), start, step) == step(
            pass(items.subrange(0, done), start, step)->Ok_0,
            items[done],
        ),
{
    let longer = items.subrange(0, done + 1);
    assert(longer.drop_last() =~= items.subrange(0, done));
    assert(longer.last() == items[done]);
}

/// A pass that has stopped stays stopped.
pub proof fn lemma_pass_stopped<T, A, E>(
    items: Seq<T>,
    start: A,
    step: spec_fn(A, T) -> Result<A, E>,
    done: int,
)
    requires
        0 <= done <= items.len(),
        pass(items.subrange(0, done), start, step) is Err,
    ensures
        pass(items, start, step) == pass(items.subrange(0, done), start, step),
    decreases items.len() - done,
{
    if done < items.len() {
        let longer = items.subrange(0, done + 1);
        assert(longer.drop_last() =~= items.subrange(0, done));
        lemma_pass_stopped(items, start, step, done + 1);
    } else {
        assert(items.subrange(0, done) =~= items);
    }
}

/// A pass over the whole list.
pub proof fn lemma_pass_done<T, A, E>(
    items: Seq<T>,
    start: A,
    step: spec_fn(A, T) -> Result<A, E>,
)
    ensures
        items.subrange(0, items.len() as int) == items,
        pass(items.subrange(0, 0), start, step) == Ok::<A, E>(start),
{
    assert(items.subrange(0, items.len() as int) =~= items);
}

/// What a filter keeps was there before, and passes it.
pub proof fn lemma_filter_sound<T>(all: Seq<T>, keep: spec_fn(T) -> bool)
    ensures
        all.filter(keep).len() <= all.len(),
        forall|i: int|
            0 <= i < all.filter(keep).len() ==> all.contains(#[trigger] all.filter(keep)[i])
                && keep(all.filter(keep)[i]),
    decreases all.len(),
{
    reveal(Seq::filter);
    if all.len() > 0 {
        let front = all.drop_last();
        lemma_filter_sound(front, keep);
        assert forall|i: int| 0 <= i < all.filter(keep).len() implies all.contains(
            #[trigger] all.filter(keep)[i],
        ) && keep(all.filter(keep)[i]) by {
            if i < front.filter(keep).len() {
                assert(front.contains(front.filter(keep)[i]));
                let k = choose|k: int| 0 <= k < front.len() && front[k] == front.filter(keep)[i];
                assert(all[k] == all.filter(keep)[i]);
            } else {
                assert(all[all.len() - 1] == all.filter(keep)[i]);
            }
        }
    }
}

/// What passes a filter is kept.
pub proof fn lemma_filter_complete<T>(all: Seq<T>, keep: spec_fn(T) -> bool, x: T)
    requires
        all.contains(x),
        keep(x),
    ensures
        all.filter(keep).contains(x),
    decreases all.len(),
{
    reveal(Seq::filter);
    let front = all.drop_last();
    let k = choose|k: int| 0 <= k < all.len() && all[k] == x;
    if k < front.len() {
        assert(front[k] == x);
        lemma_filter_complete(front, keep, x);
        let m = choose|m: int| 0 <= m < front.filter(keep).len() && front.filter(keep)[m] == x;
        assert(all.filter(keep)[m] == x);
    } else {
        assert(all.filter(keep)[all.filter(keep).len() - 1] == x);
    }
}

/// One more item under a filter.
pub proof fn lemma_filter_step<T>(all: Seq<T>, keep: spec_fn(T) -> bool, done: int)
    requires
        0 <= done < all.len(),
    ensures
        all.subrange(0, done + 1).filter(keep) == (if keep(all[done]) {
            all.subrange(0, done).filter(keep).push(all[done])
        } else {
            all.subrange(0, done).filter(keep)
        }),
{
    reveal(Seq::filter);
    let longer = all.subrange(0, done + 1);
    assert(longer.drop_last() =~= all.subrange(0, done));
    assert(longer.last() == all[done]);
}

/// A filter at the start and at the end of a list.
pub proof fn lemma_filter_ends<T>(all: Seq<T>, keep: spec_fn(T) -> bool)
    ensures
        all.subrange(0, 0).filter(keep) == Seq::<T>::empty(),
        all.subrange(0, all.len() as int) == all,
{
    reveal(Seq::filter);
    assert(all.subrange(0, 0) =~= Seq::<T>::empty());
    assert(all.subrange(0, all.len() as int) =~= all);
}

/// A pass over two lists, one behind the other, is a pass over the second that begins
/// where the pass over the first ended.
pub proof fn lemma_pass_joined<T, A, E>(
    a: Seq<T>,
    b: Seq<T>,
    start: A,
    step: spec_fn(A, T) -> Result<A, E>,
)
    ensures
        pass(a + b, start, step) == (match pass(a, start, step) {
            Err(e) => Err(e),
            Ok(middle) => pass(b, middle, step),
        }),
    decreases b.len(),
{
    if b.len() == 0 {
        assert(a + b =~= a);
    } else {
        lemma_pass_joined(a, b.drop_last(), start, step);
        assert((a + b).drop_last() =~= a + b.drop_last());
    }
}

/// A filter keeps what was there before and passes it, and nothing else.
pub proof fn lemma_filter_keeps<T>(all: Seq<T>, keep: spec_fn(T) -> bool)
    ensures
        forall|x: T| #[trigger] all.filter(keep).contains(x) <==> all.contains(x) && keep(x),
{
    lemma_filter_sound(all, keep);
    assert forall|x: T| #[trigger] all.filter(keep).contains(x) <==> all.contains(x) && keep(
        x,
    ) by {
        if all.filter(keep).contains(x) {
            let i = all.filter(keep).index_of(x);
            assert(all.filter(keep)[i] == x);
        }
        if all.contains(x) && keep(x) {
            lemma_filter_complete(all, keep, x);
        }
    }
}

/// Whether every item can be read and no two are read alike.
pub open spec fn read_apart<T, V>(items: Seq<T>, read: spec_fn(T) -> Option<V>) -> bool {
    &&& forall|i: int| 0 <= i < items.len() ==> read(#[trigger] items[i]) is Some
    &&& forall|i: int, j: int|
        0 <= i < j < items.len() ==> read(#[trigger] items[i]) != read(#[trigger] items[j])
}

/// A pass that takes each item by its reading, and each reading once, succeeds where
/// every item can be read and no two are read alike; it gives the readings in order.
pub proof fn lemma_distinct_pass<T, V, E>(
    items: Seq<T>,
    step: spec_fn(Seq<V>, T) -> Result<Seq<V>, E>,
    read: spec_fn(T) -> Option<V>,
)
    requires
        forall|taken: Seq<V>, x: T| #[trigger]
            step(taken, x) is Ok <==> read(x) is Some && !taken.contains(read(x)->0),
        forall|taken: Seq<V>, x: T|
            (#[trigger] step(taken, x)) is Ok ==> step(taken, x)->Ok_0 == taken.push(read(x)->0),
    ensures
        pass(items, Seq::empty(), step) is Ok <==> read_apart(items, read),
        pass(items, Seq::empty(), step) is Ok ==> {
            let taken = pass(items, Seq::empty(), step)->Ok_0;
            taken.len() == items.len() && forall|i: int|
                0 <= i < items.len() ==> Some(#[trigger] taken[i]) == read(items[i])
        },
    decreases items.len(),
{
    if items.len() > 0 {
        let front = items.drop_last();
        let n = items.len() - 1;
        lemma_distinct_pass(front, step, read);
        if read_apart(items, read) {
            assert forall|i: int| 0 <= i < front.len() implies read(#[trigger] front[i]) is Some by {
                assert(front[i] == items[i]);
            }
            assert forall|i: int, j: int| 0 <= i < j < front.len() implies read(
                #[trigger] front[i],
            ) != read(#[trigger] front[j]) by {
                assert(front[i] == items[i] && front[j] == items[j]);
            }
            assert(read_apart(front, read));
            let taken = pass(front, Seq::empty(), step)->Ok_0;
            let v = read(items[n])->0;
            if taken.contains(v) {
                let i = choose|i: int| 0 <= i < taken.len() && taken[i] == v;
                assert(Some(taken[i]) == read(front[i]));
                assert(front[i] == items[i]);
                assert(read(items[i]) != read(items[n]));
            }
        }
        if pass(items, Seq::empty(), step) is Ok {
            let taken = pass(front, Seq::empty(), step)->Ok_0;
            assert(step(taken, items[n]) is Ok);
            assert forall|i: int| 0 <= i < items.len() implies read(#[trigger] items[i]) is Some by {
                if i < n {
                    assert(front[i] == items[i]);
                }
            }
            assert forall|i: int, j: int| 0 <= i < j < items.len() implies read(
                #[trigger] items[i],
            ) != read(#[trigger] items[j]) by {
                assert(front[i] == items[i]);
                if j < n {
                    assert(front[j] == items[j]);
                } else {
                    assert(Some(taken[i]) == read(front[i]));
                    if read(items[i]) == read(items[j]) {
                        assert(taken.contains(read(items[n])->0));
                    }
                }
            }
            let all = pass(items, Seq::empty(), step)->Ok_0;
            assert forall|i: int| 0 <= i < items.len() implies Some(#[trigger] all[i]) == read(
                items[i],
            ) by {
                if i < n {
                    assert(all[i] == taken[i]);
                    assert(front[i] == items[i]);
                }
            }
        }
    }
}

/// How many items of a list pass a test is how many the list of those that pass holds.
pub proof fn lemma_occurrences_are_counted<T>(
    items: Seq<T>,
    keys: Seq<Seq<char>>,
    key_of: spec_fn(T) -> Seq<char>,
    keep: spec_fn(T) -> bool,
    key: Seq<char>,
)
    requires
        keys.len() == items.len(),
        forall|i: int| 0 <= i < items.len() ==> keys[i] == key_of(#[trigger] items[i]),
        forall|x: T| #[trigger] keep(x) <==> key_of(x) == key,
    ensures
        occurrences(keys, key) == items.filter(keep).len(),
    decreases items.len(),
{
    reveal(Seq::filter);
    if items.len() > 0 {
        let front = items.drop_last();
        assert forall|i: int| 0 <= i < front.len() implies keys.drop_last()[i] == key_of(
            #[trigger] front[i],
        ) by {
            assert(front[i] == items[i]);
        }
        lemma_occurrences_are_counted(front, keys.drop_last(), key_of, keep, key);
        assert(keys.last() == key_of(items[items.len() - 1]));
        assert(keep(items.last()) <==> key_of(items.last()) == key);
    }
}

} // verus!
