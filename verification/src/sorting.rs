//! Stable sorting.

use crate::text;
use crate::text::str_precedes;
use vstd::prelude::*;

verus! {

/// Values with an order in which they are listed.
pub trait Ranked: Sized {
    /// Whether a value is listed before another one.
    spec fn ranks_before(&self, other: &Self) -> bool;

    /// Of two values at most one is listed before the other.
    proof fn asymmetric(a: &Self, b: &Self)
        requires
            a.ranks_before(b),
        ensures
            !b.ranks_before(a),
    ;

    /// Values of which none is listed before the next one are in order.
    proof fn negatively_transitive(a: &Self, b: &Self, c: &Self)
        requires
            !a.ranks_before(b),
            !b.ranks_before(c),
        ensures
            !a.ranks_before(c),
    ;

    /// Whether a value is listed before another one.
    fn is_before(&self, other: &Self) -> (r: bool)
        ensures
            r == self.ranks_before(other),
    ;
}

impl Ranked for String {
    open spec fn ranks_before(&self, other: &Self) -> bool {
        text::precedes(self@, other@)
    }

    proof fn asymmetric(a: &Self, b: &Self) {
        text::lemma_precedes_asymmetric(a@, b@);
    }

    proof fn negatively_transitive(a: &Self, b: &Self, c: &Self) {
        text::lemma_precedes_negatively_transitive(a@, b@, c@);
    }

    fn is_before(&self, other: &Self) -> (r: bool) {
        str_precedes(self.as_str(), other.as_str())
    }
}

/// A sorted list with a value put in behind those that are not listed after it.
pub open spec fn inserted<T: Ranked>(sorted: Seq<T>, x: T) -> Seq<T>
    decreases sorted.len(),
{
    if sorted.len() == 0 || !x.ranks_before(&sorted.last()) {
        sorted.push(x)
    } else {
        inserted(sorted.drop_last(), x).push(sorted.last())
    }
}

/// The values in the order in which they are listed; those that rank alike keep their order.
pub open spec fn sorted<T: Ranked>(items: Seq<T>) -> Seq<T>
    decreases items.len(),
{
    if items.len() == 0 {
        items
    } else {
        inserted(sorted(items.drop_last()), items.last())
    }
}

proof fn lemma_inserted_at<T: Ranked>(s: Seq<T>, x: T, pos: int)
    requires
        0 <= pos <= s.len(),
        forall|i: int| pos <= i < s.len() ==> x.ranks_before(#[trigger] &s[i]),
        pos > 0 ==> !x.ranks_before(&s[pos - 1]),
    ensures
        inserted(s, x) == s.insert(pos, x),
    decreases s.len(),
{
    if pos == s.len() {
        assert(s.insert(pos, x) =~= s.push(x));
    } else {
        let init = s.drop_last();
        assert(x.ranks_before(&s[s.len() - 1]));
        assert forall|i: int| pos <= i < init.len() implies x.ranks_before(#[trigger] &init[i]) by {
            assert(init[i] == s[i]);
        }
        if pos > 0 {
            assert(init[pos - 1] == s[pos - 1]);
        }
        lemma_inserted_at(init, x, pos);
        assert(s.insert(pos, x) =~= init.insert(pos, x).push(s.last()));
    }
}

/// Sort values; those that rank alike keep their order.
pub fn sort<T: Ranked>(items: Vec<T>) -> (r: Vec<T>)
    ensures
        r@ == sorted(items@),
{
    let ghost given = items@;
    let mut r: Vec<T> = Vec::new();
    for item in it: items
        invariant
            it.seq() == given,
            r@ == sorted(given.take(it.index())),
    {
        let ghost before = r@;
        let mut pos: usize = r.len();
        while pos > 0 && item.is_before(&r[pos - 1])
            invariant
                pos <= r@.len(),
                r@ == before,
                forall|i: int| pos <= i < r@.len() ==> item.ranks_before(#[trigger] &r@[i]),
            decreases pos,
        {
            pos -= 1;
        }
        proof {
            lemma_inserted_at(r@, item, pos as int);
            let i = it.index();
            assert(given.take(i + 1).drop_last() =~= given.take(i));
            assert(given.take(i + 1).last() == item);
        }
        r.insert(pos, item);
    }
    proof {
        assert(given.take(given.len() as int) =~= given);
    }
    r
}

/// In a sorted list no value is listed before an earlier one.
pub open spec fn in_order<T: Ranked>(s: Seq<T>) -> bool {
    forall|i: int, j: int|
        0 <= i < j < s.len() ==> !(#[trigger] s[j]).ranks_before(#[trigger] &s[i])
}

proof fn lemma_inserted<T: Ranked>(s: Seq<T>, x: T)
    requires
        in_order(s),
    ensures
        in_order(inserted(s, x)),
        inserted(s, x).to_multiset() == s.to_multiset().insert(x),
        inserted(s, x).len() == s.len() + 1,
        forall|y: T| #[trigger] inserted(s, x).contains(y) ==> y == x || s.contains(y),
    decreases s.len(),
{
    broadcast use vstd::seq_lib::group_to_multiset_ensures;

    if s.len() == 0 || !x.ranks_before(&s.last()) {
        let r = s.push(x);
        assert forall|i: int, j: int| 0 <= i < j < r.len() implies !(#[trigger] r[j]).ranks_before(
            #[trigger] &r[i],
        ) by {
            if j < s.len() {
                assert(r[j] == s[j] && r[i] == s[i]);
            } else if i < s.len() - 1 {
                assert(!s[s.len() - 1].ranks_before(&s[i]));
                T::negatively_transitive(&x, &s[s.len() - 1], &s[i]);
            }
        }
        assert forall|y: T| #[trigger] r.contains(y) implies y == x || s.contains(y) by {
            let i = choose|i: int| 0 <= i < r.len() && r[i] == y;
            if i < s.len() {
                assert(s[i] == y);
            }
        }
    } else {
        let init = s.drop_last();
        assert forall|i: int, j: int| 0 <= i < j < init.len() implies !(
        #[trigger] init[j]).ranks_before(#[trigger] &init[i]) by {
            assert(init[j] == s[j] && init[i] == s[i]);
        }
        lemma_inserted(init, x);
        let front = inserted(init, x);
        let r = front.push(s.last());
        assert forall|i: int, j: int| 0 <= i < j < r.len() implies !(#[trigger] r[j]).ranks_before(
            #[trigger] &r[i],
        ) by {
            if j < front.len() {
                assert(r[j] == front[j] && r[i] == front[i]);
            } else {
                assert(r[i] == front[i]);
                assert(front.contains(front[i]));
                if front[i] == x {
                    T::asymmetric(&x, &s.last());
                } else {
                    let k = choose|k: int| 0 <= k < init.len() && init[k] == front[i];
                    assert(s[k] == front[i]);
                    assert(!s[s.len() - 1].ranks_before(&s[k]));
                }
            }
        }
        assert(init.push(s.last()) =~= s);
        assert(s.to_multiset() =~= init.to_multiset().insert(s.last()));
        assert(r.to_multiset() =~= s.to_multiset().insert(x));
        assert forall|y: T| #[trigger] r.contains(y) implies y == x || s.contains(y) by {
            let i = choose|i: int| 0 <= i < r.len() && r[i] == y;
            if i < front.len() {
                assert(front[i] == y);
                assert(front.contains(y));
                if y != x {
                    let k = choose|k: int| 0 <= k < init.len() && init[k] == y;
                    assert(s[k] == y);
                }
            } else {
                assert(s[s.len() - 1] == y);
            }
        }
    }
}

/// Sorting lists the same values, and lists them in order.
pub proof fn law_sorted_is_ordered_permutation<T: Ranked>(items: Seq<T>)
    ensures
        in_order(sorted(items)),
        sorted(items).to_multiset() == items.to_multiset(),
        sorted(items).len() == items.len(),
    decreases items.len(),
{
    broadcast use vstd::seq_lib::group_to_multiset_ensures;

    if items.len() > 0 {
        law_sorted_is_ordered_permutation(items.drop_last());
        lemma_inserted(sorted(items.drop_last()), items.last());
        assert(items.drop_last().push(items.last()) =~= items);
        assert(items.to_multiset() =~= items.drop_last().to_multiset().insert(items.last()));
    }
}

/// The test whether a value ranks like another one.
pub open spec fn ranks_like<T: Ranked>(v: T) -> spec_fn(T) -> bool {
    |x: T| !x.ranks_before(&v) && !v.ranks_before(&x)
}

proof fn lemma_inserted_is_stable<T: Ranked>(s: Seq<T>, x: T, v: T)
    ensures
        inserted(s, x).filter(ranks_like(v)) == s.push(x).filter(ranks_like(v)),
    decreases s.len(),
{
    let alike = ranks_like(v);
    s.lemma_filter_push(x, alike);
    if s.len() > 0 && x.ranks_before(&s.last()) {
        let init = s.drop_last();
        lemma_inserted_is_stable(init, x, v);
        init.lemma_filter_push(x, alike);
        init.lemma_filter_push(s.last(), alike);
        inserted(init, x).lemma_filter_push(s.last(), alike);
        assert(init.push(s.last()) =~= s);
        if alike(x) && alike(s.last()) {
            T::negatively_transitive(&x, &v, &s.last());
        }
    }
}

/// Values that rank alike keep their order.
pub proof fn law_sorted_is_stable<T: Ranked>(items: Seq<T>, v: T)
    ensures
        sorted(items).filter(ranks_like(v)) == items.filter(ranks_like(v)),
    decreases items.len(),
{
    if items.len() > 0 {
        let init = items.drop_last();
        law_sorted_is_stable(init, v);
        lemma_inserted_is_stable(sorted(init), items.last(), v);
        sorted(init).lemma_filter_push(items.last(), ranks_like(v));
        init.lemma_filter_push(items.last(), ranks_like(v));
        assert(init.push(items.last()) =~= items);
    }
}

} // verus!
