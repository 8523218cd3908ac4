//! A map from text to values that remembers the order of insertion.
//!
//! The map is a vector of key/value pairs in which no key occurs twice. Its view is the
//! mathematical map from the characters of a key to the value stored under it.

use crate::formatting::show_pairs;
use crate::text::str_eq;
use vstd::prelude::*;

verus! {

/// The keys of a list of pairs are pairwise different.
pub open spec fn distinct_keys<V>(pairs: Seq<(String, V)>) -> bool {
    forall|i: int, j: int|
        0 <= i < j < pairs.len() ==> (#[trigger] pairs[i]).0@ != (#[trigger] pairs[j]).0@
}

/// The map that a list of pairs stands for.
pub open spec fn pairs_map<V>(pairs: Seq<(String, V)>) -> Map<Seq<char>, V>
    decreases pairs.len(),
{
    if pairs.len() == 0 {
        Map::empty()
    } else {
        pairs_map(pairs.drop_last()).insert(pairs.last().0@, pairs.last().1)
    }
}

/// The key at a position of a list of pairs.
pub open spec fn key_at<V>(pairs: Seq<(String, V)>, i: int) -> Seq<char> {
    pairs[i].0@
}

/// A key is in the map exactly when some pair carries it.
pub proof fn lemma_pairs_map_dom<V>(pairs: Seq<(String, V)>, key: Seq<char>)
    ensures
        pairs_map(pairs).contains_key(key) <==> exists|i: int|
            0 <= i < pairs.len() && #[trigger] key_at(pairs, i) == key,
    decreases pairs.len(),
{
    if pairs.len() > 0 {
        let init = pairs.drop_last();
        lemma_pairs_map_dom(init, key);
        if pairs_map(pairs).contains_key(key) {
            if pairs.last().0@ == key {
                assert(key_at(pairs, pairs.len() - 1) == key);
            } else {
                let i = choose|i: int| 0 <= i < init.len() && #[trigger] key_at(init, i) == key;
                assert(key_at(pairs, i) == key);
            }
        }
        if exists|i: int| 0 <= i < pairs.len() && #[trigger] key_at(pairs, i) == key {
            let i = choose|i: int| 0 <= i < pairs.len() && #[trigger] key_at(pairs, i) == key;
            if i < init.len() {
                assert(key_at(init, i) == key);
            }
        }
    }
}

/// Under different keys, every pair is found under its own key.
pub proof fn lemma_pairs_map_at<V>(pairs: Seq<(String, V)>, i: int)
    requires
        distinct_keys(pairs),
        0 <= i < pairs.len(),
    ensures
        pairs_map(pairs).contains_key(key_at(pairs, i)),
        pairs_map(pairs)[key_at(pairs, i)] == pairs[i].1,
    decreases pairs.len(),
{
    let init = pairs.drop_last();
    assert(distinct_keys(init));
    if i < init.len() {
        lemma_pairs_map_at(init, i);
        assert(key_at(init, i) == key_at(pairs, i));
        assert(pairs[i].0@ != pairs[pairs.len() - 1].0@);
    }
}

/// A map that agrees with a list of pairs under different keys is the map of that list.
pub proof fn lemma_pairs_map_is<V>(pairs: Seq<(String, V)>, m: Map<Seq<char>, V>)
    requires
        distinct_keys(pairs),
        forall|i: int|
            0 <= i < pairs.len() ==> m.contains_key(#[trigger] key_at(pairs, i))
                && m[key_at(pairs, i)] == pairs[i].1,
        forall|k: Seq<char>| #[trigger]
            m.contains_key(k) ==> exists|i: int|
                0 <= i < pairs.len() && #[trigger] key_at(pairs, i) == k,
    ensures
        pairs_map(pairs) == m,
{
    assert forall|k: Seq<char>| #[trigger]
        pairs_map(pairs).contains_key(k) <==> m.contains_key(k) by {
        lemma_pairs_map_dom(pairs, k);
    }
    assert forall|k: Seq<char>| #[trigger] m.contains_key(k) implies pairs_map(pairs)[k] == m[k] by {
        let i = choose|i: int| 0 <= i < pairs.len() && #[trigger] key_at(pairs, i) == k;
        lemma_pairs_map_at(pairs, i);
    }
    assert(pairs_map(pairs) =~= m);
}

/// The domain of the map of a list of pairs is finite.
pub proof fn lemma_pairs_map_finite<V>(pairs: Seq<(String, V)>)
    requires
        distinct_keys(pairs),
    ensures
        pairs_map(pairs).dom().finite(),
        pairs_map(pairs).len() == pairs.len(),
    decreases pairs.len(),
{
    if pairs.len() > 0 {
        let init = pairs.drop_last();
        assert(distinct_keys(init));
        lemma_pairs_map_finite(init);
        lemma_pairs_map_dom(init, pairs.last().0@);
        if pairs_map(init).contains_key(pairs.last().0@) {
            let i = choose|i: int|
                0 <= i < init.len() && #[trigger] key_at(init, i) == pairs.last().0@;
            assert(pairs[i].0@ == pairs[pairs.len() - 1].0@);
        }
    }
}

/// A map from text to values.
pub struct StrMap<V> {
    entries: Vec<(String, V)>,
}

impl<V: core::fmt::Debug> core::fmt::Debug for StrMap<V> {
    /// Show the keys with their values.
    fn fmt(&self, f: &mut core::fmt::Formatter<'_>) -> (r: core::fmt::Result) {
        show_pairs(f, &self.entries)
    }
}

impl<V> View for StrMap<V> {
    type V = Map<Seq<char>, V>;

    open spec fn view(&self) -> Map<Seq<char>, V> {
        pairs_map(self.pairs())
    }
}

impl<V> StrMap<V> {
    /// The pairs of the map, in the order of their insertion.
    pub closed spec fn pairs(&self) -> Seq<(String, V)> {
        self.entries@
    }

    #[verifier::type_invariant]
    spec fn keys_are_distinct(&self) -> bool {
        distinct_keys(self.entries@)
    }

    /// A map is larger than the list of its pairs.
    pub proof fn lemma_pairs_smaller(&self)
        ensures
            decreases_to!(*self => self.pairs()),
    {
        assert(decreases_to!(*self => self.entries));
        assert(decreases_to!(self.entries => self.entries@));
    }

    /// An empty map.
    pub fn new() -> (r: Self)
        ensures
            r.pairs() == Seq::<(String, V)>::empty(),
            r@ == Map::<Seq<char>, V>::empty(),
    {
        StrMap { entries: Vec::new() }
    }

    /// The position of the pair under `key`.
    fn position(&self, key: &str) -> (r: Option<usize>)
        ensures
            match r {
                Some(i) => i < self.pairs().len() && key_at(self.pairs(), i as int) == key@,
                None => forall|i: int|
                    0 <= i < self.pairs().len() ==> #[trigger] key_at(self.pairs(), i) != key@,
            },
    {
        let mut i: usize = 0;
        while i < self.entries.len()
            invariant
                i <= self.entries@.len(),
                forall|j: int| 0 <= j < i ==> #[trigger] key_at(self.entries@, j) != key@,
            decreases self.entries@.len() - i,
        {
            if str_eq(self.entries[i].0.as_str(), key) {
                return Some(i);
            }
            i += 1;
        }
        None
    }

    /// The value under `key`.
    pub fn get(&self, key: &str) -> (r: Option<&V>)
        ensures
            match r {
                Some(v) => self@.contains_key(key@) && *v == self@[key@],
                None => !self@.contains_key(key@),
            },
    {
        proof {
            use_type_invariant(self);
            lemma_pairs_map_dom(self.pairs(), key@);
        }
        match self.position(key) {
            Some(i) => {
                proof {
                    lemma_pairs_map_at(self.pairs(), i as int);
                }
                Some(&self.entries[i].1)
            },
            None => None,
        }
    }

    /// Whether a value stands under `key`.
    pub fn contains_key(&self, key: &str) -> (r: bool)
        ensures
            r == self@.contains_key(key@),
    {
        proof {
            lemma_pairs_map_dom(self.pairs(), key@);
        }
        self.position(key).is_some()
    }

    /// The number of keys.
    pub fn len(&self) -> (r: usize)
        ensures
            r == self.pairs().len(),
            r == self@.len(),
            distinct_keys(self.pairs()),
    {
        proof {
            use_type_invariant(self);
            lemma_pairs_map_finite(self.pairs());
        }
        self.entries.len()
    }

    /// Whether there is no key.
    pub fn is_empty(&self) -> (r: bool)
        ensures
            r == (self.pairs().len() == 0),
            r == (self@ == Map::<Seq<char>, V>::empty()),
    {
        proof {
            use_type_invariant(self);
            if self.pairs().len() > 0 {
                lemma_pairs_map_at(self.pairs(), 0);
            }
        }
        self.entries.len() == 0
    }

    /// The pair at a position in the order of insertion.
    pub fn pair(&self, i: usize) -> (r: (&String, &V))
        requires
            i < self.pairs().len(),
        ensures
            *r.0 == self.pairs()[i as int].0,
            *r.1 == self.pairs()[i as int].1,
            self@.contains_key(r.0@),
            self@[r.0@] == *r.1,
    {
        proof {
            use_type_invariant(self);
            lemma_pairs_map_at(self.pairs(), i as int);
        }
        (&self.entries[i].0, &self.entries[i].1)
    }

    /// The pairs of the map, in the order of insertion.
    pub fn into_pairs(self) -> (r: Vec<(String, V)>)
        ensures
            r@ == self.pairs(),
            distinct_keys(r@),
    {
        proof {
            use_type_invariant(&self);
        }
        self.entries
    }

    /// Put `value` under `key`, in place of what was there.
    ///
    /// A key that was there keeps its place in the order; a new one comes last.
    pub fn insert(&mut self, key: &str, value: V)
        ensures
            final(self)@ == old(self)@.insert(key@, value),
            if old(self)@.contains_key(key@) {
                exists|i: int|
                    0 <= i < old(self).pairs().len() && #[trigger] key_at(old(self).pairs(), i)
                        == key@ && final(self).pairs() == old(self).pairs().update(
                        i,
                        (old(self).pairs()[i].0, value),
                    )
            } else {
                &&& final(self).pairs().len() == old(self).pairs().len() + 1
                &&& final(self).pairs().drop_last() == old(self).pairs()
                &&& final(self).pairs().last().0@ == key@
                &&& final(self).pairs().last().1 == value
            },
    {
        proof {
            use_type_invariant(&*self);
            lemma_pairs_map_dom(self.pairs(), key@);
        }
        let found = self.position(key);
        let mut entries: Vec<(String, V)> = Vec::new();
        std::mem::swap(&mut entries, &mut self.entries);
        let ghost before = entries@;
        match found {
            Some(i) => {
                entries[i].1 = value;
                proof {
                    assert(key_at(before, i as int) == key@);
                    assert(entries@ =~= before.update(i as int, (before[i as int].0, value)));
                    assert(forall|j: int| 0 <= j < before.len() ==> #[trigger] entries@[j].0@ == before[j].0@);
                }
            },
            None => {
                entries.push((key.to_owned(), value));
                proof {
                    assert(forall|j: int| 0 <= j < before.len() ==> #[trigger] key_at(before, j) != key@);
                    assert(entries@.drop_last() =~= before);
                }
            },
        }
        proof {
            let after = pairs_map(before).insert(key@, value);
            assert(distinct_keys(entries@)) by {
                assert forall|i: int, j: int| 0 <= i < j < entries@.len() implies
                    (#[trigger] entries@[i]).0@ != (#[trigger] entries@[j]).0@ by {
                    if j < before.len() {
                        assert(before[i].0@ != before[j].0@);
                    } else {
                        assert(key_at(before, i) != key@);
                    }
                }
            }
            assert forall|i: int| 0 <= i < entries@.len() implies
                after.contains_key(#[trigger] key_at(entries@, i)) && after[key_at(entries@, i)] == entries@[i].1 by {
                if i < before.len() {
                    lemma_pairs_map_at(before, i);
                    assert(key_at(entries@, i) == key_at(before, i));
                }
            }
            assert forall|k: Seq<char>| #[trigger] after.contains_key(k) implies exists|i: int|
                0 <= i < entries@.len() && #[trigger] key_at(entries@, i) == k by {
                if k == key@ {
                    match found {
                        Some(i) => {
                            assert(key_at(entries@, i as int) == k);
                        },
                        None => {
                            assert(key_at(entries@, before.len() as int) == k);
                        },
                    }
                } else {
                    lemma_pairs_map_dom(before, k);
                    let i = choose|i: int| 0 <= i < before.len() && #[trigger] key_at(before, i) == k;
                    assert(key_at(entries@, i) == k);
                }
            }
            lemma_pairs_map_is(entries@, after);
        }
        self.entries = entries;
    }

    /// Take the value under `key` out of the map. The other keys keep their order.
    pub fn remove(&mut self, key: &str) -> (r: Option<V>)
        ensures
            final(self)@ == old(self)@.remove(key@),
            match r {
                Some(v) => {
                    &&& old(self)@.contains_key(key@)
                    &&& v == old(self)@[key@]
                    &&& exists|i: int|
                        0 <= i < old(self).pairs().len() && #[trigger] key_at(old(self).pairs(), i)
                            == key@ && final(self).pairs() == old(self).pairs().remove(i)
                },
                None => !old(self)@.contains_key(key@) && final(self).pairs() == old(self).pairs(),
            },
    {
        proof {
            use_type_invariant(&*self);
            lemma_pairs_map_dom(self.pairs(), key@);
        }
        match self.position(key) {
            Some(i) => {
                let mut entries: Vec<(String, V)> = Vec::new();
                std::mem::swap(&mut entries, &mut self.entries);
                let ghost before = entries@;
                let (_, value) = entries.remove(i);
                proof {
                    lemma_pairs_map_at(before, i as int);
                    assert(key_at(before, i as int) == key@);
                    assert(entries@ =~= before.remove(i as int));
                    let after = pairs_map(before).remove(key@);
                    assert(forall|j: int| 0 <= j < entries@.len() ==> #[trigger] entries@[j]
                        == before[if j < i { j } else { j + 1 }]);
                    assert(distinct_keys(entries@)) by {
                        assert forall|a: int, b: int| 0 <= a < b < entries@.len() implies
                            (#[trigger] entries@[a]).0@ != (#[trigger] entries@[b]).0@ by {
                            let a1 = if a < i { a } else { a + 1 };
                            let b1 = if b < i { b } else { b + 1 };
                            assert(before[a1].0@ != before[b1].0@);
                        }
                    }
                    assert forall|j: int| 0 <= j < entries@.len() implies
                        after.contains_key(#[trigger] key_at(entries@, j)) && after[key_at(entries@, j)] == entries@[j].1 by {
                        let j1 = if j < i { j } else { j + 1 };
                        lemma_pairs_map_at(before, j1);
                        assert(key_at(entries@, j) == key_at(before, j1));
                        if j1 < i {
                            assert(before[j1].0@ != before[i as int].0@);
                        } else {
                            assert(before[i as int].0@ != before[j1].0@);
                        }
                    }
                    assert forall|k: Seq<char>| #[trigger] after.contains_key(k) implies exists|j: int|
                        0 <= j < entries@.len() && #[trigger] key_at(entries@, j) == k by {
                        lemma_pairs_map_dom(before, k);
                        let j = choose|j: int| 0 <= j < before.len() && #[trigger] key_at(before, j) == k;
                        if j < i {
                            assert(key_at(entries@, j) == k);
                        } else {
                            assert(key_at(entries@, j - 1) == k);
                        }
                    }
                    lemma_pairs_map_is(entries@, after);
                }
                self.entries = entries;
                Some(value)
            },
            None => {
                proof {
                    assert(self@.remove(key@) =~= self@);
                }
                None
            },
        }
    }
}

impl<V: Clone> Clone for StrMap<V> {
    /// A copy: the same keys in the same order, each with a clone of its value.
    fn clone(&self) -> (r: Self)
        ensures
            r.pairs().len() == self.pairs().len(),
            forall|i: int|
                0 <= i < self.pairs().len() ==> (#[trigger] r.pairs()[i]).0@
                    == self.pairs()[i].0@ && cloned::<V>(self.pairs()[i].1, r.pairs()[i].1),
            distinct_keys(r.pairs()),
    {
        proof {
            use_type_invariant(self);
        }
        let ghost pairs = self.entries@;
        let mut entries: Vec<(String, V)> = Vec::new();
        let mut i: usize = 0;
        while i < self.entries.len()
            invariant
                pairs == self.entries@,
                i <= pairs.len(),
                entries@.len() == i,
                forall|j: int|
                    0 <= j < i ==> (#[trigger] entries@[j]).0@ == pairs[j].0@ && cloned::<V>(
                        pairs[j].1,
                        entries@[j].1,
                    ),
            decreases pairs.len() - i,
        {
            let key = self.entries[i].0.clone();
            let value = self.entries[i].1.clone();
            entries.push((key, value));
            i += 1;
        }
        proof {
            assert forall|a: int, b: int| 0 <= a < b < entries@.len() implies (
            #[trigger] entries@[a]).0@ != (#[trigger] entries@[b]).0@ by {
                assert(pairs[a].0@ != pairs[b].0@);
            }
        }
        StrMap { entries }
    }
}

} // verus!
