//! A map from texts to values that is walked in the order of its keys.

use crate::order::{precedes, text_precedes};
use vstd::prelude::*;

verus! {

/// Whether a map is walked in the order of these keys: each of its keys occurs
/// once, and they are sorted.
pub open spec fn is_walk<V>(keys: Seq<Seq<char>>, map: Map<Seq<char>, V>) -> bool {
    &&& forall|i: int, j: int|
        0 <= i < j < keys.len() ==> #[trigger] precedes(keys[i], keys[j])
    &&& keys.to_set() == map.dom()
}

/// Whether these are the values of a map, in the order of its keys.
pub open spec fn are_values_of<V>(values: Seq<V>, map: Map<Seq<char>, V>) -> bool {
    exists|keys: Seq<Seq<char>>| #[trigger]
        is_walk(keys, map) && values.len() == keys.len() && forall|i: int|
            0 <= i < keys.len() ==> #[trigger] values[i] == map[keys[i]]
}

/// A map from texts to values, kept sorted by key.
pub struct OrderedMap<V> {
    entries: Vec<(String, V)>,
}

impl<V> View for OrderedMap<V> {
    type V = Map<Seq<char>, V>;

    closed spec fn view(&self) -> Map<Seq<char>, V> {
        Map::new(
            |k: Seq<char>| exists|i: int| 0 <= i < self.entries@.len() && #[trigger] self.entries@[i].0@ == k,
            |k: Seq<char>|
                self.entries@[choose|i: int|
                    0 <= i < self.entries@.len() && #[trigger] self.entries@[i].0@ == k].1,
        )
    }
}

impl<V> OrderedMap<V> {
    /// The keys, in the order in which the map is walked.
    pub closed spec fn keys(&self) -> Seq<Seq<char>> {
        Seq::new(self.entries@.len(), |i: int| self.entries@[i].0@)
    }

    /// The entries are sorted by key, and no key occurs twice.
    pub open spec fn wf(&self) -> bool {
        forall|i: int, j: int|
            0 <= i < j < self.keys().len() ==> #[trigger] precedes(self.keys()[i], self.keys()[j])
    }

    /// What the model holds at the position of a key.
    proof fn lemma_at(&self, i: int)
        requires
            self.wf(),
            0 <= i < self.entries@.len(),
        ensures
            self@.contains_key(self.entries@[i].0@),
            self@[self.entries@[i].0@] == self.entries@[i].1,
    {
        let k = self.entries@[i].0@;
        assert forall|j: int|
            0 <= j < self.entries@.len() && #[trigger] self.entries@[j].0@ == k implies j == i by {
            assert(self.keys()[i] == k && self.keys()[j] == k);
            crate::order::precedes_irreflexive(k);
            if j < i {
                assert(precedes(self.keys()[j], self.keys()[i]));
            } else if i < j {
                assert(precedes(self.keys()[i], self.keys()[j]));
            }
        }
    }

    /// The walk visits exactly the keys of the map.
    pub proof fn keys_are_the_domain(&self)
        ensures
            self.keys().to_set() == self@.dom(),
    {
        assert forall|k: Seq<char>| self.keys().to_set().contains(k) == self@.dom().contains(k) by {
            if self.keys().contains(k) {
                let i = choose|i: int| 0 <= i < self.keys().len() && self.keys()[i] == k;
                assert(self.entries@[i].0@ == k);
            }
            if self@.dom().contains(k) {
                let i = choose|i: int|
                    0 <= i < self.entries@.len() && #[trigger] self.entries@[i].0@ == k;
                assert(self.keys()[i] == k);
            }
        }
        assert(self.keys().to_set() =~= self@.dom());
    }

    /// An empty map.
    pub fn new() -> (r: Self)
        ensures
            r.wf(),
            r@ == Map::<Seq<char>, V>::empty(),
            r.keys() == Seq::<Seq<char>>::empty(),
    {
        let r = OrderedMap { entries: Vec::new() };
        assert(r@ =~= Map::<Seq<char>, V>::empty());
        assert(r.keys() =~= Seq::<Seq<char>>::empty());
        r
    }

    /// How many keys the map has.
    pub fn len(&self) -> (r: usize)
        ensures
            r == self.keys().len(),
    {
        self.entries.len()
    }

    /// Whether the map is empty.
    pub fn is_empty(&self) -> (r: bool)
        ensures
            r == (self@ == Map::<Seq<char>, V>::empty()),
            r == (self.keys().len() == 0),
    {
        let r = self.entries.len() == 0;
        proof {
            if r {
                assert(self@ =~= Map::<Seq<char>, V>::empty());
            } else {
                assert(self@.contains_key(self.entries@[0].0@));
            }
        }
        r
    }

    /// The key at a position of the walk.
    pub fn key_at(&self, i: usize) -> (r: &String)
        requires
            i < self.keys().len(),
        ensures
            r@ == self.keys()[i as int],
    {
        &self.entries[i].0
    }

    /// The value at a position of the walk.
    pub fn value_at(&self, i: usize) -> (r: &V)
        requires
            self.wf(),
            i < self.keys().len(),
        ensures
            self@.contains_key(self.keys()[i as int]),
            *r == self@[self.keys()[i as int]],
    {
        proof {
            self.lemma_at(i as int);
        }
        &self.entries[i].1
    }

    /// The values, in the order of the walk.
    pub fn values(&self) -> (r: Vec<&V>)
        requires
            self.wf(),
        ensures
            are_values_of(r@.map_values(|v: &V| *v), self@),
            r@.len() == self.keys().len(),
    {
        let mut out: Vec<&V> = Vec::new();
        let mut i: usize = 0;
        while i < self.entries.len()
            invariant
                self.wf(),
                i <= self.entries@.len(),
                out@.len() == i,
                forall|j: int| 0 <= j < i ==> *(#[trigger] out@[j]) == self@[self.keys()[j]],
            decreases self.entries@.len() - i,
        {
            out.push(self.value_at(i));
            i = i + 1;
        }
        proof {
            self.keys_are_the_domain();
            assert(is_walk(self.keys(), self@));
        }
        out
    }

    /// How many keys come strictly before `key`.
    fn rank(&self, key: &str) -> (r: usize)
        requires
            self.wf(),
        ensures
            r <= self.entries@.len(),
            forall|i: int| 0 <= i < r ==> precedes(#[trigger] self.entries@[i].0@, key@),
            forall|i: int| r <= i < self.entries@.len() ==> !precedes(#[trigger] self.entries@[i].0@, key@),
    {
        let mut i: usize = 0;
        while i < self.entries.len() && text_precedes(self.entries[i].0.as_str(), key)
            invariant
                i <= self.entries@.len(),
                forall|j: int| 0 <= j < i ==> precedes(#[trigger] self.entries@[j].0@, key@),
            decreases self.entries@.len() - i,
        {
            i = i + 1;
        }
        proof {
            assert forall|j: int| i <= j < self.entries@.len() implies !precedes(
                #[trigger] self.entries@[j].0@,
                key@,
            ) by {
                if i < j && precedes(self.entries@[j].0@, key@) {
                    assert(precedes(self.keys()[i as int], self.keys()[j]));
                    crate::order::precedes_transitive(
                        self.entries@[i as int].0@,
                        self.entries@[j].0@,
                        key@,
                    );
                }
            }
        }
        i
    }

    /// Where a key stands, if the map has it.
    proof fn lemma_rank_finds(&self, key: Seq<char>, r: int)
        requires
            self.wf(),
            0 <= r <= self.entries@.len(),
            forall|i: int| 0 <= i < r ==> precedes(#[trigger] self.entries@[i].0@, key),
            forall|i: int| r <= i < self.entries@.len() ==> !precedes(#[trigger] self.entries@[i].0@, key),
        ensures
            self@.contains_key(key) == (r < self.entries@.len() && self.entries@[r].0@ == key),
    {
        if self@.contains_key(key) {
            let i = choose|i: int| 0 <= i < self.entries@.len() && #[trigger] self.entries@[i].0@ == key;
            crate::order::precedes_irreflexive(key);
            if r < i {
                assert(precedes(self.keys()[r], self.keys()[i]));
            }
        }
    }

    /// Looks a key up.
    pub fn get(&self, key: &str) -> (r: Option<&V>)
        requires
            self.wf(),
        ensures
            r is Some == self@.contains_key(key@),
            r matches Some(v) ==> *v == self@[key@],
    {
        let i = self.rank(key);
        proof {
            self.lemma_rank_finds(key@, i as int);
            if i < self.entries@.len() {
                self.lemma_at(i as int);
            }
        }
        if i < self.entries.len() && self.entries[i].0 == key.to_owned() {
            Some(&self.entries[i].1)
        } else {
            None
        }
    }

    /// Maps a key to a value, in place of what it was mapped to before.
    pub fn insert(&mut self, key: String, value: V)
        requires
            old(self).wf(),
        ensures
            final(self).wf(),
            final(self)@ == old(self)@.insert(key@, value),
    {
        let i = self.rank(key.as_str());
        let ghost before = *self;
        proof {
            self.lemma_rank_finds(key@, i as int);
        }
        if i < self.entries.len() && self.entries[i].0 == key {
            let _ = self.entries.remove(i);
            assert(before.entries@.remove(i as int).insert(i as int, (key, value)) =~= before.entries@.update(i as int, (key, value)));
        }
        self.entries.insert(i, (key, value));
        proof {
            before.lemma_insert(*self, key, value, i as int);
        }
    }

    /// Putting an entry at its rank keeps the order and maps the key.
    proof fn lemma_insert(self, after: Self, key: String, value: V, i: int)
        requires
            self.wf(),
            0 <= i <= self.entries@.len(),
            forall|j: int| 0 <= j < i ==> precedes(#[trigger] self.entries@[j].0@, key@),
            forall|j: int| i <= j < self.entries@.len() ==> !precedes(#[trigger] self.entries@[j].0@, key@),
            if i < self.entries@.len() && self.entries@[i].0@ == key@ {
                after.entries@ == self.entries@.update(i, (key, value))
            } else {
                after.entries@ == self.entries@.insert(i, (key, value))
            },
        ensures
            after.wf(),
            after@ == self@.insert(key@, value),
    {
        let replaced = i < self.entries@.len() && self.entries@[i].0@ == key@;
        self.lemma_rank_finds(key@, i);
        assert forall|a: int, b: int| 0 <= a < b < after.keys().len() implies #[trigger] precedes(
            after.keys()[a],
            after.keys()[b],
        ) by {
            let d: int = if replaced { 0 } else { 1 };
            let a0 = if a < i { a } else { a - d };
            let b0 = if b <= i { b } else { b - d };
            if a != i && b != i {
                assert(precedes(self.keys()[a0], self.keys()[b0]));
            } else if a == i {
                let k = self.entries@[b0].0@;
                crate::order::precedes_total(k, key@);
                if k == key@ {
                    assert(self.keys()[b0] == k);
                    assert(self@.contains_key(key@));
                    assert(precedes(self.keys()[i], self.keys()[b0]));
                    crate::order::precedes_irreflexive(k);
                }
            }
        }
        assert forall|k: Seq<char>| after@.contains_key(k) == self@.insert(key@, value).contains_key(
            k,
        ) by {
            if after@.contains_key(k) {
                let j = choose|j: int| 0 <= j < after.entries@.len() && #[trigger] after.entries@[j].0@ == k;
                if j != i {
                    let j0 = if j < i || replaced { j } else { j - 1 };
                    assert(self.entries@[j0].0@ == k);
                }
            }
            if self@.contains_key(k) {
                let j = choose|j: int| 0 <= j < self.entries@.len() && #[trigger] self.entries@[j].0@ == k;
                let j1 = if j < i || replaced { j } else { j + 1 };
                assert(after.entries@[j1].0@ == k);
            }
            assert(after.entries@[i].0@ == key@);
        }
        assert forall|k: Seq<char>| #[trigger] after@.contains_key(k) implies after@[k] == self@.insert(
            key@,
            value,
        )[k] by {
            let j = choose|j: int| 0 <= j < after.entries@.len() && #[trigger] after.entries@[j].0@ == k;
            after.lemma_at(j);
            after.lemma_at(i);
            if j != i {
                let j0 = if j < i || replaced { j } else { j - 1 };
                assert(self.entries@[j0] == after.entries@[j]);
                self.lemma_at(j0);
                if k == key@ {
                    assert(after.keys()[i] == after.keys()[j]);
                    crate::order::precedes_irreflexive(k);
                    if i < j {
                        assert(precedes(after.keys()[i], after.keys()[j]));
                    } else {
                        assert(precedes(after.keys()[j], after.keys()[i]));
                    }
                }
            }
        }
        assert(after@ =~= self@.insert(key@, value));
    }
}

/// The values of a map are given in the order of its keys, so many as there are
/// keys, and each is that of its key.
pub proof fn values_follow_the_keys<V>(
    keys: Seq<Seq<char>>,
    map: Map<Seq<char>, V>,
    key: Seq<char>,
    i: int,
    j: int,
)
    requires
        is_walk(keys, map),
    ensures
        keys.contains(key) == map.contains_key(key),
        0 <= i < j < keys.len() ==> precedes(keys[i], keys[j]) && keys[i] != keys[j],
{
    assert(keys.to_set().contains(key) == map.dom().contains(key));
    if 0 <= i < j < keys.len() {
        assert(precedes(keys[i], keys[j]));
        crate::order::precedes_irreflexive(keys[i]);
    }
}

} // verus!
