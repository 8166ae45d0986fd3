//! A map whose keys are compared for equality alone. In which order it is
//! walked is not part of its meaning.

use vstd::prelude::*;

verus! {

/// What can be a key: something whose model decides equality.
pub trait MapKey: View + Sized {
    /// Whether two keys are equal.
    fn same(&self, other: &Self) -> (r: bool)
        ensures
            r == (self@ == other@),
    ;
}

impl MapKey for String {
    fn same(&self, other: &Self) -> (r: bool) {
        *self == *other
    }
}

/// A map from keys to values.
pub struct AssocMap<K: MapKey, V> {
    entries: Vec<(K, V)>,
}

impl<K: MapKey, V> View for AssocMap<K, V> {
    type V = Map<K::V, V>;

    closed spec fn view(&self) -> Map<K::V, V> {
        Map::new(
            |k: K::V| exists|i: int| 0 <= i < self.entries@.len() && #[trigger] self.entries@[i].0@ == k,
            |k: K::V|
                self.entries@[choose|i: int|
                    0 <= i < self.entries@.len() && #[trigger] self.entries@[i].0@ == k].1,
        )
    }
}

impl<K: MapKey, V> AssocMap<K, V> {
    /// The keys, in some order.
    pub closed spec fn keys(&self) -> Seq<K::V> {
        Seq::new(self.entries@.len(), |i: int| self.entries@[i].0@)
    }

    /// No key occurs twice.
    pub open spec fn wf(&self) -> bool {
        forall|i: int, j: int|
            #![trigger self.keys()[i], self.keys()[j]]
            0 <= i < j < self.keys().len() ==> self.keys()[i] != self.keys()[j]
    }

    proof fn lemma_at(&self, i: int)
        requires
            self.wf(),
            0 <= i < self.entries@.len(),
        ensures
            self@.contains_key(self.entries@[i].0@),
            self@[self.entries@[i].0@] == self.entries@[i].1,
    {
        let k = self.entries@[i].0@;
        let j = choose|j: int| 0 <= j < self.entries@.len() && #[trigger] self.entries@[j].0@ == k;
        assert(self.keys()[i] == k && self.keys()[j] == k);
    }

    /// The walk visits exactly the keys of the map.
    pub proof fn keys_are_the_domain(&self)
        ensures
            self.keys().to_set() == self@.dom(),
    {
        assert forall|k: K::V| self.keys().to_set().contains(k) == self@.dom().contains(k) by {
            if self.keys().contains(k) {
                let i = choose|i: int| 0 <= i < self.keys().len() && self.keys()[i] == k;
                assert(self.entries@[i].0@ == k);
            }
            if self@.dom().contains(k) {
                let i = choose|i: int|
                    0 <= i < self.entries@.len() && #[trigger] self.entries@[i].0@ == k;
                assert(self.keys()[i] == k);
            }
        }
        assert(self.keys().to_set() =~= self@.dom());
    }

    /// An empty map.
    pub fn new() -> (r: Self)
        ensures
            r.wf(),
            r@ == Map::<K::V, V>::empty(),
    {
        let r = AssocMap { entries: Vec::new() };
        assert(r@ =~= Map::<K::V, V>::empty());
        r
    }

    /// How many keys the map has.
    pub fn len(&self) -> (r: usize)
        ensures
            r == self.keys().len(),
    {
        self.entries.len()
    }

    /// The key at a position of the walk.
    pub fn key_at(&self, i: usize) -> (r: &K)
        requires
            i < self.keys().len(),
        ensures
            r@ == self.keys()[i as int],
    {
        &self.entries[i].0
    }

    /// The value at a position of the walk.
    pub fn value_at(&self, i: usize) -> (r: &V)
        requires
            self.wf(),
            i < self.keys().len(),
        ensures
            self@.contains_key(self.keys()[i as int]),
            *r == self@[self.keys()[i as int]],
    {
        proof {
            self.lemma_at(i as int);
        }
        &self.entries[i].1
    }

    fn position(&self, key: &K) -> (r: Option<usize>)
        ensures
            r is Some == self@.contains_key(key@),
            r matches Some(i) ==> i < self.entries@.len() && self.entries@[i as int].0@ == key@,
    {
        let mut i: usize = 0;
        while i < self.entries.len()
            invariant
                i <= self.entries@.len(),
                forall|j: int| 0 <= j < i ==> #[trigger] self.entries@[j].0@ != key@,
            decreases self.entries@.len() - i,
        {
            if self.entries[i].0.same(key) {
                return Some(i);
            }
            i = i + 1;
        }
        None
    }

    /// Looks a key up.
    pub fn get(&self, key: &K) -> (r: Option<&V>)
        requires
            self.wf(),
        ensures
            r is Some == self@.contains_key(key@),
            r matches Some(v) ==> *v == self@[key@],
    {
        match self.position(key) {
            Some(i) => {
                proof {
                    self.lemma_at(i as int);
                }
                Some(&self.entries[i].1)
            },
            None => None,
        }
    }

    /// Takes a key out of the map, with what it was mapped to.
    pub fn remove(&mut self, key: &K) -> (r: Option<V>)
        requires
            old(self).wf(),
        ensures
            final(self).wf(),
            final(self)@ == old(self)@.remove(key@),
            r is Some == old(self)@.contains_key(key@),
            r matches Some(v) ==> v == old(self)@[key@],
    {
        let ghost before = *self;
        match self.position(key) {
            Some(i) => {
                let (_, v) = self.entries.remove(i);
                proof {
                    before.lemma_at(i as int);
                    before.lemma_remove(*self, i as int);
                }
                Some(v)
            },
            None => {
                assert(self@ =~= before@.remove(key@));
                None
            },
        }
    }

    proof fn lemma_remove(self, after: Self, i: int)
        requires
            self.wf(),
            0 <= i < self.entries@.len(),
            after.entries@ == self.entries@.remove(i),
        ensures
            after.wf(),
            after@ == self@.remove(self.entries@[i].0@),
    {
        let key = self.entries@[i].0@;
        assert forall|a: int, b: int|
            #![trigger after.keys()[a], after.keys()[b]]
            0 <= a < b < after.keys().len() implies after.keys()[a] != after.keys()[b] by {
            let a0 = if a < i { a } else { a + 1 };
            let b0 = if b < i { b } else { b + 1 };
            assert(after.keys()[a] == self.keys()[a0]);
            assert(after.keys()[b] == self.keys()[b0]);
        }
        assert forall|k: K::V| after@.contains_key(k) == self@.remove(key).contains_key(k) by {
            if after@.contains_key(k) {
                let j = choose|j: int| 0 <= j < after.entries@.len() && #[trigger] after.entries@[j].0@ == k;
                let j0 = if j < i { j } else { j + 1 };
                assert(self.entries@[j0].0@ == k);
                assert(self.keys()[j0] == k && self.keys()[i] == key);
            }
            if self@.contains_key(k) && k != key {
                let j = choose|j: int| 0 <= j < self.entries@.len() && #[trigger] self.entries@[j].0@ == k;
                let j1 = if j < i { j } else { j - 1 };
                assert(after.entries@[j1].0@ == k);
            }
        }
        assert forall|k: K::V| #[trigger] after@.contains_key(k) implies after@[k] == self@.remove(
            key,
        )[k] by {
            let j = choose|j: int| 0 <= j < after.entries@.len() && #[trigger] after.entries@[j].0@ == k;
            let j0 = if j < i { j } else { j + 1 };
            after.lemma_at(j);
            self.lemma_at(j0);
        }
        assert(after@ =~= self@.remove(key));
    }

    /// Maps a key to a value, in place of what it was mapped to before.
    pub fn insert(&mut self, key: K, value: V)
        requires
            old(self).wf(),
        ensures
            final(self).wf(),
            final(self)@ == old(self)@.insert(key@, value),
    {
        let ghost start = self@;
        let _ = self.remove(&key);
        let ghost before = *self;
        self.entries.push((key, value));
        proof {
            before.lemma_push(*self, key, value);
            assert(start.remove(key@).insert(key@, value) =~= start.insert(key@, value));
        }
    }

    proof fn lemma_push(self, after: Self, key: K, value: V)
        requires
            self.wf(),
            !self@.contains_key(key@),
            after.entries@ == self.entries@.push((key, value)),
        ensures
            after.wf(),
            after@ == self@.insert(key@, value),
    {
        let n = self.entries@.len();
        assert forall|a: int, b: int|
            #![trigger after.keys()[a], after.keys()[b]]
            0 <= a < b < after.keys().len() implies after.keys()[a] != after.keys()[b] by {
            assert(after.keys()[a] == self.keys()[a]);
            if b < n {
                assert(after.keys()[b] == self.keys()[b]);
            } else {
                assert(self.entries@[a].0@ == self.keys()[a]);
            }
        }
        assert forall|k: K::V| after@.contains_key(k) == self@.insert(key@, value).contains_key(k) by {
            if after@.contains_key(k) {
                let j = choose|j: int| 0 <= j < after.entries@.len() && #[trigger] after.entries@[j].0@ == k;
                if j < n {
                    assert(self.entries@[j].0@ == k);
                }
            }
            if self@.contains_key(k) {
                let j = choose|j: int| 0 <= j < self.entries@.len() && #[trigger] self.entries@[j].0@ == k;
                assert(after.entries@[j].0@ == k);
            }
            assert(after.entries@[n as int].0@ == key@);
        }
        assert forall|k: K::V| #[trigger] after@.contains_key(k) implies after@[k] == self@.insert(
            key@,
            value,
        )[k] by {
            let j = choose|j: int| 0 <= j < after.entries@.len() && #[trigger] after.entries@[j].0@ == k;
            after.lemma_at(j);
            if j < n {
                self.lemma_at(j);
            }
        }
        assert(after@ =~= self@.insert(key@, value));
    }
}

} // verus!
