//! An in-memory key-value table keyed by text, the storage under both the
//! credential store and the cache.

use vstd::prelude::*;
use crate::text::same_text;

verus! {

/// Entries keyed by text; each key appears at most once.
pub struct KeyValueStore<V> {
    keys: Vec<String>,
    values: Vec<V>,
}

impl<V> KeyValueStore<V> {
    pub closed spec fn wf(&self) -> bool {
        &&& self.keys.len() == self.values.len()
        &&& forall|i: int, j: int|
            0 <= i < self.keys.len() && 0 <= j < self.keys.len() && i != j
                ==> self.keys[i]@ != self.keys[j]@
    }

    pub closed spec fn holds_at(&self, k: Seq<char>, i: int) -> bool {
        0 <= i < self.keys.len() && self.keys[i]@ == k
    }

    /// The entries as a map from key to value.
    pub closed spec fn view(&self) -> Map<Seq<char>, V> {
        Map::new(
            |k: Seq<char>| exists|i: int| self.holds_at(k, i),
            |k: Seq<char>| self.values[choose|i: int| self.holds_at(k, i)],
        )
    }

    /// The values in the order in which they are kept.
    pub closed spec fn entries(&self) -> Seq<V> {
        self.values@
    }

    proof fn lemma_at(&self, k: Seq<char>, i: int)
        requires
            self.wf(),
            self.holds_at(k, i),
        ensures
            self@.contains_key(k),
            self@[k] == self.values[i],
    {
        let j = choose|j: int| self.holds_at(k, j);
        assert(self.holds_at(k, j));
    }

    /// The keys, in the order of `entries`.
    pub closed spec fn key_list(&self) -> Seq<Seq<char>> {
        Seq::new(self.keys.len() as nat, |i: int| self.keys[i]@)
    }

    /// The entries in order are exactly the map's contents, each under its key.
    pub proof fn lemma_entries(&self)
        requires
            self.wf(),
        ensures
            self.key_list().len() == self.entries().len(),
            forall|i: int| 0 <= i < self.entries().len()
                ==> #[trigger] self@.contains_key(self.key_list()[i]) && self@[self.key_list()[i]] == self.entries()[i],
            forall|k: Seq<char>| #[trigger] self@.contains_key(k)
                ==> exists|i: int| 0 <= i < self.entries().len() && self.key_list()[i] == k,
            forall|i: int, j: int| 0 <= i < self.entries().len() && 0 <= j < self.entries().len() && i != j
                ==> self.key_list()[i] != self.key_list()[j],
    {
        assert forall|i: int| 0 <= i < self.entries().len()
            implies #[trigger] self@.contains_key(self.key_list()[i]) && self@[self.key_list()[i]] == self.entries()[i] by {
            self.lemma_at(self.keys[i]@, i);
        }
        assert forall|k: Seq<char>| #[trigger] self@.contains_key(k)
            implies exists|i: int| 0 <= i < self.entries().len() && self.key_list()[i] == k by {
            let j = choose|j: int| self.holds_at(k, j);
            assert(self.key_list()[j] == k);
        }
    }

    pub fn new() -> (r: Self)
        ensures
            r.wf(),
            r@ == Map::<Seq<char>, V>::empty(),
    {
        let r = KeyValueStore { keys: Vec::new(), values: Vec::new() };
        assert(r@ =~= Map::<Seq<char>, V>::empty());
        r
    }

    fn position(&self, k: &str) -> (r: Option<usize>)
        requires
            self.wf(),
        ensures
            r matches Some(i) ==> self.holds_at(k@, i as int),
            r is None ==> !self@.contains_key(k@),
    {
        let mut i: usize = 0;
        while i < self.keys.len()
            invariant
                self.wf(),
                i <= self.keys.len(),
                forall|j: int| 0 <= j < i ==> self.keys[j]@ != k@,
            decreases self.keys.len() - i,
        {
            if same_text(self.keys[i].as_str(), k) {
                return Some(i);
            }
            i += 1;
        }
        None
    }

    pub fn get(&self, k: &str) -> (r: Option<&V>)
        requires
            self.wf(),
        ensures
            r matches Some(v) ==> self@.contains_key(k@) && *v == self@[k@],
            r is None ==> !self@.contains_key(k@),
    {
        match self.position(k) {
            Some(i) => {
                proof {
                    self.lemma_at(k@, i as int);
                }
                Some(&self.values[i])
            },
            None => None,
        }
    }

    /// Sets the value under `k`, replacing any value that was there.
    pub fn insert(&mut self, k: String, v: V)
        requires
            old(self).wf(),
        ensures
            final(self).wf(),
            final(self)@ == old(self)@.insert(k@, v),
    {
        match self.position(k.as_str()) {
            Some(i) => {
                self.values.set(i, v);
                assert forall|key: Seq<char>| #[trigger] self@.contains_key(key) == old(self)@.insert(k@, v).contains_key(key) by {
                    if old(self)@.contains_key(key) {
                        let j = choose|j: int| old(self).holds_at(key, j);
                        assert(self.holds_at(key, j));
                    }
                    if self@.contains_key(key) {
                        let j = choose|j: int| self.holds_at(key, j);
                        assert(old(self).holds_at(key, j));
                    }
                }
                assert forall|key: Seq<char>| #[trigger] self@.contains_key(key) implies self@[key] == old(self)@.insert(k@, v)[key] by {
                    let j = choose|j: int| self.holds_at(key, j);
                    self.lemma_at(key, j);
                    if j != i as int {
                        old(self).lemma_at(key, j);
                    }
                }
                assert(self@ =~= old(self)@.insert(k@, v));
            },
            None => {
                let ghost kk = k@;
                self.keys.push(k);
                self.values.push(v);
                let ghost n = self.keys.len() - 1;
                assert forall|j: int| 0 <= j < n implies old(self).keys[j]@ != kk by {
                    if old(self).keys[j]@ == kk {
                        assert(old(self).holds_at(kk, j));
                    }
                }
                assert forall|a: int, b: int|
                    0 <= a < self.keys.len() && 0 <= b < self.keys.len() && a != b
                        implies self.keys[a]@ != self.keys[b]@ by {
                    if a < n {
                        assert(self.keys[a] == old(self).keys[a]);
                    }
                    if b < n {
                        assert(self.keys[b] == old(self).keys[b]);
                    }
                }
                assert(self.holds_at(kk, n));
                assert forall|key: Seq<char>| #[trigger] self@.contains_key(key) == old(self)@.insert(kk, v).contains_key(key) by {
                    if old(self)@.contains_key(key) {
                        let j = choose|j: int| old(self).holds_at(key, j);
                        assert(self.holds_at(key, j));
                    }
                    if self@.contains_key(key) && key != kk {
                        let j = choose|j: int| self.holds_at(key, j);
                        assert(j != n);
                        assert(old(self).holds_at(key, j));
                    }
                }
                assert forall|key: Seq<char>| #[trigger] self@.contains_key(key) implies self@[key] == old(self)@.insert(kk, v)[key] by {
                    let j = choose|j: int| self.holds_at(key, j);
                    self.lemma_at(key, j);
                    if key != kk {
                        old(self).lemma_at(key, j);
                    } else {
                        self.lemma_at(key, n);
                    }
                }
                assert(self@ =~= old(self)@.insert(kk, v));
            },
        }
    }

    /// Removes the entry under `k`; says whether there was one.
    pub fn remove(&mut self, k: &str) -> (r: bool)
        requires
            old(self).wf(),
        ensures
            final(self).wf(),
            r == old(self)@.contains_key(k@),
            final(self)@ == old(self)@.remove(k@),
    {
        match self.position(k) {
            Some(i) => {
                proof {
                    old(self).lemma_at(k@, i as int);
                }
                self.keys.remove(i);
                self.values.remove(i);
                assert forall|a: int, b: int|
                    0 <= a < self.keys.len() && 0 <= b < self.keys.len() && a != b
                        implies self.keys[a]@ != self.keys[b]@ by {
                    let oa = if a < i { a } else { a + 1 };
                    let ob = if b < i { b } else { b + 1 };
                    assert(self.keys[a] == old(self).keys[oa]);
                    assert(self.keys[b] == old(self).keys[ob]);
                }
                assert forall|key: Seq<char>| #[trigger] self@.contains_key(key) == old(self)@.remove(k@).contains_key(key) by {
                    if self@.contains_key(key) {
                        let j = choose|j: int| self.holds_at(key, j);
                        let oj = if j < i { j } else { j + 1 };
                        assert(old(self).holds_at(key, oj));
                    }
                    if old(self)@.contains_key(key) && key != k@ {
                        let j = choose|j: int| old(self).holds_at(key, j);
                        assert(j != i);
                        let nj = if j < i { j } else { j - 1 };
                        assert(self.holds_at(key, nj));
                    }
                }
                assert forall|key: Seq<char>| #[trigger] self@.contains_key(key) implies self@[key] == old(self)@.remove(k@)[key] by {
                    let j = choose|j: int| self.holds_at(key, j);
                    self.lemma_at(key, j);
                    let oj = if j < i { j } else { j + 1 };
                    old(self).lemma_at(key, oj);
                }
                assert(self@ =~= old(self)@.remove(k@));
                true
            },
            None => {
                assert(self@ =~= old(self)@.remove(k@));
                false
            },
        }
    }

    pub fn len(&self) -> (r: usize)
        ensures
            r == self.entries().len(),
    {
        self.values.len()
    }

    pub fn value_at(&self, i: usize) -> (r: &V)
        requires
            i < self.entries().len(),
        ensures
            *r == self.entries()[i as int],
    {
        &self.values[i]
    }
}

} // verus!
