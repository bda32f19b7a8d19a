//! An association map keyed by strings, kept in insertion order.

use vstd::prelude::*;
use crate::text::str_eq;

verus! {

/// A map from string keys to values; no key occurs twice. The keys and
/// the values are kept side by side, the value of `names[i]` at `values[i]`.
#[derive(Debug)]
pub struct StrMap<V> {
    names: Vec<String>,
    values: Vec<V>,
}

/// The map from each of `keys` to the value at its place in `values`.
pub open spec fn spec_map_of<V>(keys: Seq<Seq<char>>, values: Seq<V>) -> Map<Seq<char>, V> {
    Map::new(
        |k: Seq<char>| keys.contains(k),
        |k: Seq<char>| values[keys.index_of(k)],
    )
}

impl<V> StrMap<V> {
    /// The keys, in insertion order.
    pub closed spec fn keys(&self) -> Seq<Seq<char>> {
        self.names@.map_values(|s: String| s@)
    }

    #[verifier::type_invariant]
    spec fn inv(&self) -> bool {
        &&& self.names@.len() == self.values@.len()
        &&& self.keys().no_duplicates()
    }

    /// The map from each key to its value.
    pub closed spec fn spec_map(&self) -> Map<Seq<char>, V> {
        spec_map_of(self.keys(), self.values@)
    }

    proof fn lemma_update_at(&self, i: int)
        requires
            self.inv(),
            0 <= i < self.names@.len(),
        ensures
            forall|w: V| #[trigger] spec_map_of(self.keys(), self.values@.update(i, w))
                == self.spec_map().insert(self.names@[i]@, w),
    {
        assert forall|w: V| #[trigger] spec_map_of(self.keys(), self.values@.update(i, w))
            =~= self.spec_map().insert(self.names@[i]@, w) by {
            let ks = self.keys();
            let k = self.names@[i]@;
            assert(ks[i] == k);
            assert forall|q: Seq<char>| #[trigger] ks.contains(q) implies
                spec_map_of(ks, self.values@.update(i, w))[q] == self.spec_map().insert(k, w)[q] by {
                let j = ks.index_of(q);
                assert(ks[j] == q);
                if q != k {
                    assert(j != i);
                } else {
                    assert(j == i);
                }
            }
            assert forall|q: Seq<char>| self.spec_map().insert(k, w).contains_key(q) implies #[trigger] ks.contains(q) by {
                if q == k {
                    assert(ks[i] == q);
                }
            }
        }
    }

    proof fn lemma_at(&self, i: int)
        requires
            self.inv(),
            0 <= i < self.names@.len(),
        ensures
            self.spec_map().contains_key(self.names@[i]@),
            self.spec_map()[self.names@[i]@] == self.values@[i],
    {
        let k = self.names@[i]@;
        assert(self.keys()[i] == k);
        assert(self.keys().contains(k));
        let j = self.keys().index_of(k);
        assert(self.keys()[j] == k);
    }

    proof fn lemma_len(&self)
        requires
            self.inv(),
        ensures
            self.spec_map().len() == self.names@.len(),
    {
        self.keys().unique_seq_to_set();
        assert(self.spec_map().dom() =~= self.keys().to_set());
    }

    pub fn new() -> (m: Self)
        ensures
            m@ == Map::<Seq<char>, V>::empty(),
    {
        let m = StrMap { names: Vec::new(), values: Vec::new() };
        assert(m.spec_map() =~= Map::<Seq<char>, V>::empty());
        m
    }

    fn find(&self, key: &str) -> (r: Option<usize>)
        ensures
            match r {
                Some(i) => i < self.names@.len() && self.names@[i as int]@ == key@,
                None => !self@.contains_key(key@),
            },
    {
        proof {
            use_type_invariant(self);
        }
        let mut i: usize = 0;
        while i < self.names.len()
            invariant
                i <= self.names@.len(),
                forall|j: int| 0 <= j < i ==> self.names@[j]@ != key@,
            decreases self.names@.len() - i,
        {
            if str_eq(self.names[i].as_str(), key) {
                return Some(i);
            }
            i = i + 1;
        }
        proof {
            if self.keys().contains(key@) {
                let j = choose|j: int| 0 <= j < self.keys().len() && self.keys()[j] == key@;
                assert(self.names@[j]@ == key@);
            }
        }
        None
    }

    /// Looks a key up.
    pub fn get(&self, key: &str) -> (r: Option<&V>)
        ensures
            match r {
                Some(v) => self@.contains_key(key@) && *v == self@[key@],
                None => !self@.contains_key(key@),
            },
    {
        proof {
            use_type_invariant(self);
        }
        match self.find(key) {
            Some(i) => {
                proof {
                    self.lemma_at(i as int);
                }
                Some(&self.values[i])
            },
            None => None,
        }
    }

    /// Looks a key up for changing its value in place.
    pub fn get_mut(&mut self, key: &str) -> (r: Option<&mut V>)
        ensures
            match r {
                Some(v) => old(self)@.contains_key(key@) && *v == old(self)@[key@]
                    && final(self)@ == old(self)@.insert(key@, *final(v)),
                None => !old(self)@.contains_key(key@) && final(self)@ == old(self)@,
            },
    {
        proof {
            use_type_invariant(&*self);
        }
        match self.find(key) {
            Some(i) => {
                proof {
                    self.lemma_at(i as int);
                }
                proof {
                    self.lemma_update_at(i as int);
                }
                let r = &mut self.values[i];
                Some(r)
            },
            None => None,
        }
    }

    /// Whether the key is present.
    pub fn contains_key(&self, key: &str) -> (r: bool)
        ensures
            r == self@.contains_key(key@),
    {
        match self.find(key) {
            Some(i) => {
                proof {
                    use_type_invariant(self);
                    self.lemma_at(i as int);
                }
                true
            },
            None => false,
        }
    }

    /// Binds `key` to `value`, replacing any earlier binding.
    pub fn insert(&mut self, key: String, value: V)
        ensures
            final(self)@ == old(self)@.insert(key@, value),
    {
        proof {
            use_type_invariant(&*self);
        }
        let ghost k = key@;
        let found = self.find(key.as_str());
        match found {
            Some(i) => {
                proof {
                    self.lemma_update_at(i as int);
                }
                let slot = &mut self.values[i];
                *slot = value;
                proof {
                    assert(self.keys() =~= old(self).keys());
                    assert(self.spec_map() =~= old(self).spec_map().insert(k, value)) by {
                        assert forall|q: Seq<char>| #[trigger] self.keys().contains(q) implies
                            self.spec_map()[q] == old(self).spec_map().insert(k, value)[q] by {
                            let j = self.keys().index_of(q);
                            assert(self.keys()[j] == q);
                            self.lemma_at(j);
                            assert(self.keys()[i as int] == k);
                            if q != k {
                                assert(j != i as int);
                                old(self).lemma_at(j);
                            } else {
                                assert(j == i as int);
                            }
                        }
                        assert forall|q: Seq<char>| old(self).spec_map().insert(k, value).contains_key(q)
                            implies #[trigger] self.keys().contains(q) by {
                            if q != k {
                                let j = old(self).keys().index_of(q);
                                assert(self.keys()[j] == q);
                            } else {
                                assert(self.keys()[i as int] == q);
                            }
                        }
                    }
                }
            },
            None => {
                let mut taken = StrMap::new();
                std::mem::swap(self, &mut taken);
                let mut names = taken.names;
                let mut values = taken.values;
                names.push(key);
                values.push(value);
                proof {
                    let n = old(self).names@.len();
                    let ks = names@.map_values(|s: String| s@);
                    assert(ks =~= old(self).keys().push(k));
                    assert(ks.no_duplicates()) by {
                        assert forall|a: int, b: int|
                            0 <= a < ks.len() && 0 <= b < ks.len() && a != b
                            implies ks[a] != ks[b] by {
                            if a == n as int {
                                assert(!old(self).keys().contains(k));
                                assert(old(self).keys()[b] == ks[b]);
                            } else if b == n as int {
                                assert(!old(self).keys().contains(k));
                                assert(old(self).keys()[a] == ks[a]);
                            }
                        }
                    }
                }
                *self = StrMap { names, values };
                proof {
                    let n = old(self).names@.len();
                    assert(self.keys() =~= old(self).keys().push(k));
                    assert(self.spec_map() =~= old(self).spec_map().insert(k, value)) by {
                        assert forall|q: Seq<char>| #[trigger] self.keys().contains(q) implies
                            self.spec_map()[q] == old(self).spec_map().insert(k, value)[q] by {
                            let j = self.keys().index_of(q);
                            assert(self.keys()[j] == q);
                            self.lemma_at(j);
                            if q != k {
                                assert(self.keys()[n as int] == k);
                                assert(j < n);
                                assert(self.values@[j] == old(self).values@[j]);
                                assert(self.names@[j] == old(self).names@[j]);
                                old(self).lemma_at(j);
                            } else {
                                assert(self.keys()[n as int] == k);
                                assert(j == n as int);
                            }
                        }
                        assert forall|q: Seq<char>| old(self).spec_map().insert(k, value).contains_key(q)
                            implies #[trigger] self.keys().contains(q) by {
                            if q != k {
                                let j = old(self).keys().index_of(q);
                                assert(self.keys()[j] == q);
                            } else {
                                assert(self.keys()[n as int] == q);
                            }
                        }
                    }
                }
            },
        }
    }

    /// Removes the binding of `key`, handing back its value.
    pub fn remove(&mut self, key: &str) -> (r: Option<V>)
        ensures
            final(self)@ == old(self)@.remove(key@),
            r == (if old(self)@.contains_key(key@) { Some(old(self)@[key@]) } else { None }),
    {
        proof {
            use_type_invariant(&*self);
        }
        match self.find(key) {
            Some(i) => {
                proof {
                    self.lemma_at(i as int);
                }
                let mut taken = StrMap::new();
                std::mem::swap(self, &mut taken);
                let mut names = taken.names;
                let mut values = taken.values;
                let _ = names.remove(i);
                let v = values.remove(i);
                proof {
                    let ok = old(self).keys();
                    let ks = names@.map_values(|s: String| s@);
                    assert(ks =~= ok.remove(i as int));
                    assert(ks.no_duplicates()) by {
                        assert forall|a: int, b: int|
                            0 <= a < ks.len() && 0 <= b < ks.len() && a != b
                            implies ks[a] != ks[b] by {
                            let a2 = if a < i { a } else { a + 1 };
                            let b2 = if b < i { b } else { b + 1 };
                            assert(ks[a] == ok[a2]);
                            assert(ks[b] == ok[b2]);
                        }
                    }
                }
                *self = StrMap { names, values };
                proof {
                    let ok = old(self).keys();
                    assert(self.keys() =~= ok.remove(i as int));
                    assert(self.spec_map() =~= old(self).spec_map().remove(key@)) by {
                        assert forall|q: Seq<char>| #[trigger] self.keys().contains(q) implies
                            q != key@ && old(self).spec_map().contains_key(q)
                            && self.spec_map()[q] == old(self).spec_map()[q] by {
                            let j = self.keys().index_of(q);
                            assert(self.keys()[j] == q);
                            self.lemma_at(j);
                            let j2 = if j < i { j } else { j + 1 };
                            assert(self.values@[j] == old(self).values@[j2]);
                            assert(self.names@[j] == old(self).names@[j2]);
                            assert(ok[j2] == q);
                            assert(j2 != i);
                            assert(ok[i as int] == key@);
                            old(self).lemma_at(j2);
                        }
                        assert forall|q: Seq<char>| old(self).spec_map().remove(key@).contains_key(q)
                            implies #[trigger] self.keys().contains(q) by {
                            let j = ok.index_of(q);
                            assert(ok[j] == q);
                            assert(j != i);
                            let j3 = if j < i { j } else { j - 1 };
                            assert(self.keys()[j3] == q);
                        }
                    }
                }
                Some(v)
            },
            None => {
                assert(self.spec_map() =~= old(self).spec_map().remove(key@));
                None
            },
        }
    }

    /// The number of bindings.
    pub fn len(&self) -> (n: usize)
        ensures
            n == self@.len(),
    {
        proof {
            use_type_invariant(self);
            self.lemma_len();
        }
        self.names.len()
    }

    /// The keys, in insertion order.
    pub fn key_list(&self) -> (r: Vec<String>)
        ensures
            r@.len() == self@.len(),
            forall|i: int| 0 <= i < r@.len() ==> #[trigger] self@.contains_key(r@[i]@),
            forall|k: Seq<char>| self@.contains_key(k) ==> exists|i: int| 0 <= i < r@.len() && r@[i]@ == k,
    {
        proof {
            use_type_invariant(self);
        }
        proof {
            self.lemma_len();
        }
        let mut r: Vec<String> = Vec::new();
        let mut i: usize = 0;
        while i < self.names.len()
            invariant
                i <= self.names@.len(),
                r@.len() == i,
                self.inv(),
                forall|j: int| 0 <= j < i ==> #[trigger] r@[j]@ == self.names@[j]@,
            decreases self.names@.len() - i,
        {
            r.push(self.names[i].clone());
            i = i + 1;
        }
        proof {
            assert forall|j: int| 0 <= j < r@.len() implies #[trigger] self@.contains_key(r@[j]@) by {
                self.lemma_at(j);
            }
            assert forall|k: Seq<char>| self@.contains_key(k) implies exists|j: int| 0 <= j < r@.len() && r@[j]@ == k by {
                let j = self.keys().index_of(k);
                assert(r@[j]@ == k);
            }
        }
        r
    }

    /// References to the values, in insertion order.
    pub fn value_list(&self) -> (r: Vec<&V>)
        ensures
            r@.len() == self@.len(),
            forall|i: int| 0 <= i < r@.len() ==> self@.contains_value(*#[trigger] r@[i]),
            r@.len() == self.keys().len(),
            self.keys().no_duplicates(),
            forall|k: Seq<char>| #[trigger] self@.contains_key(k) <==> self.keys().contains(k),
            forall|i: int| 0 <= i < r@.len() ==> self@.contains_key(self.keys()[i]) && *#[trigger] r@[i] == self@[self.keys()[i]],
    {
        proof {
            use_type_invariant(self);
        }
        proof {
            self.lemma_len();
        }
        let mut r: Vec<&V> = Vec::new();
        let mut i: usize = 0;
        while i < self.values.len()
            invariant
                i <= self.values@.len(),
                r@.len() == i,
                self.inv(),
                forall|j: int| 0 <= j < i ==> *#[trigger] r@[j] == self.values@[j],
            decreases self.values@.len() - i,
        {
            r.push(&self.values[i]);
            i = i + 1;
        }
        proof {
            assert forall|j: int| 0 <= j < r@.len() implies self@.contains_value(*#[trigger] r@[j]) by {
                self.lemma_at(j);
                let k = self.names@[j]@;
                assert(self@.contains_key(k) && self@[k] == *r@[j]);
            }
            assert forall|j: int| 0 <= j < r@.len() implies self@.contains_key(self.keys()[j]) && *#[trigger] r@[j] == self@[self.keys()[j]] by {
                self.lemma_at(j);
                assert(self.keys()[j] == self.names@[j]@);
            }
        }
        r
    }
}

impl<V> View for StrMap<V> {
    type V = Map<Seq<char>, V>;

    closed spec fn view(&self) -> Map<Seq<char>, V> {
        self.spec_map()
    }
}

} // verus!
