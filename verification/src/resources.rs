use vstd::prelude::*;

verus! {

/// Singleton storage independent of entities: at most one value per type
/// key. Keys play the role of type identities; `wf` keeps them unique, so
/// the store is a finite map from key to value.
pub struct Resources<R> {
    /// Key-value pairs with pairwise-distinct keys.
    pub data: Vec<(u64, R)>,
}

impl<R> Resources<R> {
    /// Well-formedness: keys are pairwise distinct.
    pub open spec fn wf(self) -> bool {
        forall|i: int, j: int| 0 <= i < j < self.data@.len() ==> self.data@[i].0 != self.data@[j].0
    }

    /// Whether some entry holds `key`.
    pub open spec fn contains_key(self, key: u64) -> bool {
        exists|i: int| 0 <= i < self.data@.len() && self.data@[i].0 == key
    }

    /// The entry index of `key`. Well-defined under `wf` when the key is
    /// present.
    pub open spec fn key_index(self, key: u64) -> int {
        choose|i: int| 0 <= i < self.data@.len() && self.data@[i].0 == key
    }

    /// The stored value for `key`, if any.
    pub open spec fn spec_get(self, key: u64) -> Option<R> {
        if self.contains_key(key) {
            Some(self.data@[self.key_index(key)].1)
        } else {
            None
        }
    }

    /// Any entry holding `key` is the entry `key_index` names.
    pub proof fn lemma_key_index_is(self, key: u64, i: int)
        requires
            self.wf(),
            0 <= i < self.data@.len(),
            self.data@[i].0 == key,
        ensures
            self.contains_key(key),
            self.key_index(key) == i,
            self.spec_get(key) == Some(self.data@[i].1),
    {
        assert(self.contains_key(key));
        let c = self.key_index(key);
        assert(0 <= c < self.data@.len() && self.data@[c].0 == key);
        if c < i {
            assert(self.data@[c].0 != self.data@[i].0);
        } else if i < c {
            assert(self.data@[i].0 != self.data@[c].0);
        }
    }

    /// An empty store.
    pub fn new() -> (r: Self)
        ensures
            r.wf(),
            r.data@.len() == 0,
            forall|k: u64| #[trigger] r.spec_get(k) is None,
    {
        Resources { data: Vec::new() }
    }

    /// The entry index of `key`, or `None` when the key is absent.
    fn find(&self, key: u64) -> (r: Option<usize>)
        requires
            self.wf(),
        ensures
            match r {
                Some(i) => i < self.data@.len() && self.data@[i as int].0 == key
                    && self.contains_key(key) && self.key_index(key) == i,
                None => !self.contains_key(key),
            },
    {
        let n = self.data.len();
        let mut i: usize = 0;
        while i < n
            invariant
                i <= n,
                n == self.data@.len(),
                self.wf(),
                forall|j: int| 0 <= j < i ==> self.data@[j].0 != key,
            decreases n - i,
        {
            if self.data[i].0 == key {
                proof {
                    self.lemma_key_index_is(key, i as int);
                }
                return Some(i);
            }
            i = i + 1;
        }
        None
    }

    /// Stores `value` under `key`, overwriting any prior value of that
    /// exact key and leaving every other key untouched.
    pub fn add(&mut self, key: u64, value: R)
        requires
            old(self).wf(),
        ensures
            final(self).wf(),
            final(self).spec_get(key) == Some(value),
            forall|k: u64|
                #[trigger] final(self).spec_get(k) == (if k == key {
                    Some(value)
                } else {
                    old(self).spec_get(k)
                }),
    {
        match self.find(key) {
            Some(i) => {
                self.data.set(i, (key, value));
                proof {
                    assert(forall|i2: int|
                        0 <= i2 < self.data@.len() ==> (#[trigger] self.data@[i2]).0 == old(
                            self,
                        ).data@[i2].0);
                    self.lemma_key_index_is(key, i as int);
                    assert forall|k: u64| k != key implies #[trigger] final(self).spec_get(k)
                        == old(self).spec_get(k) by {
                        if old(self).contains_key(k) {
                            let w = old(self).key_index(k);
                            assert(old(self).data@[w].0 == k);
                            assert(w != i as int);
                            self.lemma_key_index_is(k, w);
                        } else {
                            if self.contains_key(k) {
                                let w = self.key_index(k);
                                assert(old(self).data@[w].0 == k);
                            }
                        }
                    }
                }
            },
            None => {
                self.data.push((key, value));
                proof {
                    let n = old(self).data@.len() as int;
                    assert(forall|j: int| 0 <= j < n ==> (#[trigger] old(self).data@[j]).0 != key);
                    self.lemma_key_index_is(key, n);
                    assert forall|k: u64| k != key implies #[trigger] final(self).spec_get(k)
                        == old(self).spec_get(k) by {
                        if old(self).contains_key(k) {
                            let w = old(self).key_index(k);
                            assert(old(self).data@[w].0 == k);
                            assert(self.data@[w].0 == k);
                            self.lemma_key_index_is(k, w);
                        } else {
                            if self.contains_key(k) {
                                let w = self.key_index(k);
                                assert(self.data@[w].0 == k);
                                assert(w != n);
                                assert(old(self).data@[w].0 == k);
                            }
                        }
                    }
                }
            },
        }
    }

    /// A reference to the value stored under `key`, or `None` when the key
    /// is absent (absence is not an error).
    pub fn get_ref(&self, key: u64) -> (r: Option<&R>)
        requires
            self.wf(),
        ensures
            match r {
                Some(v) => self.contains_key(key) && Some(*v) == self.spec_get(key),
                None => !self.contains_key(key),
            },
    {
        match self.find(key) {
            Some(i) => Some(&self.data[i].1),
            None => None,
        }
    }

    /// A mutable reference to the value stored under `key`, or `None` when
    /// the key is absent. Writing through the reference replaces the value
    /// of exactly that entry; the key set is unchanged.
    pub fn get_mut(&mut self, key: u64) -> (r: Option<&mut R>)
        requires
            old(self).wf(),
        ensures
            !old(self).contains_key(key) ==> r is None && *final(self) == *old(self),
            old(self).contains_key(key) ==> {
                let i = old(self).key_index(key);
                &&& r is Some
                &&& *r.unwrap() == old(self).data@[i].1
                &&& final(self).data@ == old(self).data@.update(i, (key, *final(r.unwrap())))
            },
    {
        let idx = match self.find(key) {
            Some(i) => i,
            None => {
                return None;
            },
        };
        let pair = &mut self.data[idx];
        Some(&mut pair.1)
    }

    /// Deletes the value stored under `key` if present; no-op otherwise.
    pub fn remove(&mut self, key: u64)
        requires
            old(self).wf(),
        ensures
            final(self).wf(),
            forall|k: u64|
                #[trigger] final(self).spec_get(k) == (if k == key {
                    None
                } else {
                    old(self).spec_get(k)
                }),
    {
        match self.find(key) {
            Some(i) => {
                self.data.remove(i);
                proof {
                    let n = old(self).data@.len() as int;
                    assert forall|j: int| 0 <= j < self.data@.len() implies #[trigger] self.data@[j]
                        == (if j < i as int {
                        old(self).data@[j]
                    } else {
                        old(self).data@[j + 1]
                    }) by {
                        assert(self.data@ == old(self).data@.remove(i as int));
                    }
                    assert forall|a: int, b: int|
                        0 <= a < b < self.data@.len() implies self.data@[a].0 != self.data@[b].0 by {
                        let a0 = if a < i as int { a } else { a + 1 };
                        let b0 = if b < i as int { b } else { b + 1 };
                        assert(old(self).data@[a0].0 != old(self).data@[b0].0);
                    }
                    assert forall|k: u64| #[trigger] final(self).spec_get(k)
                        == (if k == key {
                        None
                    } else {
                        old(self).spec_get(k)
                    }) by {
                        if k == key {
                            if self.contains_key(k) {
                                let w = self.key_index(k);
                                let w0 = if w < i as int { w } else { w + 1 };
                                assert(old(self).data@[w0].0 == key);
                                old(self).lemma_key_index_is(key, w0);
                                assert(old(self).key_index(key) == i as int);
                            }
                        } else {
                            if old(self).contains_key(k) {
                                let w = old(self).key_index(k);
                                assert(old(self).data@[w].0 == k);
                                assert(w != i as int);
                                let w1 = if w < i as int { w } else { w - 1 };
                                assert(self.data@[w1].0 == k);
                                self.lemma_key_index_is(k, w1);
                            } else {
                                if self.contains_key(k) {
                                    let w = self.key_index(k);
                                    let w0 = if w < i as int { w } else { w + 1 };
                                    assert(old(self).data@[w0].0 == k);
                                }
                            }
                        }
                    }
                }
            },
            None => {},
        }
    }
}

impl<R> Default for Resources<R> {
    /// Same as `Resources::new`.
    fn default() -> (r: Self)
        ensures
            r.wf(),
            r.data@.len() == 0,
            forall|k: u64| #[trigger] r.spec_get(k) is None,
    {
        Resources::new()
    }
}

} // verus!
