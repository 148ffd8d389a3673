//! A small map from chat ids to per-chat state, kept as two parallel
//! vectors with distinct keys, and viewed as a `Map` over the keys' text.

use vstd::prelude::*;

verus! {

/// Per-chat state keyed by chat id; no key occurs twice.
pub struct ChatMap<V> {
    keys: Vec<String>,
    vals: Vec<V>,
}

/// The text of each key, in storage order.
pub open spec fn key_views(keys: Seq<String>) -> Seq<Seq<char>> {
    keys.map_values(|k: String| k@)
}

impl<V> ChatMap<V> {
    #[verifier::type_invariant]
    spec fn well_formed(self) -> bool {
        &&& self.keys@.len() == self.vals@.len()
        &&& key_views(self.keys@).no_duplicates()
    }

    spec fn key_seq(self) -> Seq<Seq<char>> {
        key_views(self.keys@)
    }

    /// The stored state of each chat id.
    pub closed spec fn view(self) -> Map<Seq<char>, V> {
        Map::new(
            |k: Seq<char>| self.key_seq().contains(k),
            |k: Seq<char>| self.vals@[self.key_seq().index_of(k)],
        )
    }

    proof fn lemma_view_at(self, i: int)
        requires
            self.well_formed(),
            0 <= i < self.keys@.len(),
        ensures
            self.view().contains_key(self.keys@[i]@),
            self.view()[self.keys@[i]@] == self.vals@[i],
    {
        let ks = self.key_seq();
        assert(ks[i] == self.keys@[i]@);
        assert(ks.contains(ks[i]));
        let j = ks.index_of(ks[i]);
        assert(ks[j] == ks[i]);
    }

    proof fn lemma_len(self)
        requires
            self.well_formed(),
        ensures
            self.view().dom().finite(),
            self.view().len() == self.keys@.len(),
    {
        let ks = self.key_seq();
        ks.unique_seq_to_set();
        assert(self.view().dom() =~= ks.to_set());
    }

    /// An empty map.
    pub fn new() -> (r: Self)
        ensures
            r.view() == Map::<Seq<char>, V>::empty(),
    {
        let r = ChatMap { keys: Vec::new(), vals: Vec::new() };
        assert(r.view() =~= Map::<Seq<char>, V>::empty());
        r
    }

    /// Number of chats with stored state.
    pub fn len(&self) -> (n: usize)
        ensures
            self.view().dom().finite(),
            n == self.view().len(),
    {
        proof {
            use_type_invariant(self);
            self.lemma_len();
        }
        self.keys.len()
    }

    /// Position of `key` in storage, if present.
    fn find(&self, key: &String) -> (r: Option<usize>)
        ensures
            r matches Some(i) ==> i < self.keys@.len() && self.keys@[i as int]@ == key@,
            r is None ==> !self.view().contains_key(key@),
    {
        proof {
            use_type_invariant(self);
        }
        let mut i: usize = 0;
        while i < self.keys.len()
            invariant
                i <= self.keys@.len(),
                forall|m: int| 0 <= m < i ==> self.keys@[m]@ != key@,
            decreases self.keys.len() - i,
        {
            if self.keys[i] == *key {
                return Some(i);
            }
            i = i + 1;
        }
        proof {
            if self.key_seq().contains(key@) {
                let m = choose|m: int| 0 <= m < self.key_seq().len() && self.key_seq()[m] == key@;
                assert(self.keys@[m]@ == key@);
            }
        }
        None
    }

    /// The state stored for `key`.
    pub fn get(&self, key: &String) -> (r: Option<&V>)
        ensures
            r matches Some(v) ==> self.view().contains_key(key@) && *v == self.view()[key@],
            r is None ==> !self.view().contains_key(key@),
    {
        proof {
            use_type_invariant(self);
        }
        match self.find(key) {
            Some(i) => {
                proof {
                    self.lemma_view_at(i as int);
                }
                Some(&self.vals[i])
            },
            None => None,
        }
    }

    /// Stores `value` for `key`, replacing any earlier state.
    pub fn insert(&mut self, key: String, value: V)
        ensures
            final(self).view() == old(self).view().insert(key@, value),
    {
        proof {
            use_type_invariant(&*self);
        }
        let ghost old_map = self.view();
        let ghost old_keys = self.key_seq();
        let found = self.find(&key);
        let mut tmp = ChatMap::new();
        std::mem::swap(&mut tmp, self);
        let ChatMap { mut keys, mut vals } = tmp;
        match found {
            Some(i) => {
                vals.set(i, value);
                *self = ChatMap { keys, vals };
                proof {
                    assert(self.key_seq() == old_keys);
                    assert forall|k: Seq<char>| #[trigger]
                        self.view().contains_key(k) == old_map.insert(key@, value).contains_key(
                            k,
                        ) by {
                        if k == key@ {
                            assert(old_keys[i as int] == key@);
                        }
                    }
                    assert forall|k: Seq<char>| #[trigger]
                        self.view().contains_key(k) implies self.view()[k] == old_map.insert(
                            key@,
                            value,
                        )[k] by {
                        let j = self.key_seq().index_of(k);
                        if k == key@ {
                            assert(self.key_seq()[i as int] == key@);
                            assert(j == i);
                        } else {
                            assert(j != i);
                        }
                    }
                    assert(self.view() =~= old_map.insert(key@, value));
                }
            },
            None => {
                keys.push(key);
                vals.push(value);
                proof {
                    let ks = key_views(keys@);
                    assert(ks == old_keys.push(key@));
                    assert(!old_keys.contains(key@));
                    assert(ks.no_duplicates()) by {
                        assert forall|a: int, b: int|
                            0 <= a < ks.len() && 0 <= b < ks.len() && a != b implies ks[a]
                            != ks[b] by {
                            if a == old_keys.len() as int {
                                assert(old_keys[b] == ks[b]);
                            } else if b == old_keys.len() as int {
                                assert(old_keys[a] == ks[a]);
                            }
                        }
                    }
                }
                *self = ChatMap { keys, vals };
                proof {
                    let ks = self.key_seq();
                    assert forall|k: Seq<char>| #[trigger]
                        self.view().contains_key(k) == old_map.insert(key@, value).contains_key(
                            k,
                        ) by {
                        if k == key@ {
                            assert(ks[old_keys.len() as int] == key@);
                        } else if old_keys.contains(k) {
                            let m = choose|m: int| 0 <= m < old_keys.len() && old_keys[m] == k;
                            assert(ks[m] == k);
                        } else if ks.contains(k) {
                            let m = choose|m: int| 0 <= m < ks.len() && ks[m] == k;
                            assert(old_keys[m] == k);
                        }
                    }
                    assert forall|k: Seq<char>| #[trigger]
                        self.view().contains_key(k) implies self.view()[k] == old_map.insert(
                            key@,
                            value,
                        )[k] by {
                        let j = ks.index_of(k);
                        if k == key@ {
                            assert(ks[old_keys.len() as int] == key@);
                            assert(j == old_keys.len() as int);
                        } else {
                            assert(j < old_keys.len());
                            assert(old_keys[j] == k);
                            assert(old_keys.contains(k));
                            let j0 = old_keys.index_of(k);
                            assert(j0 == j);
                        }
                    }
                    assert(self.view() =~= old_map.insert(key@, value));
                }
            },
        }
    }

    /// Removes and returns the state stored for `key`.
    pub fn take(&mut self, key: &String) -> (r: Option<V>)
        ensures
            final(self).view() == old(self).view().remove(key@),
            r matches Some(v) ==> old(self).view().contains_key(key@) && v == old(self).view()[key@],
            r is None ==> !old(self).view().contains_key(key@),
    {
        proof {
            use_type_invariant(&*self);
        }
        let ghost old_map = self.view();
        let ghost old_keys = self.key_seq();
        match self.find(key) {
            Some(i) => {
                proof {
                    self.lemma_view_at(i as int);
                }
                let mut tmp = ChatMap::new();
                std::mem::swap(&mut tmp, self);
                let ChatMap { mut keys, mut vals } = tmp;
                keys.remove(i);
                let v = vals.remove(i);
                proof {
                    let ks = key_views(keys@);
                    assert(ks == old_keys.remove(i as int));
                    assert(ks.no_duplicates()) by {
                        assert forall|a: int, b: int|
                            0 <= a < ks.len() && 0 <= b < ks.len() && a != b implies ks[a]
                            != ks[b] by {
                            let a0 = if a < i { a } else { a + 1 };
                            let b0 = if b < i { b } else { b + 1 };
                            assert(ks[a] == old_keys[a0]);
                            assert(ks[b] == old_keys[b0]);
                        }
                    }
                }
                *self = ChatMap { keys, vals };
                proof {
                    let ks = self.key_seq();
                    assert forall|k: Seq<char>| #[trigger]
                        self.view().contains_key(k) == old_map.remove(key@).contains_key(k) by {
                        if ks.contains(k) {
                            let m = choose|m: int| 0 <= m < ks.len() && ks[m] == k;
                            let m0 = if m < i { m } else { m + 1 };
                            assert(old_keys[m0] == k);
                            assert(m0 != i);
                            assert(old_keys[i as int] == key@);
                        } else if old_keys.contains(k) && k != key@ {
                            let m = choose|m: int| 0 <= m < old_keys.len() && old_keys[m] == k;
                            assert(m != i);
                            let m1 = if m < i { m } else { m - 1 };
                            assert(ks[m1] == k);
                        }
                    }
                    assert forall|k: Seq<char>| #[trigger]
                        self.view().contains_key(k) implies self.view()[k] == old_map.remove(
                            key@,
                        )[k] by {
                        let j = ks.index_of(k);
                        let j0 = if j < i { j } else { j + 1 };
                        assert(old_keys[j0] == k);
                        assert(old_keys.contains(k));
                        assert(old_keys.index_of(k) == j0);
                    }
                    assert(self.view() =~= old_map.remove(key@));
                }
                Some(v)
            },
            None => {
                proof {
                    assert(self.view() =~= old_map.remove(key@));
                }
                None
            },
        }
    }

    /// Drops all stored state.
    pub fn clear(&mut self)
        ensures
            final(self).view() == Map::<Seq<char>, V>::empty(),
    {
        *self = ChatMap::new();
        assert(self.view() =~= Map::<Seq<char>, V>::empty());
    }
}

} // verus!
