//! A small map keyed by strings, kept as a list of entries in insertion
//! order with each key held once.

use vstd::prelude::*;

use crate::text::{chars_equal, chars_of};

verus! {

/// A map keyed by strings, each key held once, in insertion order.
#[derive(Debug)]
pub struct StrMap<V> {
    entries: Vec<(String, V)>,
}

/// The map that a list of entries makes, from each key to its value.
spec fn entries_map<V>(e: Seq<(String, V)>) -> Map<Seq<char>, V> {
    Map::new(
        |k: Seq<char>| exists|i: int| 0 <= i < e.len() && e[i].0@ == k,
        |k: Seq<char>| e[choose|i: int| 0 <= i < e.len() && e[i].0@ == k].1,
    )
}

/// No key occurs twice in a list of entries.
spec fn unique_keys<V>(e: Seq<(String, V)>) -> bool {
    forall|i: int, j: int| 0 <= i < j < e.len() ==> e[i].0@ != e[j].0@
}

impl<V> StrMap<V> {
    /// The entries as a map from key.
    pub closed spec fn view(&self) -> Map<Seq<char>, V> {
        entries_map(self.entries@)
    }

    /// No key occurs twice: every map keeps this.
    #[verifier::type_invariant]
    closed spec fn wf(&self) -> bool {
        unique_keys(self.entries@)
    }

    /// An empty map.
    pub fn new() -> (r: Self)
        ensures
            r@ == Map::<Seq<char>, V>::empty(),
    {
        let r = StrMap { entries: Vec::new() };
        assert(r@ =~= Map::<Seq<char>, V>::empty());
        r
    }

    fn index_of(&self, key: &str) -> (r: Option<usize>)
        ensures
            r matches Some(i) ==> i < self.entries.len() && self.entries@[i as int].0@ == key@,
            r is None ==> !self@.contains_key(key@),
    {
        let k = chars_of(key);
        let mut i: usize = 0;
        while i < self.entries.len()
            invariant
                i <= self.entries.len(),
                k@ == key@,
                forall|j: int| 0 <= j < i ==> self.entries@[j].0@ != key@,
            decreases self.entries.len() - i,
        {
            let ek = chars_of(self.entries[i].0.as_str());
            if chars_equal(&ek, &k) {
                return Some(i);
            }
            i = i + 1;
        }
        None
    }

    /// The value stored for `key`, if any.
    pub fn get(&self, key: &str) -> (r: Option<&V>)
        ensures
            r matches Some(v) ==> self@.get(key@) == Some(*v),
            r is None ==> self@.get(key@) is None,
    {
        proof {
            use_type_invariant(self);
        }
        match self.index_of(key) {
            Some(i) => {
                proof {
                    let c = choose|j: int|
                        0 <= j < self.entries.len() && self.entries@[j].0@ == key@;
                    assert(0 <= c < self.entries.len() && self.entries@[c].0@ == key@);
                    if c != i {
                        if c < i {
                            assert(self.entries@[c].0@ != self.entries@[i as int].0@);
                        } else {
                            assert(self.entries@[i as int].0@ != self.entries@[c].0@);
                        }
                    }
                }
                Some(&self.entries[i].1)
            },
            None => None,
        }
    }

    /// Stores `value` for `key`, replacing any value it had.
    pub fn insert(&mut self, key: String, value: V)
        ensures
            final(self)@ == old(self)@.insert(key@, value),
    {
        proof {
            use_type_invariant(&*self);
        }
        let ghost old_entries = self.entries@;
        let ghost kv = key@;
        let found = self.index_of(key.as_str());
        let mut e: Vec<(String, V)> = Vec::new();
        std::mem::swap(&mut e, &mut self.entries);
        match found {
            Some(i) => {
                e.set(i, (key, value));
                proof {
                    assert forall|a: int, b: int|
                        0 <= a < b < e.len() implies e@[a].0@
                        != e@[b].0@ by {
                        if a != i && b != i {
                            assert(e@[a] == old_entries[a]);
                            assert(e@[b] == old_entries[b]);
                        } else if a == i {
                            assert(e@[b] == old_entries[b]);
                            assert(old_entries[a].0@ == kv);
                        } else {
                            assert(e@[a] == old_entries[a]);
                            assert(old_entries[b].0@ == kv);
                        }
                    }
                    assert forall|k: Seq<char>| #![auto]
                        entries_map(e@).contains_key(k) == old(self)@.insert(kv, value).contains_key(k) by {
                        if k != kv {
                            if old(self)@.contains_key(k) {
                                let c = choose|j: int|
                                    0 <= j < old_entries.len() && old_entries[j].0@ == k;
                                assert(e@[c] == old_entries[c]);
                            }
                            if entries_map(e@).contains_key(k) {
                                let c = choose|j: int|
                                    0 <= j < e.len() && e@[j].0@ == k;
                                assert(e@[c] == old_entries[c]);
                            }
                        } else {
                            assert(e@[i as int].0@ == kv);
                        }
                    }
                    assert forall|k: Seq<char>| #[trigger]
                        entries_map(e@).contains_key(k) implies entries_map(e@)[k] == old(self)@.insert(
                        kv,
                        value,
                    )[k] by {
                        let c = choose|j: int|
                            0 <= j < e.len() && e@[j].0@ == k;
                        if k == kv {
                            if c != i {
                                if c < i {
                                    assert(e@[c].0@ != e@[i as int].0@);
                                } else {
                                    assert(e@[i as int].0@ != e@[c].0@);
                                }
                            }
                        } else {
                            assert(e@[c] == old_entries[c]);
                            let d = choose|j: int|
                                0 <= j < old_entries.len() && old_entries[j].0@ == k;
                            assert(old_entries[d].0@ == k);
                            if c != d {
                                assert(c != i);
                                if d == i {
                                    assert(old_entries[i as int].0@ == kv);
                                }
                                if c < d {
                                    assert(old_entries[c].0@ != old_entries[d].0@);
                                } else {
                                    assert(old_entries[d].0@ != old_entries[c].0@);
                                }
                            }
                        }
                    }
                    assert(entries_map(e@) =~= old(self)@.insert(kv, value));
                }
                self.entries = e;
            },
            None => {
                e.push((key, value));
                proof {
                    let n = old_entries.len() as int;
                    assert forall|a: int, b: int|
                        0 <= a < b < e.len() implies e@[a].0@
                        != e@[b].0@ by {
                        assert(e@[a] == old_entries[a]);
                        if b < n {
                            assert(e@[b] == old_entries[b]);
                        } else {
                            assert(old(self)@.contains_key(old_entries[a].0@));
                        }
                    }
                    assert forall|k: Seq<char>| #![auto]
                        entries_map(e@).contains_key(k) == old(self)@.insert(kv, value).contains_key(k) by {
                        if old(self)@.contains_key(k) {
                            let c = choose|j: int|
                                0 <= j < old_entries.len() && old_entries[j].0@ == k;
                            assert(e@[c] == old_entries[c]);
                        }
                        if entries_map(e@).contains_key(k) && k != kv {
                            let c = choose|j: int|
                                0 <= j < e.len() && e@[j].0@ == k;
                            assert(c < n);
                            assert(e@[c] == old_entries[c]);
                        }
                        if k == kv {
                            assert(e@[n].0@ == kv);
                        }
                    }
                    assert forall|k: Seq<char>| #[trigger]
                        entries_map(e@).contains_key(k) implies entries_map(e@)[k] == old(self)@.insert(
                        kv,
                        value,
                    )[k] by {
                        let c = choose|j: int|
                            0 <= j < e.len() && e@[j].0@ == k;
                        if k == kv {
                            if c != n {
                                assert(e@[c] == old_entries[c]);
                                assert(old(self)@.contains_key(kv));
                            }
                        } else {
                            assert(c != n);
                            assert(e@[c] == old_entries[c]);
                            let d = choose|j: int|
                                0 <= j < old_entries.len() && old_entries[j].0@ == k;
                            if c != d {
                                if c < d {
                                    assert(old_entries[c].0@ != old_entries[d].0@);
                                } else {
                                    assert(old_entries[d].0@ != old_entries[c].0@);
                                }
                            }
                        }
                    }
                    assert(entries_map(e@) =~= old(self)@.insert(kv, value));
                }
                self.entries = e;
            },
        }
    }

    /// Removes `key` and gives back its value, if it had one.
    pub fn remove(&mut self, key: &str) -> (r: Option<V>)
        ensures
            final(self)@ == old(self)@.remove(key@),
            r matches Some(v) ==> old(self)@.contains_key(key@) && old(self)@[key@] == v,
            r is None ==> !old(self)@.contains_key(key@),
    {
        proof {
            use_type_invariant(&*self);
        }
        match self.index_of(key) {
            None => {
                assert(self@ =~= old(self)@.remove(key@));
                None
            },
            Some(i) => {
                let ghost old_entries = self.entries@;
                let ghost kv = key@;
                proof {
                    let c = choose|j: int|
                        0 <= j < old_entries.len() && old_entries[j].0@ == kv;
                    if c != i {
                        if c < i {
                            assert(old_entries[c].0@ != old_entries[i as int].0@);
                        } else {
                            assert(old_entries[i as int].0@ != old_entries[c].0@);
                        }
                    }
                }
                let mut e: Vec<(String, V)> = Vec::new();
                std::mem::swap(&mut e, &mut self.entries);
                let (_, v) = e.remove(i);
                proof {
                    let n = e.len() as int;
                    assert forall|a: int| 0 <= a < n implies #[trigger] e@[a] == (
                        if a < i {
                            old_entries[a]
                        } else {
                            old_entries[a + 1]
                        }) by {}
                    assert forall|a: int, b: int|
                        0 <= a < b < e.len() implies e@[a].0@
                        != e@[b].0@ by {
                        let a2 = if a < i {
                            a
                        } else {
                            a + 1
                        };
                        let b2 = if b < i {
                            b
                        } else {
                            b + 1
                        };
                        assert(e@[a] == old_entries[a2]);
                        assert(e@[b] == old_entries[b2]);
                        assert(a2 < b2);
                    }
                    assert forall|k: Seq<char>| #![auto]
                        entries_map(e@).contains_key(k) == old(self)@.remove(kv).contains_key(k) by {
                        if entries_map(e@).contains_key(k) {
                            let c = choose|j: int|
                                0 <= j < e.len() && e@[j].0@ == k;
                            let c2 = if c < i {
                                c
                            } else {
                                c + 1
                            };
                            assert(e@[c] == old_entries[c2]);
                            assert(old_entries[c2].0@ == k);
                            if k == kv {
                                if c2 < i {
                                    assert(old_entries[c2].0@ != old_entries[i as int].0@);
                                } else {
                                    assert(old_entries[i as int].0@ != old_entries[c2].0@);
                                }
                            }
                        }
                        if old(self)@.contains_key(k) && k != kv {
                            let c = choose|j: int|
                                0 <= j < old_entries.len() && old_entries[j].0@ == k;
                            assert(c != i);
                            let c2 = if c < i {
                                c
                            } else {
                                c - 1
                            };
                            assert(e@[c2] == old_entries[c]);
                        }
                    }
                    assert forall|k: Seq<char>| #[trigger]
                        entries_map(e@).contains_key(k) implies entries_map(e@)[k] == old(self)@.remove(kv)[k] by {
                        let c = choose|j: int|
                            0 <= j < e.len() && e@[j].0@ == k;
                        let c2 = if c < i {
                            c
                        } else {
                            c + 1
                        };
                        assert(e@[c] == old_entries[c2]);
                        let d = choose|j: int|
                            0 <= j < old_entries.len() && old_entries[j].0@ == k;
                        if c2 != d {
                            if c2 < d {
                                assert(old_entries[c2].0@ != old_entries[d].0@);
                            } else {
                                assert(old_entries[d].0@ != old_entries[c2].0@);
                            }
                        }
                    }
                    assert(entries_map(e@) =~= old(self)@.remove(kv));
                }
                self.entries = e;
                Some(v)
            },
        }
    }

    /// How many keys are stored.
    pub fn len(&self) -> (r: usize)
        ensures
            r == self@.len(),
    {
        proof {
            use_type_invariant(self);
            self.lemma_len();
        }
        self.entries.len()
    }

    /// Whether no key is stored.
    pub fn is_empty(&self) -> (r: bool)
        ensures
            r == (self@ == Map::<Seq<char>, V>::empty()),
    {
        proof {
            use_type_invariant(self);
            self.lemma_len();
            if self.entries.len() > 0 {
                assert(self@.contains_key(self.entries@[0].0@));
            }
            if self.entries.len() == 0 {
                assert(self@ =~= Map::<Seq<char>, V>::empty());
            }
        }
        self.entries.len() == 0
    }

    /// The stored valuees, one entry per id.
    pub fn entries(&self) -> (r: &[(String, V)])
        ensures
            r@.len() == self@.len(),
            forall|i: int|
                0 <= i < r@.len() ==> #[trigger] self@.contains_key(r@[i].0@) && self@[r@[i].0@]
                    == r@[i].1,
    {
        proof {
            use_type_invariant(self);
            self.lemma_len();
            assert forall|i: int| 0 <= i < self.entries@.len() implies #[trigger] self@.contains_key(
                self.entries@[i].0@,
            ) && self@[self.entries@[i].0@] == self.entries@[i].1 by {
                let k = self.entries@[i].0@;
                let c = choose|j: int| 0 <= j < self.entries.len() && self.entries@[j].0@ == k;
                if c != i {
                    if c < i {
                        assert(self.entries@[c].0@ != self.entries@[i].0@);
                    } else {
                        assert(self.entries@[i].0@ != self.entries@[c].0@);
                    }
                }
            }
        }
        self.entries.as_slice()
    }

    proof fn lemma_len(&self)
        requires
            self.wf(),
        ensures
            self@.dom().finite(),
            self@.len() == self.entries.len(),
        decreases self.entries.len(),
    {
        let keys = self.entries@.map_values(|e: (String, V)| e.0@);
        assert(self@.dom() =~= keys.to_set()) by {
            assert forall|k: Seq<char>| #[trigger] self@.dom().contains(k) implies keys.to_set().contains(k) by {
                let c = choose|j: int| 0 <= j < self.entries.len() && self.entries@[j].0@ == k;
                assert(keys[c] == k);
            }
            assert forall|k: Seq<char>| #[trigger] keys.to_set().contains(k) implies self@.dom().contains(k) by {
                let c = choose|j: int| 0 <= j < keys.len() && keys[j] == k;
                assert(self.entries@[c].0@ == k);
            }
        }
        assert(keys.no_duplicates()) by {
            assert forall|i: int, j: int| 0 <= i < keys.len() && 0 <= j < keys.len() && i != j implies keys[i] != keys[j] by {
                if i < j {
                    assert(self.entries@[i].0@ != self.entries@[j].0@);
                } else {
                    assert(self.entries@[j].0@ != self.entries@[i].0@);
                }
            }
        }
        keys.unique_seq_to_set();
    }
}

impl<V: Clone> Clone for StrMap<V> {
    /// A copy with the same keys, each value cloned.
    fn clone(&self) -> (r: Self)
        ensures
            r@.dom() == self@.dom(),
    {
        proof {
            use_type_invariant(self);
        }
        let mut e: Vec<(String, V)> = Vec::new();
        let mut i: usize = 0;
        while i < self.entries.len()
            invariant
                i <= self.entries.len(),
                unique_keys(self.entries@),
                e@.len() == i,
                forall|j: int| 0 <= j < i ==> (#[trigger] e@[j]).0@ == self.entries@[j].0@,
            decreases self.entries.len() - i,
        {
            let k = self.entries[i].0.clone();
            let v = self.entries[i].1.clone();
            e.push((k, v));
            i = i + 1;
        }
        proof {
            assert forall|k: Seq<char>| #![auto]
                entries_map(e@).contains_key(k) == entries_map(self.entries@).contains_key(k) by {
                if entries_map(e@).contains_key(k) {
                    let c = choose|j: int| 0 <= j < e@.len() && e@[j].0@ == k;
                    assert(self.entries@[c].0@ == k);
                }
                if entries_map(self.entries@).contains_key(k) {
                    let c = choose|j: int| 0 <= j < self.entries@.len() && self.entries@[j].0@ == k;
                    assert(e@[c].0@ == k);
                }
            }
            assert(entries_map(e@).dom() =~= entries_map(self.entries@).dom());
        }
        StrMap { entries: e }
    }
}

} // verus!
