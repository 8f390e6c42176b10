//! A small map from strings to values, kept as a vector of entries with
//! distinct keys. Its view is a `Map` from the keys' characters to the values.

use vstd::prelude::*;
use crate::text::{str_eq, views};

verus! {

/// A map keyed by strings. Lookups compare keys exactly (callers that want
/// case-insensitive keys lower-case them first).
pub struct StrMap<V> {
    entries: Vec<(String, V)>,
}

impl<V> StrMap<V> {
    /// The keys of the entries, in storage order.
    pub closed spec fn keys(&self) -> Seq<Seq<char>> {
        self.entries@.map_values(|e: (String, V)| e.0@)
    }

    #[verifier::type_invariant]
    closed spec fn distinct_keys(&self) -> bool {
        self.keys().no_duplicates()
    }

    pub closed spec fn view(&self) -> Map<Seq<char>, V> {
        Map::new(
            |k: Seq<char>| self.keys().contains(k),
            |k: Seq<char>| self.entries@[self.keys().index_of(k)].1,
        )
    }

    proof fn lemma_view_at(&self, i: int)
        requires
            self.distinct_keys(),
            0 <= i < self.entries@.len(),
        ensures
            self@.dom().contains(self.entries@[i].0@),
            self@[self.entries@[i].0@] == self.entries@[i].1,
    {
        let k = self.entries@[i].0@;
        assert(self.keys()[i] == k);
        assert(self.keys().contains(k));
        let j = self.keys().index_of(k);
        assert(self.keys()[j] == k);
    }

    proof fn lemma_view_dom(&self)
        ensures
            forall|k: Seq<char>| #[trigger] self@.dom().contains(k) <==> self.keys().contains(k),
    {
    }

    /// The empty map.
    pub fn new() -> (m: Self)
        ensures
            m@ == Map::<Seq<char>, V>::empty(),
    {
        let m = StrMap { entries: Vec::new() };
        assert(m@ =~= Map::<Seq<char>, V>::empty());
        m
    }

    /// Position of the entry whose key is `k`, if any.
    fn find(&self, k: &str) -> (r: Option<usize>)
        ensures
            match r {
                Some(i) => i < self.entries@.len() && self.entries@[i as int].0@ == k@,
                None => !self@.dom().contains(k@),
            },
    {
        let mut i: usize = 0;
        while i < self.entries.len()
            invariant
                i <= self.entries@.len(),
                forall|j: int| 0 <= j < i ==> self.entries@[j].0@ != k@,
            decreases self.entries@.len() - i,
        {
            if str_eq(self.entries[i].0.as_str(), k) {
                return Some(i);
            }
            i = i + 1;
        }
        proof {
            if self.keys().contains(k@) {
                let j = choose|j: int| 0 <= j < self.keys().len() && self.keys()[j] == k@;
                assert(self.keys()[j] == self.entries@[j].0@);
            }
        }
        None
    }

    /// Whether some entry has key `k`.
    pub fn contains_key(&self, k: &str) -> (r: bool)
        ensures
            r == self@.dom().contains(k@),
    {
        proof { use_type_invariant(self); }
        match self.find(k) {
            Some(i) => {
                proof { self.lemma_view_at(i as int); }
                true
            },
            None => false,
        }
    }

    /// The value stored under `k`, if any.
    pub fn get(&self, k: &str) -> (r: Option<&V>)
        ensures
            r == (if self@.dom().contains(k@) { Some(&self@[k@]) } else { None }),
    {
        proof { use_type_invariant(self); }
        match self.find(k) {
            Some(i) => {
                proof { self.lemma_view_at(i as int); }
                Some(&self.entries[i].1)
            },
            None => None,
        }
    }

    /// Takes the entries out, leaving the map empty.
    fn take_entries(&mut self) -> (e: Vec<(String, V)>)
        ensures
            e@ == old(self).entries@,
            final(self).entries@.len() == 0,
    {
        let mut e: Vec<(String, V)> = Vec::new();
        std::mem::swap(&mut e, &mut self.entries);
        e
    }

    /// Stores `v` under `k`, replacing any earlier value.
    pub fn insert(&mut self, k: String, v: V)
        ensures
            final(self)@ == old(self)@.insert(k@, v),
    {
        proof { use_type_invariant(&*self); }
        let ghost old_keys = self.keys();
        let ghost kv = k@;
        let found = self.find(k.as_str());
        let mut entries = self.take_entries();
        match found {
            Some(i) => {
                entries.set(i, (k, v));
            },
            None => {
                entries.push((k, v));
            },
        }
        let ghost new_keys = entries@.map_values(|e: (String, V)| e.0@);
        proof {
            match found {
                Some(i) => {
                    assert(new_keys =~= old_keys.update(i as int, kv));
                    assert(old_keys[i as int] == kv);
                    assert forall|a: int, b: int|
                        0 <= a < new_keys.len() && 0 <= b < new_keys.len() && a != b
                        implies new_keys[a] != new_keys[b] by {
                        assert(old_keys[a] != old_keys[b]);
                    }
                },
                None => {
                    assert(new_keys =~= old_keys.push(kv));
                    assert(!old_keys.contains(kv)) by {
                        old(self).lemma_view_dom();
                    }
                    assert forall|a: int, b: int|
                        0 <= a < new_keys.len() && 0 <= b < new_keys.len() && a != b
                        implies new_keys[a] != new_keys[b] by {
                        if a < old_keys.len() && b < old_keys.len() {
                            assert(old_keys[a] != old_keys[b]);
                        } else if a < old_keys.len() {
                            assert(old_keys[a] == new_keys[a]);
                        } else {
                            assert(old_keys[b] == new_keys[b]);
                        }
                    }
                },
            }
        }
        self.entries = entries;
        proof {
            assert(self.keys() == new_keys);
            let new_map = old(self)@.insert(kv, v);
            assert forall|key: Seq<char>| #[trigger] self@.dom().contains(key) <==> new_map.dom().contains(key) by {
                if key == kv {
                    match found {
                        Some(i) => { assert(new_keys[i as int] == kv); },
                        None => { assert(new_keys[old_keys.len() as int] == kv); },
                    }
                } else {
                    if old_keys.contains(key) {
                        let m = choose|m: int| 0 <= m < old_keys.len() && old_keys[m] == key;
                        assert(new_keys[m] == key);
                    }
                    if new_keys.contains(key) {
                        let m = choose|m: int| 0 <= m < new_keys.len() && new_keys[m] == key;
                        assert(old_keys[m] == key);
                    }
                }
            }
            assert forall|key: Seq<char>| #[trigger] self@.dom().contains(key) implies self@[key] == new_map[key] by {
                let m = choose|m: int| 0 <= m < new_keys.len() && new_keys[m] == key;
                self.lemma_view_at(m);
                if key != kv {
                    old(self).lemma_view_at(m);
                }
            }
            assert(self@ =~= new_map);
        }
    }

    /// Removes the entry under `k`, returning its value if there was one.
    pub fn remove(&mut self, k: &str) -> (r: Option<V>)
        ensures
            final(self)@ == old(self)@.remove(k@),
            r == (if old(self)@.dom().contains(k@) { Some(old(self)@[k@]) } else { None }),
    {
        proof { use_type_invariant(&*self); }
        let ghost old_keys = self.keys();
        match self.find(k) {
            None => {
                proof {
                    assert(self@ =~= old(self)@.remove(k@));
                }
                None
            },
            Some(i) => {
                proof { self.lemma_view_at(i as int); }
                let mut entries = self.take_entries();
                let (_key, val) = entries.remove(i);
                let ghost new_keys = entries@.map_values(|e: (String, V)| e.0@);
                proof {
                    assert(new_keys =~= old_keys.remove(i as int));
                    assert forall|a: int, b: int|
                        0 <= a < new_keys.len() && 0 <= b < new_keys.len() && a != b
                        implies new_keys[a] != new_keys[b] by {
                        let oa = if a < i { a } else { a + 1 };
                        let ob = if b < i { b } else { b + 1 };
                        assert(old_keys[oa] != old_keys[ob]);
                    }
                }
                self.entries = entries;
                proof {
                    let kv = k@;
                    assert(self.keys() == new_keys);
                    let new_map = old(self)@.remove(kv);
                    assert forall|key: Seq<char>| #[trigger] self@.dom().contains(key) <==> new_map.dom().contains(key) by {
                        if new_keys.contains(key) {
                            let m = choose|m: int| 0 <= m < new_keys.len() && new_keys[m] == key;
                            let om = if m < i { m } else { m + 1 };
                            assert(old_keys[om] == key);
                            assert(old_keys[i as int] == kv);
                        }
                        if key != kv && old_keys.contains(key) {
                            let m = choose|m: int| 0 <= m < old_keys.len() && old_keys[m] == key;
                            assert(m != i);
                            let nm = if m < i { m } else { m - 1 };
                            assert(new_keys[nm] == key);
                        }
                    }
                    assert forall|key: Seq<char>| #[trigger] self@.dom().contains(key) implies self@[key] == new_map[key] by {
                        let m = choose|m: int| 0 <= m < new_keys.len() && new_keys[m] == key;
                        self.lemma_view_at(m);
                        let om = if m < i { m } else { m + 1 };
                        old(self).lemma_view_at(om);
                    }
                    assert(self@ =~= new_map);
                }
                Some(val)
            },
        }
    }

    /// The keys of the map, each once, in an unspecified order.
    pub fn key_list(&self) -> (r: Vec<String>)
        ensures
            views(r@).no_duplicates(),
            forall|k: Seq<char>| self@.dom().contains(k) <==> #[trigger] views(r@).contains(k),
    {
        proof { use_type_invariant(self); }
        let mut r: Vec<String> = Vec::new();
        let mut i: usize = 0;
        while i < self.entries.len()
            invariant
                i <= self.entries@.len(),
                self.keys().no_duplicates(),
                views(r@) =~= self.keys().take(i as int),
            decreases self.entries@.len() - i,
        {
            r.push(self.entries[i].0.clone());
            proof {
                assert(self.keys().take(i as int + 1) =~= self.keys().take(i as int).push(self.keys()[i as int]));
            }
            i = i + 1;
        }
        proof {
            assert(self.keys().take(i as int) =~= self.keys());
        }
        r
    }
}

} // verus!
