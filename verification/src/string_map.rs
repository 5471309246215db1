//! A small map keyed by text that keeps its entries in insertion order.
//!
//! The gateway and the pipeline key their tables by strings (addresses,
//! signal names, field names) and hold few entries, so a vector of entries
//! with pairwise distinct keys does the work of a hash map, and its contents
//! can be reasoned about exactly. (vstd models the contents of a
//! `HashMap` only for key types that it knows to hash and compare as they
//! should, and `String` is not among them.)

use vstd::prelude::*;

verus! {

/// `str` equality compares the two texts character by character.
pub assume_specification[ <str as PartialEq>::eq ](a: &str, b: &str) -> (same: bool)
    ensures
        same == (a@ == b@),
;

#[derive(Debug, Clone)]
struct Entry<T> {
    key: String,
    value: T,
}

/// A finite map from text to `T`. Its view is the mathematical map; `keys`
/// lists the keys in the order in which they were first inserted.
#[derive(Debug)]
pub struct StringMap<T> {
    entries: Vec<Entry<T>>,
}

impl<T> View for StringMap<T> {
    type V = Map<Seq<char>, T>;

    closed spec fn view(&self) -> Map<Seq<char>, T> {
        Map::new(
            |k: Seq<char>| self.keys().contains(k),
            |k: Seq<char>| self.entries@[self.keys().index_of(k)].value,
        )
    }
}

impl<T> StringMap<T> {
    /// The keys, in the order in which they were first inserted.
    pub closed spec fn keys(&self) -> Seq<Seq<char>> {
        Seq::new(self.entries@.len(), |i: int| self.entries@[i].key@)
    }

    #[verifier::type_invariant]
    spec fn distinct_keys(&self) -> bool {
        self.keys().no_duplicates()
    }

    /// The keys of the map are exactly the keys listed by `keys`.
    pub proof fn lemma_dom_is_keys(&self)
        ensures
            self@.dom() =~= self.keys().to_set(),
            self@.dom().finite(),
    {
        vstd::seq_lib::seq_to_set_is_finite(self.keys());
    }

    /// An empty map.
    pub fn new() -> (m: Self)
        ensures
            m@ == Map::<Seq<char>, T>::empty(),
            m.keys() == Seq::<Seq<char>>::empty(),
    {
        let m = StringMap { entries: Vec::new() };
        assert(m.keys() =~= Seq::<Seq<char>>::empty());
        assert(m@ =~= Map::<Seq<char>, T>::empty());
        m
    }

    /// The number of entries.
    pub fn len(&self) -> (n: usize)
        ensures
            n == self.keys().len(),
            n == self@.dom().len(),
            self.keys().no_duplicates(),
    {
        proof {
            use_type_invariant(self);
            self.lemma_dom_is_keys();
            self.keys().unique_seq_to_set();
        }
        self.entries.len()
    }

    /// Where `key` stands among the entries, if it is there.
    fn position(&self, key: &str) -> (at: Option<usize>)
        ensures
            match at {
                Some(i) => i < self.keys().len() && self.keys()[i as int] == key@,
                None => !self.keys().contains(key@),
            },
    {
        let mut i: usize = 0;
        while i < self.entries.len()
            invariant
                i <= self.entries.len(),
                forall|j: int| 0 <= j < i ==> self.keys()[j] != key@,
            decreases self.entries.len() - i,
        {
            assert(self.keys()[i as int] == self.entries@[i as int].key@);
            if *self.entries[i].key.as_str() == *key {
                return Some(i);
            }
            i += 1;
        }
        None
    }

    /// Whether `key` has an entry.
    pub fn contains_key(&self, key: &str) -> (found: bool)
        ensures
            found == self@.contains_key(key@),
    {
        self.position(key).is_some()
    }

    /// The value stored under `key`, if there is one.
    pub fn get(&self, key: &str) -> (value: Option<&T>)
        ensures
            match value {
                Some(v) => self@.contains_key(key@) && *v == self@[key@],
                None => !self@.contains_key(key@),
            },
    {
        proof {
            use_type_invariant(self);
        }
        match self.position(key) {
            Some(i) => {
                assert(self.keys().index_of(key@) == i);
                Some(&self.entries[i].value)
            },
            None => None,
        }
    }

    /// The key of the `i`-th entry.
    pub fn key_at(&self, i: usize) -> (key: &String)
        requires
            i < self.keys().len(),
        ensures
            key@ == self.keys()[i as int],
            self@.contains_key(key@),
    {
        assert(self.keys()[i as int] == self.entries@[i as int].key@);
        &self.entries[i].key
    }

    /// The value of the `i`-th entry.
    pub fn value_at(&self, i: usize) -> (value: &T)
        requires
            i < self.keys().len(),
        ensures
            *value == self@[self.keys()[i as int]],
    {
        proof {
            use_type_invariant(self);
            assert(self.keys().index_of(self.keys()[i as int]) == i);
        }
        &self.entries[i].value
    }

    /// Stores `value` under `key` and returns the value it replaces, if any.
    /// A new key goes to the end of `keys`; a known key keeps its place.
    pub fn insert(&mut self, key: String, value: T) -> (previous: Option<T>)
        ensures
            final(self)@ == old(self)@.insert(key@, value),
            previous == (if old(self)@.contains_key(key@) {
                Some(old(self)@[key@])
            } else {
                None::<T>
            }),
            final(self).keys() == (if old(self)@.contains_key(key@) {
                old(self).keys()
            } else {
                old(self).keys().push(key@)
            }),
    {
        proof {
            use_type_invariant(&*self);
        }
        let at = self.position(key.as_str());
        let ghost before = *old(self);
        let mut entries: Vec<Entry<T>> = Vec::new();
        std::mem::swap(&mut entries, &mut self.entries);
        let previous = match at {
            Some(i) => {
                let old_entry = entries.remove(i);
                entries.insert(i, Entry { key, value });
                Some(old_entry.value)
            },
            None => {
                entries.push(Entry { key, value });
                None
            },
        };
        let ghost after = StringMap { entries };
        proof {
            if at is Some {
                let i = at->0 as int;
                assert(before.keys().index_of(key@) == i);
                assert(after.keys() =~= before.keys());
                assert forall|k: Seq<char>| after@.contains_key(k) implies #[trigger] after@[k]
                    == before@.insert(key@, value)[k] by {
                    let j = after.keys().index_of(k);
                    if j != i {
                        assert(after.entries@[j] == before.entries@[j]);
                    }
                }
            } else {
                assert(after.keys() =~= before.keys().push(key@));
                assert forall|k: Seq<char>| after@.contains_key(k) implies #[trigger] after@[k]
                    == before@.insert(key@, value)[k] by {
                    let j = after.keys().index_of(k);
                    if j < before.keys().len() {
                        assert(before.keys()[j] == k);
                        assert(before.keys().index_of(k) == j);
                    }
                }
                assert forall|k: Seq<char>| before@.insert(key@, value).contains_key(k) implies
                    after@.contains_key(k) by {
                    if k != key@ {
                        let j = before.keys().index_of(k);
                        assert(after.keys()[j] == k);
                    } else {
                        assert(after.keys()[before.keys().len() as int] == k);
                    }
                }
            }
            assert(after@ =~= before@.insert(key@, value));
        }
        self.entries = entries;
        previous
    }

    /// Takes the entry under `key` out and returns its value. Removing a key
    /// that has no entry changes nothing.
    pub fn remove(&mut self, key: &str) -> (removed: Option<T>)
        ensures
            final(self)@ == old(self)@.remove(key@),
            removed == (if old(self)@.contains_key(key@) {
                Some(old(self)@[key@])
            } else {
                None::<T>
            }),
            final(self).keys() == (if old(self)@.contains_key(key@) {
                old(self).keys().remove(old(self).keys().index_of(key@))
            } else {
                old(self).keys()
            }),
    {
        proof {
            use_type_invariant(&*self);
        }
        let at = self.position(key);
        let ghost before = *old(self);
        match at {
            Some(i) => {
                let mut entries: Vec<Entry<T>> = Vec::new();
                std::mem::swap(&mut entries, &mut self.entries);
                let entry = entries.remove(i);
                let ghost after = StringMap { entries };
                proof {
                    let i = i as int;
                    assert(before.keys().index_of(key@) == i);
                    assert(after.keys() =~= before.keys().remove(i));
                    assert forall|k: Seq<char>| after@.contains_key(k) implies
                        before@.remove(key@).contains_key(k) && #[trigger] after@[k] == before@[k] by {
                        let j = after.keys().index_of(k);
                        let j0 = if j < i { j } else { j + 1 };
                        assert(before.keys()[j0] == k);
                        assert(before.keys().index_of(k) == j0);
                    }
                    assert forall|k: Seq<char>| before@.remove(key@).contains_key(k) implies
                        after@.contains_key(k) by {
                        let j0 = before.keys().index_of(k);
                        let j = if j0 < i { j0 } else { j0 - 1 };
                        assert(after.keys()[j] == k);
                    }
                    assert(after@ =~= before@.remove(key@));
                }
                self.entries = entries;
                Some(entry.value)
            },
            None => {
                proof {
                    assert(before@ =~= before@.remove(key@));
                }
                None
            },
        }
    }
}

} // verus!
