//! A small map from identifiers to values, kept as a vector of entries in
//! which no key occurs twice. Its view is a `Map` keyed by the characters of
//! the identifier.

use crate::text::same_text;
use vstd::prelude::*;
use vstd::string::*;

verus! {

#[derive(Debug)]
struct Slot<T> {
    key: String,
    value: T,
}

/// A map from identifiers to values, in which no identifier occurs twice.
#[derive(Debug)]
pub struct Registry<T> {
    entries: Vec<Slot<T>>,
}

impl<T> View for Registry<T> {
    type V = Map<Seq<char>, T>;

    closed spec fn view(&self) -> Map<Seq<char>, T> {
        Map::new(
            |k: Seq<char>| self.keys().contains(k),
            |k: Seq<char>| self.values()[self.keys().index_of(k)],
        )
    }
}

impl<T> Registry<T> {
    #[verifier::type_invariant]
    spec fn distinct_keys(self) -> bool {
        forall|i: int, j: int|
            0 <= i < j < self.entries.len() ==> (#[trigger] self.entries[i]).key@
                != (#[trigger] self.entries[j]).key@
    }

    /// The keys, in the order in which they were first inserted.
    pub closed spec fn keys(self) -> Seq<Seq<char>> {
        Seq::new(self.entries.len() as nat, |i: int| self.entries[i].key@)
    }

    /// The value of each key, in the order of `keys`.
    pub closed spec fn values(self) -> Seq<T> {
        Seq::new(self.entries.len() as nat, |i: int| self.entries[i].value)
    }

    /// Keys and values run in parallel, no key occurs twice, and the view
    /// maps each key to the value at its place.
    pub open spec fn entries_agree(self) -> bool {
        &&& self.keys().len() == self.values().len()
        &&& self.keys().no_duplicates()
        &&& forall|i: int|
            0 <= i < self.keys().len() ==> self@.contains_key(#[trigger] self.keys()[i])
                && self@[self.keys()[i]] == self.values()[i]
        &&& forall|k: Seq<char>| #[trigger]
            self@.contains_key(k) ==> self.keys().contains(k) && self@[k]
                == self.values()[self.keys().index_of(k)]
        &&& self@.dom().finite()
    }

    proof fn lemma_entries(self)
        requires
            self.distinct_keys(),
        ensures
            self.entries_agree(),
            self.keys().len() == self.values().len(),
            self.keys().no_duplicates(),
            forall|i: int|
                0 <= i < self.keys().len() ==> self@.contains_key(#[trigger] self.keys()[i])
                    && self@[self.keys()[i]] == self.values()[i],
            forall|k: Seq<char>| #[trigger]
                self@.contains_key(k) ==> self.keys().contains(k) && self@[k]
                    == self.values()[self.keys().index_of(k)],
            self@.dom().finite(),
    {
        let keys = self.keys();
        assert forall|i: int, j: int| 0 <= i < keys.len() && 0 <= j < keys.len() && i != j implies keys[i]
            != keys[j] by {
            if i < j {
                assert(self.entries[i].key@ != self.entries[j].key@);
            } else {
                assert(self.entries[j].key@ != self.entries[i].key@);
            }
        }
        assert forall|i: int| 0 <= i < keys.len() implies self@.contains_key(#[trigger] keys[i])
            && self@[keys[i]] == self.values()[i] by {
            assert(keys.contains(keys[i]));
            let j = keys.index_of(keys[i]);
            assert(j == i);
        }
        assert(self@.dom() =~= keys.to_set());
        vstd::seq_lib::seq_to_set_is_finite(keys);
    }

    /// The empty registry.
    pub fn new() -> (r: Registry<T>)
        ensures
            r@ == Map::<Seq<char>, T>::empty(),
            r.keys().len() == 0,
    {
        let r = Registry { entries: Vec::new() };
        assert(r@ =~= Map::<Seq<char>, T>::empty());
        r
    }

    /// Removes every entry.
    pub fn clear(&mut self)
        ensures
            final(self)@ == Map::<Seq<char>, T>::empty(),
            final(self).keys().len() == 0,
    {
        self.entries = Vec::new();
        assert(self@ =~= Map::<Seq<char>, T>::empty());
    }

    /// The number of keys, and with it what ties keys, values and view.
    pub fn len(&self) -> (n: usize)
        ensures
            n == self.keys().len(),
            self.entries_agree(),
    {
        proof {
            use_type_invariant(self);
            self.lemma_entries();
        }
        self.entries.len()
    }

    /// The place of `key` among the keys.
    pub fn find(&self, key: &str) -> (r: Option<usize>)
        ensures
            self.entries_agree(),
            match r {
                Some(i) => i < self.keys().len() && self.keys()[i as int] == key@
                    && self@.contains_key(key@) && self@[key@] == self.values()[i as int],
                None => !self@.contains_key(key@),
            },
    {
        proof {
            use_type_invariant(self);
            self.lemma_entries();
        }
        let mut i: usize = 0;
        while i < self.entries.len()
            invariant
                i <= self.entries.len(),
                self.entries_agree(),
                self.keys().len() == self.entries.len(),
                forall|j: int| 0 <= j < i ==> self.keys()[j] != key@,
            decreases self.entries.len() - i,
        {
            if same_text(self.entries[i].key.as_str(), key) {
                assert(self.keys()[i as int] == key@);
                return Some(i);
            }
            assert(self.keys()[i as int] != key@);
            i += 1;
        }
        assert(!self.keys().contains(key@));
        None
    }

    /// The value under `key`, where there is one.
    pub fn get(&self, key: &str) -> (r: Option<&T>)
        ensures
            match r {
                Some(v) => self@.contains_key(key@) && *v == self@[key@],
                None => !self@.contains_key(key@),
            },
    {
        match self.find(key) {
            Some(i) => Some(&self.entries[i].value),
            None => None,
        }
    }

    /// The value at place `i`.
    pub(crate) fn value_at(&self, i: usize) -> (r: &T)
        requires
            i < self.values().len(),
        ensures
            *r == self.values()[i as int],
    {
        &self.entries[i].value
    }

    /// Replaces the value at place `i`; its key stays.
    pub(crate) fn set_value_at(&mut self, i: usize, value: T)
        requires
            i < old(self).values().len(),
        ensures
            final(self).keys() == old(self).keys(),
            final(self).values() == old(self).values().update(i as int, value),
            final(self)@ == old(self)@.insert(old(self).keys()[i as int], value),
    {
        proof {
            use_type_invariant(&*self);
            self.lemma_entries();
        }
        let ghost before = *self;
        let mut entries: Vec<Slot<T>> = Vec::new();
        core::mem::swap(&mut self.entries, &mut entries);
        let key = entries[i].key.clone();
        entries.set(i, Slot { key, value });
        proof {
            assert forall|a: int, b: int| 0 <= a < b < entries.len() implies (
            #[trigger] entries[a]).key@ != (#[trigger] entries[b]).key@ by {
                assert(entries[a].key@ == before.entries[a].key@);
                assert(entries[b].key@ == before.entries[b].key@);
            }
        }
        self.entries = entries;
        proof {
            assert(self.keys() =~= before.keys());
            assert(self.values() =~= before.values().update(i as int, value));
            let k0 = before.keys()[i as int];
            assert(self@.dom() =~= before@.insert(k0, value).dom());
            assert forall|k: Seq<char>| #[trigger] self@.contains_key(k) implies self@[k]
                == before@.insert(k0, value)[k] by {
                assert(self.keys().contains(k));
            }
            assert(self@ =~= before@.insert(k0, value));
        }
    }

    /// Stores `value` under `key`, in place of what stood there before.
    pub fn insert(&mut self, key: &str, value: T)
        ensures
            final(self)@ == old(self)@.insert(key@, value),
    {
        match self.find(key) {
            Some(i) => {
                self.set_value_at(i, value);
            },
            None => {
                proof {
                    use_type_invariant(&*self);
                    self.lemma_entries();
                }
                let ghost before = *self;
                let mut entries: Vec<Slot<T>> = Vec::new();
                core::mem::swap(&mut self.entries, &mut entries);
                entries.push(Slot { key: key.to_owned(), value });
                proof {
                    let n = before.entries.len() as int;
                    assert forall|a: int, b: int| 0 <= a < b < entries.len() implies (
                    #[trigger] entries[a]).key@ != (#[trigger] entries[b]).key@ by {
                        assert(entries[a] == before.entries[a]);
                        if b < n {
                            assert(entries[b] == before.entries[b]);
                        } else {
                            assert(before.keys()[a] == before.entries[a].key@);
                            assert(before.keys().contains(before.keys()[a]));
                        }
                    }
                }
                self.entries = entries;
                proof {
                    let n = before.entries.len() as int;
                    assert(self.keys() =~= before.keys().push(key@));
                    assert(self.values() =~= before.values().push(value));
                    assert forall|k: Seq<char>|
                        self@.contains_key(k) == before@.insert(key@, value).contains_key(k) by {
                        if k == key@ {
                            assert(self.keys()[n] == k);
                        } else if before.keys().contains(k) {
                            let j = before.keys().index_of(k);
                            assert(self.keys()[j] == k);
                        } else if self.keys().contains(k) {
                            let j = self.keys().index_of(k);
                            assert(j < n);
                            assert(before.keys()[j] == k);
                        }
                    }
                    assert forall|k: Seq<char>| #[trigger] self@.contains_key(k) implies self@[k]
                        == before@.insert(key@, value)[k] by {
                        assert(self.keys().contains(k));
                        let j = self.keys().index_of(k);
                        if k == key@ {
                            if j < n {
                                assert(before.keys()[j] == k);
                                assert(before.keys().contains(k));
                            }
                        } else {
                            assert(j < n);
                            assert(before.keys()[j] == k);
                            assert(before.keys().contains(k));
                            let j2 = before.keys().index_of(k);
                            assert(self.keys()[j2] == k);
                        }
                    }
                    assert(self@ =~= before@.insert(key@, value));
                }
            },
        }
    }
}

impl<T: Copy> Registry<T> {
    /// A registry with the same keys and the same values.
    pub fn duplicate(&self) -> (r: Registry<T>)
        ensures
            r@ == self@,
    {
        proof {
            use_type_invariant(self);
        }
        let mut entries: Vec<Slot<T>> = Vec::new();
        let mut i: usize = 0;
        while i < self.entries.len()
            invariant
                i <= self.entries.len(),
                entries.len() == i,
                forall|k: int|
                    0 <= k < i ==> (#[trigger] entries@[k]).key@ == self.entries@[k].key@
                        && entries@[k].value == self.entries@[k].value,
            decreases self.entries.len() - i,
        {
            entries.push(Slot { key: self.entries[i].key.clone(), value: self.entries[i].value });
            i += 1;
        }
        let r = Registry { entries };
        assert(r.keys() =~= self.keys());
        assert(r.values() =~= self.values());
        r
    }
}

impl Registry<String> {
    /// A registry with the same keys and the same texts.
    pub fn duplicate_texts(&self) -> (r: Registry<String>)
        ensures
            r@ == self@,
    {
        proof {
            use_type_invariant(self);
        }
        let mut entries: Vec<Slot<String>> = Vec::new();
        let mut i: usize = 0;
        while i < self.entries.len()
            invariant
                i <= self.entries.len(),
                entries.len() == i,
                forall|k: int|
                    0 <= k < i ==> (#[trigger] entries@[k]).key@ == self.entries@[k].key@
                        && entries@[k].value == self.entries@[k].value,
            decreases self.entries.len() - i,
        {
            entries.push(
                Slot { key: self.entries[i].key.clone(), value: self.entries[i].value.clone() },
            );
            i += 1;
        }
        let r = Registry { entries };
        assert(r.keys() =~= self.keys());
        assert(r.values() =~= self.values());
        r
    }
}

/// Where two registries hold the same keys and each value of the second is
/// `f` of the value at the same place in the first, the view of the second
/// is the view of the first with `f` applied to every value.
pub proof fn lemma_mapped_values<T>(a: Registry<T>, b: Registry<T>, f: spec_fn(T) -> T)
    requires
        a.keys() == b.keys(),
        a.keys().no_duplicates(),
        a.values().len() == a.keys().len(),
        b.values().len() == a.keys().len(),
        forall|i: int| 0 <= i < a.values().len() ==> b.values()[i] == f(#[trigger] a.values()[i]),
    ensures
        b@ == a@.map_values(f),
{
    assert forall|k: Seq<char>| #[trigger] b@.contains_key(k) implies b@[k] == a@.map_values(f)[k] by {
        let j = a.keys().index_of(k);
        assert(a.keys().contains(k));
    }
    assert(b@.dom() =~= a@.map_values(f).dom());
    assert(b@ =~= a@.map_values(f));
}

} // verus!
