//! A map from strings to values, kept as a list in which no key occurs twice.
//!
//! Its view is a `Map` keyed by the characters of the key, so two strings
//! with the same characters are the same key.
use vstd::prelude::*;

verus! {

/// No two entries have the same key.
pub open spec fn distinct_keys<T>(entries: Seq<(String, T)>) -> bool {
    forall|i: int, j: int|
        0 <= i < j < entries.len() ==> (#[trigger] entries[i]).0@ != (#[trigger] entries[j]).0@
}

/// Some entry has the key `k`.
pub open spec fn has_key<T>(entries: Seq<(String, T)>, k: Seq<char>) -> bool {
    exists|i: int| 0 <= i < entries.len() && (#[trigger] entries[i]).0@ == k
}

/// An index at which the key `k` stands, if it stands anywhere.
pub open spec fn slot<T>(entries: Seq<(String, T)>, k: Seq<char>) -> int {
    choose|i: int| 0 <= i < entries.len() && (#[trigger] entries[i]).0@ == k
}

/// The keys of a list of entries, in the order of the list.
pub open spec fn keys_of<T>(entries: Seq<(String, T)>) -> Seq<Seq<char>> {
    Seq::new(entries.len(), |i: int| entries[i].0@)
}

/// `keys` with `k` added at the end unless it is there already.
pub open spec fn with_key(keys: Seq<Seq<char>>, k: Seq<char>) -> Seq<Seq<char>> {
    if keys.contains(k) {
        keys
    } else {
        keys.push(k)
    }
}

/// `keys` with each of `more` added in turn unless it is there already.
pub open spec fn with_keys(keys: Seq<Seq<char>>, more: Seq<Seq<char>>) -> Seq<Seq<char>>
    decreases more.len(),
{
    if more.len() == 0 {
        keys
    } else {
        with_key(with_keys(keys, more.drop_last()), more.last())
    }
}

/// The map that a list of entries stands for.
pub open spec fn map_of<T>(entries: Seq<(String, T)>) -> Map<Seq<char>, T> {
    Map::new(|k: Seq<char>| has_key(entries, k), |k: Seq<char>| entries[slot(entries, k)].1)
}

/// The keys of a list are the keys of its map, and none is listed twice
/// where no two entries have the same key.
pub proof fn lemma_keys_of<T>(entries: Seq<(String, T)>)
    ensures
        forall|k: Seq<char>| map_of(entries).contains_key(k) <==> keys_of(entries).contains(k),
        distinct_keys(entries) ==> keys_of(entries).no_duplicates(),
{
    let keys = keys_of(entries);
    assert forall|k: Seq<char>| map_of(entries).contains_key(k) implies keys.contains(k) by {
        assert(keys[slot(entries, k)] == k);
    }
}

/// In a list without repeated keys, the entry at `i` is what the map holds
/// under that entry's key.
pub proof fn lemma_entry<T>(entries: Seq<(String, T)>, i: int)
    requires
        distinct_keys(entries),
        0 <= i < entries.len(),
    ensures
        map_of(entries).contains_key(entries[i].0@),
        map_of(entries)[entries[i].0@] == entries[i].1,
        slot(entries, entries[i].0@) == i,
{
}

/// Adding an entry under a key that is not yet there inserts it into the map.
pub proof fn lemma_push<T>(entries: Seq<(String, T)>, key: String, val: T)
    requires
        distinct_keys(entries),
        !has_key(entries, key@),
    ensures
        distinct_keys(entries.push((key, val))),
        map_of(entries.push((key, val))) == map_of(entries).insert(key@, val),
        keys_of(entries.push((key, val))) == with_key(keys_of(entries), key@),
{
    let after = entries.push((key, val));
    lemma_keys_of(entries);
    assert forall|k: Seq<char>| has_key(after, k) <==> (k == key@ || has_key(entries, k)) by {
        if has_key(entries, k) {
            assert(after[slot(entries, k)].0@ == k);
        }
        if k == key@ {
            assert(after[entries.len() as int].0@ == k);
        }
    }
    assert forall|k: Seq<char>| has_key(after, k) implies map_of(after)[k] == map_of(
        entries,
    ).insert(key@, val)[k] by {
        let i = slot(after, k);
        lemma_entry(after, i);
        if i < entries.len() {
            lemma_entry(entries, i);
        }
    }
}

/// Putting a new value in the place of an entry with the same key inserts
/// it into the map.
pub proof fn lemma_replace<T>(entries: Seq<(String, T)>, at: int, key: String, val: T)
    requires
        distinct_keys(entries),
        0 <= at < entries.len(),
        entries[at].0@ == key@,
    ensures
        distinct_keys(entries.update(at, (key, val))),
        map_of(entries.update(at, (key, val))) == map_of(entries).insert(key@, val),
        keys_of(entries.update(at, (key, val))) == with_key(keys_of(entries), key@),
{
    let after = entries.update(at, (key, val));
    assert(keys_of(entries)[at] == key@);
    assert forall|k: Seq<char>| has_key(after, k) <==> (k == key@ || has_key(entries, k)) by {
        if has_key(entries, k) {
            assert(after[slot(entries, k)].0@ == k);
        }
    }
    assert forall|k: Seq<char>| has_key(after, k) implies map_of(after)[k] == map_of(
        entries,
    ).insert(key@, val)[k] by {
        let i = slot(after, k);
        lemma_entry(after, i);
        lemma_entry(entries, i);
    }
}

/// A map from strings to values of type `T`.
#[derive(Debug)]
pub struct StrMap<T> {
    entries: Vec<(String, T)>,
}

impl<T> View for StrMap<T> {
    type V = Map<Seq<char>, T>;

    closed spec fn view(&self) -> Map<Seq<char>, T> {
        map_of(self.entries@)
    }
}

impl<T> StrMap<T> {
    #[verifier::type_invariant]
    spec fn well_formed(self) -> bool {
        distinct_keys(self.entries@)
    }

    /// The keys in the order in which they were first inserted.
    pub closed spec fn keys(&self) -> Seq<Seq<char>> {
        keys_of(self.entries@)
    }

    /// The empty map.
    pub fn new() -> (m: Self)
        ensures
            m@ == Map::<Seq<char>, T>::empty(),
            m.keys() == Seq::<Seq<char>>::empty(),
    {
        StrMap { entries: Vec::new() }
    }

    /// Number of keys. The keys are the keys of the map, each listed once.
    pub fn len(&self) -> (n: usize)
        ensures
            n == self.keys().len(),
            self.keys().no_duplicates(),
            forall|k: Seq<char>| self@.contains_key(k) <==> self.keys().contains(k),
    {
        proof {
            use_type_invariant(self);
            lemma_keys_of(self.entries@);
        }
        self.entries.len()
    }

    /// The key at position `i` of `keys`.
    pub fn key_at(&self, i: usize) -> (k: &String)
        requires
            i < self.keys().len(),
        ensures
            k@ == self.keys()[i as int],
            self@.contains_key(k@),
    {
        proof {
            use_type_invariant(self);
            lemma_entry(self.entries@, i as int);
        }
        &self.entries[i].0
    }

    /// The value stored under the key at position `i` of `keys`.
    pub fn value_at(&self, i: usize) -> (v: &T)
        requires
            i < self.keys().len(),
        ensures
            self@.contains_key(self.keys()[i as int]),
            *v == self@[self.keys()[i as int]],
    {
        proof {
            use_type_invariant(self);
            lemma_entry(self.entries@, i as int);
        }
        &self.entries[i].1
    }

    /// Index of the entry with the given key, if there is one.
    fn find(entries: &Vec<(String, T)>, key: &String) -> (r: Option<usize>)
        ensures
            match r {
                Some(i) => i < entries@.len() && entries@[i as int].0@ == key@,
                None => !has_key(entries@, key@),
            },
    {
        let mut i: usize = 0;
        while i < entries.len()
            invariant
                i <= entries@.len(),
                forall|j: int| 0 <= j < i ==> (#[trigger] entries@[j]).0@ != key@,
            decreases entries@.len() - i,
        {
            if entries[i].0 == *key {
                return Some(i);
            }
            i = i + 1;
        }
        None
    }

    /// The value stored under `key`, if any.
    pub fn get(&self, key: &str) -> (r: Option<&T>)
        ensures
            r == (if self@.contains_key(key@) {
                Some(&self@[key@])
            } else {
                None
            }),
    {
        proof {
            use_type_invariant(self);
        }
        let owned: String = key.to_owned();
        match Self::find(&self.entries, &owned) {
            Some(i) => {
                proof {
                    lemma_entry(self.entries@, i as int);
                }
                Some(&self.entries[i].1)
            },
            None => None,
        }
    }

    /// Tells whether `key` is in the map.
    pub fn contains_key(&self, key: &str) -> (r: bool)
        ensures
            r == self@.contains_key(key@),
    {
        self.get(key).is_some()
    }

    /// Stores `val` under `key`; a value that was there before is replaced.
    /// A key that is new comes last in `keys`.
    pub fn insert(&mut self, key: String, val: T)
        ensures
            final(self)@ == old(self)@.insert(key@, val),
            final(self).keys() == with_key(old(self).keys(), key@),
    {
        proof {
            use_type_invariant(&*self);
        }
        let mut entries: Vec<(String, T)> = Vec::new();
        std::mem::swap(&mut entries, &mut self.entries);
        match Self::find(&entries, &key) {
            Some(i) => {
                proof {
                    lemma_replace(entries@, i as int, key, val);
                }
                entries.set(i, (key, val));
            },
            None => {
                proof {
                    lemma_push(entries@, key, val);
                }
                entries.push((key, val));
            },
        }
        self.entries = entries;
    }

    /// Stores a copy of every entry of `other`, in the order of its keys;
    /// where both maps have a key, the value from `other` replaces the one
    /// that was there.
    pub fn absorb(&mut self, other: &StrMap<T>) where T: Clone
        ensures
            forall|k: Seq<char>|
                #![trigger final(self)@.contains_key(k)]
                final(self)@.contains_key(k) <==> old(self)@.contains_key(k) || other@.contains_key(
                    k,
                ),
            forall|k: Seq<char>|
                other@.contains_key(k) ==> cloned::<T>(other@[k], #[trigger] final(self)@[k]),
            forall|k: Seq<char>|
                old(self)@.contains_key(k) && !other@.contains_key(k) ==> #[trigger] final(self)@[k]
                    == old(self)@[k],
            final(self).keys() == with_keys(old(self).keys(), other.keys()),
    {
        proof {
            use_type_invariant(other);
        }
        let n: usize = other.entries.len();
        let mut i: usize = 0;
        while i < n
            invariant
                i <= n,
                n == other.entries@.len(),
                distinct_keys(other.entries@),
                forall|k: Seq<char>|
                    self@.contains_key(k) <==> old(self)@.contains_key(k) || has_key(
                        other.entries@.take(i as int),
                        k,
                    ),
                forall|j: int|
                    0 <= j < i ==> cloned::<T>(
                        (#[trigger] other.entries@[j]).1,
                        self@[other.entries@[j].0@],
                    ),
                forall|k: Seq<char>|
                    !has_key(other.entries@.take(i as int), k) ==> #[trigger] self@[k]
                        == old(self)@[k],
                self.keys() == with_keys(old(self).keys(), other.keys().take(i as int)),
            decreases n - i,
        {
            let key: String = other.entries[i].0.clone();
            let val: T = other.entries[i].1.clone();
            let ghost done = other.entries@.take(i as int);
            let ghost next = other.entries@.take(i + 1);
            self.insert(key, val);
            proof {
                assert forall|k: Seq<char>| has_key(next, k) <==> (k == key@ || has_key(
                    done,
                    k,
                )) by {
                    if k == key@ {
                        assert(next[i as int].0@ == k);
                    }
                }
                assert(other.keys().take(i + 1).drop_last() == other.keys().take(i as int));
            }
            i = i + 1;
        }
        proof {
            assert(other.entries@.take(n as int) == other.entries@);
            assert(other.keys().take(n as int) == other.keys());
            assert forall|k: Seq<char>| other@.contains_key(k) implies cloned::<T>(
                other@[k],
                #[trigger] self@[k],
            ) by {
                let j = slot(other.entries@, k);
                lemma_entry(other.entries@, j);
            }
        }
    }
}

} // verus!
