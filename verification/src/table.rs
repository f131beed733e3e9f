//! A map from text keys to values, kept as a list in which no key occurs
//! twice.
//!
//! vstd models a `HashMap` only for key types of which it knows that equal
//! keys hash alike, and `String` is not among them: nothing could be proved
//! of a lookup by text. The list here is proved in full; the maps of this
//! library are small.

use vstd::prelude::*;

verus! {

/// A finite map keyed by text. Keys are compared character by character.
#[derive(Debug)]
pub struct TextMap<V> {
    entries: Vec<(String, V)>,
}

/// The index of the entry with key `key`, if there is one.
pub open spec fn position<V>(entries: Seq<(String, V)>, key: Seq<char>) -> Option<int> {
    if exists|i: int| 0 <= i < entries.len() && (#[trigger] entries[i]).0@ == key {
        Some(choose|i: int| 0 <= i < entries.len() && (#[trigger] entries[i]).0@ == key)
    } else {
        None
    }
}

/// No key occurs twice.
pub open spec fn distinct_keys<V>(entries: Seq<(String, V)>) -> bool {
    forall|i: int, j: int|
        0 <= i < j < entries.len() ==> (#[trigger] entries[i]).0@ != (#[trigger] entries[j]).0@
}

/// The map that a list of entries with distinct keys stands for.
pub open spec fn map_of<V: View>(entries: Seq<(String, V)>) -> Map<Seq<char>, V::V> {
    Map::new(
        |key: Seq<char>| position(entries, key) is Some,
        |key: Seq<char>| entries[position(entries, key).unwrap()].1@,
    )
}

proof fn lemma_position<V>(entries: Seq<(String, V)>, at: int)
    requires
        distinct_keys(entries),
        0 <= at < entries.len(),
    ensures
        position(entries, entries[at].0@) == Some(at),
{
    let key = entries[at].0@;
    let chosen = choose|i: int| 0 <= i < entries.len() && (#[trigger] entries[i]).0@ == key;
    assert(chosen == at);
}

proof fn lemma_no_position<V>(entries: Seq<(String, V)>, key: Seq<char>)
    requires
        forall|i: int| 0 <= i < entries.len() ==> (#[trigger] entries[i]).0@ != key,
    ensures
        position(entries, key) is None,
{
}

/// A list of entries with distinct keys stands for a map with as many keys
/// as the list has entries.
proof fn lemma_count<V: View>(entries: Seq<(String, V)>)
    requires
        distinct_keys(entries),
    ensures
        map_of(entries).dom().finite(),
        map_of(entries).dom().len() == entries.len(),
    decreases entries.len(),
{
    if entries.len() == 0 {
        assert(map_of(entries).dom() =~= Set::<Seq<char>>::empty());
    } else {
        let init = entries.drop_last();
        let last = entries.last();
        assert forall|i: int, j: int| 0 <= i < j < init.len() implies (#[trigger] init[i]).0@ != (
        #[trigger] init[j]).0@ by {
            assert(entries[i].0@ != entries[j].0@);
        }
        lemma_count(init);
        assert forall|key: Seq<char>| map_of(entries).dom().contains(key) == map_of(
            init,
        ).dom().insert(last.0@).contains(key) by {
            if position(entries, key) is Some {
                let i = position(entries, key).unwrap();
                if i < init.len() {
                    assert(init[i].0@ == key);
                }
            }
            if position(init, key) is Some {
                let i = position(init, key).unwrap();
                assert(entries[i].0@ == key);
            }
            if key == last.0@ {
                assert(entries[entries.len() - 1].0@ == key);
            }
        }
        assert(map_of(entries).dom() =~= map_of(init).dom().insert(last.0@));
        assert(!map_of(init).dom().contains(last.0@)) by {
            if position(init, last.0@) is Some {
                let i = position(init, last.0@).unwrap();
                assert(entries[i].0@ != entries[entries.len() - 1].0@);
            }
        }
    }
}

impl<V> TextMap<V> {
    #[verifier::type_invariant]
    spec fn well_formed(self) -> bool {
        distinct_keys(self.entries@)
    }

    /// The number of entries.
    pub closed spec fn count(self) -> nat {
        self.entries@.len()
    }

    /// The key of the entry at `index`, in the order in which the keys came.
    pub closed spec fn key_at(self, index: int) -> Seq<char> {
        self.entries@[index].0@
    }
}

impl<V: View> View for TextMap<V> {
    type V = Map<Seq<char>, V::V>;

    /// The map that this value stands for: from each key to the view of its
    /// value.
    closed spec fn view(&self) -> Map<Seq<char>, V::V> {
        map_of(self.entries@)
    }
}

impl<V: View> TextMap<V> {


    /// An empty map.
    pub fn new() -> (table: Self)
        ensures
            table@ == Map::<Seq<char>, V::V>::empty(),
            table.count() == 0,
    {
        let table = TextMap { entries: Vec::new() };
        assert(table@ =~= Map::<Seq<char>, V::V>::empty());
        table
    }

    /// The number of entries, which is the number of keys.
    pub fn len(&self) -> (n: usize)
        ensures
            n == self.count(),
            self@.dom().finite(),
            n == self@.dom().len(),
    {
        proof {
            use_type_invariant(self);
            lemma_count(self.entries@);
        }
        self.entries.len()
    }

    /// The index of the entry with this key.
    fn find(&self, key: &str) -> (found: Option<usize>)
        ensures
            match found {
                Some(at) => at < self.entries@.len() && position(self.entries@, key@) == Some(
                    at as int,
                ) && self.entries@[at as int].0@ == key@,
                None => position(self.entries@, key@) is None,
            },
    {
        proof {
            use_type_invariant(self);
        }
        let mut i: usize = 0;
        while i < self.entries.len()
            invariant
                i <= self.entries@.len(),
                distinct_keys(self.entries@),
                forall|j: int| 0 <= j < i ==> (#[trigger] self.entries@[j]).0@ != key@,
            decreases self.entries@.len() - i,
        {
            if self.entries[i].0.as_str().eq(key) {
                proof {
                    lemma_position(self.entries@, i as int);
                }
                return Some(i);
            }
            i += 1;
        }
        proof {
            lemma_no_position(self.entries@, key@);
        }
        None
    }

    /// The value stored under `key`.
    pub fn get(&self, key: &str) -> (found: Option<&V>)
        ensures
            match found {
                Some(value) => self@.contains_key(key@) && self@[key@] == value@,
                None => !self@.contains_key(key@),
            },
    {
        match self.find(key) {
            Some(at) => Some(&self.entries[at].1),
            None => None,
        }
    }

    /// Whether a value is stored under `key`.
    pub fn contains_key(&self, key: &str) -> (present: bool)
        ensures
            present == self@.contains_key(key@),
    {
        self.find(key).is_some()
    }

    /// The key and the value of the entry at `index`.
    pub fn entry(&self, index: usize) -> (pair: (&str, &V))
        requires
            index < self.count(),
        ensures
            pair.0@ == self.key_at(index as int),
            self@.contains_key(pair.0@),
            self@[pair.0@] == pair.1@,
    {
        proof {
            use_type_invariant(self);
            lemma_position(self.entries@, index as int);
        }
        (self.entries[index].0.as_str(), &self.entries[index].1)
    }

    /// Stores `value` under `key`, in place of what was stored there.
    pub fn insert(self, key: String, value: V) -> (table: Self)
        ensures
            table@ == self@.insert(key@, value@),
            table.count() == if self@.contains_key(key@) {
                self.count()
            } else {
                self.count() + 1
            },
    {
        proof {
            use_type_invariant(&self);
        }
        let found = self.find(key.as_str());
        let ghost before = self.entries@;
        let mut entries = self.entries;
        match found {
            Some(at) => {
                entries.set(at, (key, value));
                proof {
                    let after = entries@;
                    assert forall|k: Seq<char>| position(after, k) == position(before, k) by {
                        assert forall|i: int| 0 <= i < before.len() implies ((
                        #[trigger] before[i]).0@ == k) == (after[i].0@ == k) by {}
                        if position(before, k) is Some {
                            let i = position(before, k).unwrap();
                            assert(after[i].0@ == k);
                            lemma_position(after, i);
                        } else {
                            if position(after, k) is Some {
                                let i = position(after, k).unwrap();
                                assert(before[i].0@ == k);
                            }
                        }
                    }
                    lemma_position(before, at as int);
                    assert(map_of(after) =~= map_of(before).insert(key@, value@));
                }
            },
            None => {
                entries.push((key, value));
                proof {
                    let after = entries@;
                    assert(distinct_keys(after)) by {
                        assert forall|i: int, j: int| 0 <= i < j < after.len() implies (
                        #[trigger] after[i]).0@ != (#[trigger] after[j]).0@ by {
                            if j < before.len() {
                                assert(before[i].0@ != before[j].0@);
                            } else {
                                assert(before[i].0@ != key@);
                            }
                        }
                    }
                    lemma_position(after, before.len() as int);
                    assert forall|k: Seq<char>| k != key@ implies position(after, k) == position(
                        before,
                        k,
                    ) by {
                        if position(before, k) is Some {
                            let i = position(before, k).unwrap();
                            assert(after[i] == before[i]);
                            lemma_position(after, i);
                        } else {
                            if position(after, k) is Some {
                                let i = position(after, k).unwrap();
                                assert(before[i].0@ == k);
                            }
                        }
                    }
                    assert(map_of(after) =~= map_of(before).insert(key@, value@));
                }
            },
        }
        TextMap { entries }
    }
}

impl<V: View> TextMap<V> {
    /// Stores `value` under `key` in this map, in place of what was stored
    /// there.
    pub fn put(&mut self, key: String, value: V)
        ensures
            final(self)@ == old(self)@.insert(key@, value@),
            final(self).count() == if old(self)@.contains_key(key@) {
                old(self).count()
            } else {
                old(self).count() + 1
            },
    {
        let mut taken: TextMap<V> = TextMap::new();
        core::mem::swap(self, &mut taken);
        *self = taken.insert(key, value);
    }
}

impl<V: Clone> Clone for TextMap<V> {
    /// A map with the same keys, each with a clone of its value.
    fn clone(&self) -> (copy: Self)
        ensures
            copy.count() == self.count(),
            forall|i: int| 0 <= i < self.count() ==> #[trigger] copy.key_at(i) == self.key_at(i),
    {
        proof {
            use_type_invariant(self);
        }
        let mut entries: Vec<(String, V)> = Vec::new();
        let mut i: usize = 0;
        while i < self.entries.len()
            invariant
                i <= self.entries@.len(),
                entries@.len() == i,
                forall|j: int| 0 <= j < i ==> (#[trigger] entries@[j]).0@ == self.entries@[j].0@,
            decreases self.entries@.len() - i,
        {
            entries.push((self.entries[i].0.clone(), self.entries[i].1.clone()));
            i += 1;
        }
        proof {
            assert forall|a: int, b: int| 0 <= a < b < entries@.len() implies (
            #[trigger] entries@[a]).0@ != (#[trigger] entries@[b]).0@ by {
                assert(self.entries@[a].0@ != self.entries@[b].0@);
            }
        }
        TextMap { entries }
    }
}

/// Values that can be held against each other: they are alike where they
/// hold the same.
pub trait Alike: View + Sized {
    /// Whether two values hold the same.
    fn alike(&self, other: &Self) -> (same: bool)
        ensures
            same == (self@ == other@),
    ;
}

impl Alike for String {
    fn alike(&self, other: &Self) -> (same: bool) {
        self.as_str().eq(other.as_str())
    }
}

impl<V: View> TextMap<V> {
    /// Every key of the map is the key of one of its entries.
    pub proof fn lemma_keys_are_entries(self)
        ensures
            forall|key: Seq<char>| #[trigger]
                self@.contains_key(key) ==> exists|i: int|
                    0 <= i < self.count() && #[trigger] self.key_at(i) == key,
    {
        assert forall|key: Seq<char>| #[trigger] self@.contains_key(key) implies exists|i: int|
            0 <= i < self.count() && #[trigger] self.key_at(i) == key by {
            let i = position(self.entries@, key).unwrap();
            assert(self.key_at(i) == key);
        }
    }
}

/// Every key of `left` is a key of `right`, with a value that holds the
/// same.
pub open spec fn within<W>(left: Map<Seq<char>, W>, right: Map<Seq<char>, W>) -> bool {
    forall|key: Seq<char>| #[trigger]
        left.contains_key(key) ==> right.contains_key(key) && right[key] == left[key]
}

impl<V: Alike> TextMap<V> {
    /// Whether every entry of this map is in the other, with a value that
    /// is alike.
    pub fn is_within(&self, other: &Self) -> (all: bool)
        ensures
            all == within(self@, other@),
    {
        let mut i: usize = 0;
        while i < self.len()
            invariant
                i <= self.count(),
                forall|j: int|
                    0 <= j < i ==> other@.contains_key(#[trigger] self.key_at(j))
                        && other@[self.key_at(j)] == self@[self.key_at(j)],
            decreases self.count() - i,
        {
            let pair = self.entry(i);
            let matches = match other.get(pair.0) {
                Some(value) => value.alike(pair.1),
                None => false,
            };
            if !matches {
                assert(self@.contains_key(pair.0@));
                return false;
            }
            i += 1;
        }
        proof {
            self.lemma_keys_are_entries();
        }
        true
    }
}

impl<V: Alike> Alike for TextMap<V> {
    fn alike(&self, other: &Self) -> (same: bool) {
        let same = self.is_within(other) && other.is_within(self);
        proof {
            if same {
                assert(self@ =~= other@);
            }
        }
        same
    }
}

} // verus!
