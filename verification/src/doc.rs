//! An insertion-ordered document: a map from string keys to values in which
//! every key occurs once and keeps the position of its first insertion.

use vstd::prelude::*;

verus! {

/// The entries of a document as a sequence of key and value, in order.
pub type Entries<T> = Seq<(Seq<char>, T)>;

/// No key occurs at two positions of `entries`.
pub open spec fn unique_keys<T>(entries: Entries<T>) -> bool {
    forall|i: int, j: int|
        0 <= i < j < entries.len() ==> (#[trigger] entries[i]).0 != (#[trigger] entries[j]).0
}

/// Some entry of `entries` has the key `key`.
pub open spec fn has_key<T>(entries: Entries<T>, key: Seq<char>) -> bool {
    exists|i: int| 0 <= i < entries.len() && (#[trigger] entries[i]).0 == key
}

/// The position of the first entry with the key `key`; meaningful when
/// `has_key(entries, key)`.
pub open spec fn position<T>(entries: Entries<T>, key: Seq<char>) -> int {
    choose|i: int|
        0 <= i < entries.len() && (#[trigger] entries[i]).0 == key && forall|j: int|
            0 <= j < i ==> (#[trigger] entries[j]).0 != key
}

/// The value stored under `key`, if there is one.
pub open spec fn lookup<T>(entries: Entries<T>, key: Seq<char>) -> Option<T> {
    if has_key(entries, key) {
        Some(entries[position(entries, key)].1)
    } else {
        None
    }
}

/// The entries after `key` has been set to `value`: an existing key keeps its
/// position and takes the new value, a new key goes to the end.
pub open spec fn inserted<T>(entries: Entries<T>, key: Seq<char>, value: T) -> Entries<T> {
    if has_key(entries, key) {
        entries.update(position(entries, key), (key, value))
    } else {
        entries.push((key, value))
    }
}

/// Where a key is present, `position` is the one place at which it stands
/// first.
pub proof fn lemma_position<T>(entries: Entries<T>, key: Seq<char>)
    requires
        has_key(entries, key),
    ensures
        0 <= position(entries, key) < entries.len(),
        entries[position(entries, key)].0 == key,
        forall|j: int| 0 <= j < position(entries, key) ==> (#[trigger] entries[j]).0 != key,
    decreases entries.len(),
{
    let w = choose|i: int| 0 <= i < entries.len() && (#[trigger] entries[i]).0 == key;
    lemma_first_match(entries, key, w);
}

/// Below any match at `upto` there is a first match.
proof fn lemma_first_match<T>(entries: Entries<T>, key: Seq<char>, upto: int)
    requires
        0 <= upto < entries.len(),
        entries[upto].0 == key,
    ensures
        exists|i: int|
            0 <= i < entries.len() && (#[trigger] entries[i]).0 == key && forall|j: int|
                0 <= j < i ==> (#[trigger] entries[j]).0 != key,
    decreases upto,
{
    if exists|j: int| 0 <= j < upto && (#[trigger] entries[j]).0 == key {
        let j = choose|j: int| 0 <= j < upto && (#[trigger] entries[j]).0 == key;
        lemma_first_match(entries, key, j);
    } else {
        assert(entries[upto].0 == key);
    }
}

/// Setting a key keeps the keys unique.
pub proof fn lemma_inserted_unique<T>(entries: Entries<T>, key: Seq<char>, value: T)
    requires
        unique_keys(entries),
    ensures
        unique_keys(inserted(entries, key, value)),
{
    let out = inserted(entries, key, value);
    if has_key(entries, key) {
        lemma_position(entries, key);
        let p = position(entries, key);
        assert forall|i: int, j: int| 0 <= i < j < out.len() implies (#[trigger] out[i]).0 != (
        #[trigger] out[j]).0 by {
            assert(out[i].0 == entries[i].0);
            assert(out[j].0 == entries[j].0);
        }
    } else {
        assert forall|i: int, j: int| 0 <= i < j < out.len() implies (#[trigger] out[i]).0 != (
        #[trigger] out[j]).0 by {
            if j < entries.len() {
                assert(out[i] == entries[i]);
                assert(out[j] == entries[j]);
            } else {
                assert(out[i] == entries[i]);
                assert(out[j].0 == key);
            }
        }
    }
}

/// Insertion order is kept: with three distinct keys set in turn and the
/// first set once more, the order is still first, second, third, and the
/// first key holds the value given last.
pub proof fn lemma_reinsert_keeps_position<T>(
    a: Seq<char>,
    b: Seq<char>,
    c: Seq<char>,
    v1: T,
    v2: T,
    v3: T,
    v4: T,
)
    requires
        a != b,
        a != c,
        b != c,
    ensures
        inserted(
            inserted(inserted(inserted(Seq::<(Seq<char>, T)>::empty(), a, v1), b, v2), c, v3),
            a,
            v4,
        ) == seq![(a, v4), (b, v2), (c, v3)],
{
    let s0 = Seq::<(Seq<char>, T)>::empty();
    let s1 = inserted(s0, a, v1);
    assert(!has_key(s0, a));
    assert(s1 == seq![(a, v1)]);
    assert(!has_key(s1, b)) by {
        assert(s1[0].0 == a);
    }
    let s2 = inserted(s1, b, v2);
    assert(s2 == seq![(a, v1), (b, v2)]);
    assert(!has_key(s2, c)) by {
        assert(s2[0].0 == a);
        assert(s2[1].0 == b);
    }
    let s3 = inserted(s2, c, v3);
    assert(s3 == seq![(a, v1), (b, v2), (c, v3)]);
    assert(has_key(s3, a)) by {
        assert(s3[0].0 == a);
    }
    lemma_position(s3, a);
    assert(position(s3, a) == 0) by {
        assert(s3[1].0 == b);
        assert(s3[2].0 == c);
    }
    assert(inserted(s3, a, v4) == seq![(a, v4), (b, v2), (c, v3)]);
}

/// A map from string keys to values that remembers the order in which its
/// keys were first inserted.
#[derive(Debug, PartialEq, Eq)]
pub struct Document<T> {
    entries: Vec<(String, T)>,
}

/// The stored pairs with each key taken by its characters.
spec fn entries_of<T>(stored: Seq<(String, T)>) -> Entries<T> {
    Seq::new(stored.len(), |i: int| (stored[i].0@, stored[i].1))
}

impl<T> View for Document<T> {
    type V = Seq<(Seq<char>, T)>;

    closed spec fn view(&self) -> Seq<(Seq<char>, T)> {
        entries_of(self.entries@)
    }
}

impl<T: Clone> Clone for Document<T> {
    /// A document with the same keys in the same order, each value cloned.
    fn clone(&self) -> (copy: Self)
        ensures
            copy@.len() == self@.len(),
            forall|i: int|
                0 <= i < self@.len() ==> (#[trigger] copy@[i]).0 == self@[i].0 && cloned::<T>(
                    self@[i].1,
                    copy@[i].1,
                ),
    {
        proof {
            use_type_invariant(self);
        }
        let mut entries: Vec<(String, T)> = Vec::new();
        let mut i: usize = 0;
        while i < self.entries.len()
            invariant
                i <= self.entries@.len(),
                entries@.len() == i,
                forall|j: int|
                    0 <= j < i ==> (#[trigger] entries@[j]).0@ == self.entries@[j].0@ && cloned::<
                        T,
                    >(self.entries@[j].1, entries@[j].1),
            decreases self.entries@.len() - i,
        {
            let key = self.entries[i].0.clone();
            let value = self.entries[i].1.clone();
            entries.push((key, value));
            i += 1;
        }
        proof {
            let out = entries_of(entries@);
            assert forall|a: int, b: int| 0 <= a < b < out.len() implies (#[trigger] out[a]).0 != (
            #[trigger] out[b]).0 by {
                assert(out[a].0 == self@[a].0);
                assert(out[b].0 == self@[b].0);
            }
        }
        Document { entries }
    }
}

impl<T> Document<T> {
    #[verifier::type_invariant]
    spec fn keys_are_unique(&self) -> bool {
        unique_keys(self@)
    }

    /// An empty document.
    pub fn new() -> (doc: Self)
        ensures
            doc@ == Seq::<(Seq<char>, T)>::empty(),
    {
        let doc = Document { entries: Vec::new() };
        assert(doc@ =~= Seq::<(Seq<char>, T)>::empty());
        doc
    }

    /// The number of entries. Every document holds each key once.
    pub fn len(&self) -> (n: usize)
        ensures
            n == self@.len(),
            unique_keys(self@),
    {
        proof {
            use_type_invariant(self);
        }
        self.entries.len()
    }

    /// Whether the document has no entry.
    pub fn is_empty(&self) -> (b: bool)
        ensures
            b == (self@.len() == 0),
    {
        self.entries.len() == 0
    }

    /// The key of the entry at position `index`.
    pub fn key_at(&self, index: usize) -> (key: &String)
        requires
            index < self@.len(),
        ensures
            key@ == self@[index as int].0,
    {
        &self.entries[index].0
    }

    /// The value of the entry at position `index`.
    pub fn value_at(&self, index: usize) -> (value: &T)
        requires
            index < self@.len(),
        ensures
            *value == self@[index as int].1,
    {
        &self.entries[index].1
    }

    /// The position of `key` among the entries, if it is present.
    fn position_of(&self, key: &String) -> (found: Option<usize>)
        ensures
            found is Some <==> has_key(self@, key@),
            found is Some ==> found->0 == position(self@, key@) && found->0 < self@.len(),
    {
        let mut i: usize = 0;
        while i < self.entries.len()
            invariant
                i <= self.entries@.len(),
                forall|j: int| 0 <= j < i ==> (#[trigger] self@[j]).0 != key@,
            decreases self.entries@.len() - i,
        {
            if self.entries[i].0 == *key {
                proof {
                    assert(self@[i as int].0 == key@);
                    lemma_position(self@, key@);
                    let p = position(self@, key@);
                    if p < i {
                        assert(self@[p].0 != key@);
                    }
                }
                return Some(i);
            }
            i += 1;
        }
        None
    }

    /// The position of `key` among the entries, if it is present.
    pub fn find(&self, key: &str) -> (found: Option<usize>)
        ensures
            found is Some <==> has_key(self@, key@),
            found is Some ==> found->0 == position(self@, key@) && found->0 < self@.len(),
    {
        let wanted = key.to_owned();
        self.position_of(&wanted)
    }

    /// Whether `key` is present.
    pub fn contains_key(&self, key: &str) -> (b: bool)
        ensures
            b == has_key(self@, key@),
    {
        self.find(key).is_some()
    }

    /// The value stored under `key`, if there is one.
    pub fn get(&self, key: &str) -> (value: Option<&T>)
        ensures
            match value {
                Some(v) => lookup(self@, key@) == Some(*v),
                None => lookup(self@, key@) is None,
            },
    {
        match self.find(key) {
            Some(i) => Some(&self.entries[i].1),
            None => None,
        }
    }

    /// Sets `key` to `value` and returns the value that `key` had before.
    /// A key that is already present keeps its position; a new key goes to
    /// the end.
    pub fn insert(&mut self, key: String, value: T) -> (previous: Option<T>)
        ensures
            final(self)@ == inserted(old(self)@, key@, value),
            previous == lookup(old(self)@, key@),
            unique_keys(final(self)@),
    {
        proof {
            use_type_invariant(&*self);
            lemma_inserted_unique(self@, key@, value);
        }
        let found = self.position_of(&key);
        let ghost before = self@;
        proof {
            if found is Some {
                lemma_position(before, key@);
            }
        }
        let mut entries = Vec::new();
        std::mem::swap(&mut entries, &mut self.entries);
        let previous = match found {
            Some(i) => {
                entries.push((key, value));
                let (_, old_value) = entries.swap_remove(i);
                Some(old_value)
            },
            None => {
                entries.push((key, value));
                None
            },
        };
        assert(entries_of(entries@) =~= inserted(before, key@, value));
        self.entries = entries;
        previous
    }

    /// Every value of a document is smaller than the document, so that a
    /// definition by recursion may descend into the values.
    pub proof fn lemma_value_decreases(self, index: int)
        requires
            0 <= index < self@.len(),
        ensures
            decreases_to!(self => self@[index].1),
    {
        assert(decreases_to!(self => self.entries));
        assert(decreases_to!(self.entries => self.entries@[index]));
        assert(decreases_to!(self.entries@[index] => self.entries@[index].1));
    }
}

impl<T> Default for Document<T> {
    /// An empty document.
    fn default() -> (doc: Self)
        ensures
            doc@ == Seq::<(Seq<char>, T)>::empty(),
    {
        Document::new()
    }
}

} // verus!
