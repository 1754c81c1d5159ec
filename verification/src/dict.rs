//! A small map from text to text that remembers the order in which its keys
//! came.

use vstd::prelude::*;
use crate::text::same_text;

verus! {

/// The entries of a map: (key, value) pairs in the order the keys came.
pub type Entries = Seq<(Seq<char>, Seq<char>)>;

/// The index of the first entry with the given key, or the number of
/// entries where no entry has it.
pub open spec fn key_index(entries: Entries, key: Seq<char>) -> nat
    decreases entries.len(),
{
    if entries.len() > 0 && entries[0].0 != key {
        1 + key_index(entries.drop_first(), key)
    } else {
        0
    }
}

/// The value stored under a key, if there is one.
pub open spec fn lookup(entries: Entries, key: Seq<char>) -> Option<Seq<char>> {
    if key_index(entries, key) < entries.len() {
        Some(entries[key_index(entries, key) as int].1)
    } else {
        None
    }
}

/// The entries after `value` was stored under `key`: an entry that had the
/// key keeps its place and takes the value, a new key comes last.
pub open spec fn inserted(entries: Entries, key: Seq<char>, value: Seq<char>) -> Entries {
    if key_index(entries, key) < entries.len() {
        entries.update(key_index(entries, key) as int, (key, value))
    } else {
        entries.push((key, value))
    }
}

/// Whether no key occurs in two entries.
pub open spec fn keys_once(entries: Entries) -> bool {
    forall|i: int, j: int|
        0 <= i < j < entries.len() ==> (#[trigger] entries[i]).0 != (#[trigger] entries[j]).0
}

/// `key_index` is the least index whose entry has the key.
pub proof fn lemma_key_index(entries: Entries, key: Seq<char>, k: int)
    requires
        0 <= k <= entries.len(),
        forall|i: int| 0 <= i < k ==> entries[i].0 != key,
        k < entries.len() ==> entries[k].0 == key,
    ensures
        key_index(entries, key) == k,
    decreases entries.len(),
{
    if k > 0 {
        let rest = entries.drop_first();
        assert forall|i: int| 0 <= i < k - 1 implies rest[i].0 != key by {
            assert(rest[i] == entries[i + 1]);
        }
        lemma_key_index(rest, key, k - 1);
    }
}

/// What was stored under a key is found under it, and the other keys keep
/// what they had.
pub proof fn lemma_inserted_lookup(entries: Entries, key: Seq<char>, value: Seq<char>, other: Seq<char>)
    ensures
        lookup(inserted(entries, key, value), key) == Some(value),
        other != key ==> lookup(inserted(entries, key, value), other) == lookup(entries, other),
{
    let k = key_index(entries, key) as int;
    lemma_key_index_bounds(entries, key);
    let after = inserted(entries, key, value);
    assert forall|i: int| 0 <= i < k implies after[i].0 != key by {}
    lemma_key_index(after, key, k);
    if other != key {
        let j = key_index(entries, other) as int;
        lemma_key_index_bounds(entries, other);
        assert forall|i: int| 0 <= i < j && i < after.len() implies after[i].0 != other by {}
        if j < entries.len() {
            lemma_key_index(after, other, j);
        } else {
            lemma_key_index(after, other, after.len() as int);
        }
    }
}

/// No entry before `key_index` has the key, and the entry at it has.
pub proof fn lemma_key_index_bounds(entries: Entries, key: Seq<char>)
    ensures
        key_index(entries, key) <= entries.len(),
        forall|i: int| 0 <= i < key_index(entries, key) ==> entries[i].0 != key,
        key_index(entries, key) < entries.len() ==> entries[key_index(entries, key) as int].0
            == key,
    decreases entries.len(),
{
    if entries.len() > 0 && entries[0].0 != key {
        let rest = entries.drop_first();
        lemma_key_index_bounds(rest, key);
        let k = key_index(entries, key) as int;
        assert forall|i: int| 0 <= i < k implies entries[i].0 != key by {
            if i > 0 {
                assert(entries[i] == rest[i - 1]);
            }
        }
        if k < entries.len() {
            assert(entries[k] == rest[k - 1]);
        }
    }
}

/// Storing under a key leaves every key in one entry.
pub proof fn lemma_inserted_keeps_keys_once(entries: Entries, key: Seq<char>, value: Seq<char>)
    requires
        keys_once(entries),
    ensures
        keys_once(inserted(entries, key, value)),
{
    lemma_key_index_bounds(entries, key);
    let after = inserted(entries, key, value);
    assert forall|i: int, j: int| 0 <= i < j < after.len() implies (#[trigger] after[i]).0 != (
    #[trigger] after[j]).0 by {
        if j < entries.len() {
            assert(entries[i].0 != entries[j].0);
        }
    }
}

/// Where every key occurs once, the value found under a key is that of the
/// one entry that has the key.
pub proof fn lemma_lookup_finds_the_entry(entries: Entries, i: int)
    requires
        keys_once(entries),
        0 <= i < entries.len(),
    ensures
        lookup(entries, entries[i].0) == Some(entries[i].1),
{
    let key = entries[i].0;
    lemma_key_index_bounds(entries, key);
    let k = key_index(entries, key) as int;
    if k < i {
        assert(entries[k].0 != entries[i].0);
    }
}

/// A map from text to text, in which every key occurs once. Storing under
/// a key that is there replaces the value and keeps the key's place.
#[derive(Debug, PartialEq, Eq)]
pub struct TextMap {
    entries: Vec<(String, String)>,
}

impl DeepView for TextMap {
    type V = Entries;

    closed spec fn deep_view(&self) -> Entries {
        self.entries.deep_view()
    }
}

impl TextMap {
    #[verifier::type_invariant]
    spec fn keys_occur_once(self) -> bool {
        keys_once(self.entries.deep_view())
    }

    /// A map without entries.
    pub fn new() -> (map: TextMap)
        ensures
            map.deep_view() == Seq::<(Seq<char>, Seq<char>)>::empty(),
    {
        let map = TextMap { entries: Vec::new() };
        assert(map.deep_view() =~= Seq::<(Seq<char>, Seq<char>)>::empty());
        map
    }

    /// The number of entries.
    pub fn len(&self) -> (n: usize)
        ensures
            n == self.deep_view().len(),
            keys_once(self.deep_view()),
    {
        proof {
            use_type_invariant(self);
        }
        self.entries.len()
    }

    /// The key and the value of the entry at a place.
    pub fn entry(&self, at: usize) -> (entry: (&String, &String))
        requires
            at < self.deep_view().len(),
        ensures
            (entry.0@, entry.1@) == self.deep_view()[at as int],
    {
        (&self.entries[at].0, &self.entries[at].1)
    }

    /// The entries, in the order their keys came.
    pub fn into_entries(self) -> (entries: Vec<(String, String)>)
        ensures
            entries.deep_view() == self.deep_view(),
            keys_once(entries.deep_view()),
    {
        proof {
            use_type_invariant(&self);
        }
        self.entries
    }

    /// The index of the first entry with the given key, or the number of
    /// entries.
    fn index_of(&self, key: &str) -> (at: usize)
        ensures
            at == key_index(self.deep_view(), key@),
            at <= self.entries@.len(),
    {
        let mut i: usize = 0;
        while i < self.entries.len() && !same_text(self.entries[i].0.as_str(), key)
            invariant
                i <= self.entries@.len(),
                forall|j: int| 0 <= j < i ==> self.deep_view()[j].0 != key@,
            decreases self.entries@.len() - i,
        {
            i = i + 1;
        }
        proof {
            lemma_key_index(self.deep_view(), key@, i as int);
        }
        i
    }

    /// The value stored under `key`, if there is one: that of the one entry
    /// that has the key.
    pub fn get(&self, key: &str) -> (value: Option<&String>)
        ensures
            value.deep_view() == lookup(self.deep_view(), key@),
            keys_once(self.deep_view()),
            forall|i: int|
                0 <= i < self.deep_view().len() && (#[trigger] self.deep_view()[i]).0 == key@
                    ==> value.deep_view() == Some(self.deep_view()[i].1),
    {
        proof {
            use_type_invariant(self);
            assert forall|i: int|
                0 <= i < self.deep_view().len() && (#[trigger] self.deep_view()[i]).0
                    == key@ implies lookup(self.deep_view(), key@) == Some(
                self.deep_view()[i].1,
            ) by {
                lemma_lookup_finds_the_entry(self.deep_view(), i);
            }
        }
        let at = self.index_of(key);
        if at < self.entries.len() {
            Some(&self.entries[at].1)
        } else {
            None
        }
    }

    /// Whether a value is stored under `key`.
    pub fn contains_key(&self, key: &str) -> (found: bool)
        ensures
            found == lookup(self.deep_view(), key@).is_some(),
    {
        self.index_of(key) < self.entries.len()
    }

    /// Stores `value` under `key`.
    pub fn insert(&mut self, key: String, value: String)
        ensures
            final(self).deep_view() == inserted(old(self).deep_view(), key@, value@),
            keys_once(final(self).deep_view()),
    {
        proof {
            use_type_invariant(&*self);
            lemma_inserted_keeps_keys_once(self.deep_view(), key@, value@);
        }
        let at = self.index_of(key.as_str());
        let mut entries: Vec<(String, String)> = Vec::new();
        assert(keys_once(entries.deep_view()));
        std::mem::swap(&mut entries, &mut self.entries);
        if at < entries.len() {
            entries.set(at, (key, value));
        } else {
            entries.push((key, value));
        }
        assert(entries.deep_view() =~= inserted(old(self).deep_view(), key@, value@));
        self.entries = entries;
    }
}

} // verus!
