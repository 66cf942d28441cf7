//! A small map from names to values that keeps insertion order.

use vstd::prelude::*;
use crate::text::str_eq;

verus! {

/// Entries keyed by name, each name at most once, in insertion order.
///
/// Offers the lookups of a map (`get`, `contains_key`, `len`) on a plain vector.
#[derive(Debug, Clone)]
pub struct NamedMap<V> {
    entries: Vec<(String, V)>,
}

/// The position of the entry named `key` in `s`, if any.
pub open spec fn key_index<V>(s: Seq<(String, V)>, key: Seq<char>) -> int
    decreases s.len(),
{
    if s.len() == 0 {
        -1
    } else if s.last().0@ == key {
        s.len() - 1
    } else {
        key_index(s.drop_last(), key)
    }
}

/// No two entries of `s` share a name.
pub open spec fn distinct_keys<V>(s: Seq<(String, V)>) -> bool {
    forall|i: int, j: int| 0 <= i < j < s.len() ==> s[i].0@ != s[j].0@
}

/// `key_index` finds exactly the entry with that name, or none.
pub proof fn lemma_key_index<V>(s: Seq<(String, V)>, key: Seq<char>)
    ensures
        -1 <= key_index(s, key) < s.len(),
        key_index(s, key) >= 0 ==> s[key_index(s, key)].0@ == key,
        key_index(s, key) == -1 <==> forall|i: int| 0 <= i < s.len() ==> s[i].0@ != key,
    decreases s.len(),
{
    if s.len() > 0 {
        lemma_key_index(s.drop_last(), key);
        assert(forall|i: int| 0 <= i < s.len() - 1 ==> s.drop_last()[i] == s[i]);
    }
}

/// With distinct names, an entry named `key` sits at `key_index`.
pub proof fn lemma_key_index_unique<V>(s: Seq<(String, V)>, key: Seq<char>, i: int)
    requires
        distinct_keys(s),
        0 <= i < s.len(),
        s[i].0@ == key,
    ensures
        key_index(s, key) == i,
{
    lemma_key_index(s, key);
}

/// Two tables with the same names at the same places find every name at
/// the same place.
pub proof fn lemma_key_index_same_keys<V, W>(s: Seq<(String, V)>, t: Seq<(String, W)>, key: Seq<char>)
    requires
        s.len() == t.len(),
        forall|j: int| 0 <= j < s.len() ==> s[j].0@ == t[j].0@,
    ensures
        key_index(s, key) == key_index(t, key),
    decreases s.len(),
{
    if s.len() > 0 {
        assert(s.last().0@ == t.last().0@);
        assert forall|j: int| 0 <= j < s.drop_last().len() implies s.drop_last()[j].0@ == t.drop_last()[j].0@ by {
            assert(s.drop_last()[j] == s[j]);
            assert(t.drop_last()[j] == t[j]);
        }
        lemma_key_index_same_keys(s.drop_last(), t.drop_last(), key);
    }
}

/// Position of the entry named `key` (the last one, if several), if any.
pub fn find_key<V>(entries: &Vec<(String, V)>, key: &str) -> (r: Option<usize>)
    ensures
        match r {
            Some(i) => i == key_index(entries@, key@) && i < entries@.len(),
            None => key_index(entries@, key@) == -1,
        },
{
    proof {
        lemma_key_index(entries@, key@);
    }
    let mut i = entries.len();
    while i > 0
        invariant
            i <= entries@.len(),
            key_index(entries@, key@) < i,
        decreases i,
    {
        proof {
            lemma_key_index_prefix(entries@, key@, i as int);
            assert(entries@.take(i as int).drop_last() =~= entries@.take(i - 1));
            assert(entries@.take(i as int).last() == entries@[i - 1]);
            lemma_key_index(entries@.take(i - 1), key@);
        }
        if str_eq(entries[i - 1].0.as_str(), key) {
            return Some(i - 1);
        }
        i = i - 1;
    }
    None
}

impl<V> NamedMap<V> {
    /// The entries in order.
    pub closed spec fn entries(&self) -> Seq<(String, V)> {
        self.entries@
    }

    /// Names are distinct.
    pub open spec fn wf(&self) -> bool {
        distinct_keys(self.entries())
    }

    /// The value stored under `key`, if any.
    pub open spec fn spec_get(&self, key: Seq<char>) -> Option<V> {
        let i = key_index(self.entries(), key);
        if i >= 0 {
            Some(self.entries()[i].1)
        } else {
            None
        }
    }

    /// An empty map.
    pub fn new() -> (m: Self)
        ensures
            m.wf(),
            m.entries() == Seq::<(String, V)>::empty(),
    {
        NamedMap { entries: Vec::new() }
    }

    /// Builds a map from entries whose names are distinct.
    pub fn from_entries(entries: Vec<(String, V)>) -> (m: Self)
        requires
            distinct_keys(entries@),
        ensures
            m.wf(),
            m.entries() == entries@,
    {
        NamedMap { entries }
    }

    /// Number of entries.
    pub fn len(&self) -> (n: usize)
        ensures
            n == self.entries().len(),
    {
        self.entries.len()
    }

    /// Whether there are no entries.
    pub fn is_empty(&self) -> (b: bool)
        ensures
            b == (self.entries().len() == 0),
    {
        self.entries.len() == 0
    }

    fn find(&self, key: &str) -> (r: Option<usize>)
        ensures
            match r {
                Some(i) => i == key_index(self.entries(), key@) && i < self.entries().len(),
                None => key_index(self.entries(), key@) == -1,
            },
    {
        find_key(&self.entries, key)
    }

    /// The value stored under `key`, if any.
    pub fn get(&self, key: &str) -> (r: Option<&V>)
        ensures
            match r {
                Some(v) => self.spec_get(key@) == Some(*v),
                None => self.spec_get(key@) is None,
            },
    {
        match self.find(key) {
            Some(i) => Some(&self.entries[i].1),
            None => None,
        }
    }

    /// Whether a value is stored under `key`.
    pub fn contains_key(&self, key: &str) -> (b: bool)
        ensures
            b == self.spec_get(key@) is Some,
    {
        self.find(key).is_some()
    }

    /// Stores `value` under `key`: replaces the value of an existing entry in place,
    /// or appends a new entry. Returns the value that was replaced.
    pub fn insert(&mut self, key: String, value: V) -> (old_v: Option<V>)
        requires
            old(self).wf(),
        ensures
            final(self).wf(),
            old_v == old(self).spec_get(key@),
            ({
                let i = key_index(old(self).entries(), key@);
                if i >= 0 {
                    final(self).entries() == old(self).entries().update(i, (old(self).entries()[i].0, value))
                } else {
                    final(self).entries() == old(self).entries().push((key, value))
                }
            }),
    {
        proof {
            lemma_key_index(self.entries@, key@);
        }
        match self.find(key.as_str()) {
            Some(i) => {
                let name = self.entries[i].0.clone();
                let ghost before = self.entries@;
                let (_, old_v) = self.entries.remove(i);
                self.entries.insert(i, (name, value));
                proof {
                    assert(self.entries@ =~= before.update(i as int, (before[i as int].0, value)));
                }
                Some(old_v)
            },
            None => {
                self.entries.push((key, value));
                None
            },
        }
    }

    /// The names, in order.
    pub fn keys(&self) -> (ks: Vec<String>)
        ensures
            ks@.len() == self.entries().len(),
            forall|i: int| 0 <= i < ks@.len() ==> ks@[i] == #[trigger] self.entries()[i].0,
    {
        let mut ks: Vec<String> = Vec::new();
        let mut i: usize = 0;
        while i < self.entries.len()
            invariant
                i <= self.entries@.len(),
                ks@.len() == i,
                forall|j: int| 0 <= j < i ==> ks@[j] == #[trigger] self.entries@[j].0,
            decreases self.entries@.len() - i,
        {
            ks.push(self.entries[i].0.clone());
            i = i + 1;
        }
        ks
    }

    /// The entries, in order (moves them out).
    pub fn into_entries(self) -> (es: Vec<(String, V)>)
        ensures
            es@ == self.entries(),
    {
        self.entries
    }
}

/// The index found in a prefix of length `i` is the index found in the whole
/// sequence when the whole sequence finds something below `i`, and otherwise
/// the prefix finds nothing at or above the whole sequence's answer.
proof fn lemma_key_index_prefix<V>(s: Seq<(String, V)>, key: Seq<char>, i: int)
    requires
        0 <= i <= s.len(),
        key_index(s, key) < i,
    ensures
        key_index(s.take(i), key) == key_index(s, key),
    decreases s.len(),
{
    if i < s.len() {
        assert(s.drop_last().take(i) =~= s.take(i));
        lemma_key_index(s, key);
        if s.last().0@ == key {
            assert(false);
        }
        lemma_key_index_prefix(s.drop_last(), key, i);
    } else {
        assert(s.take(i) =~= s);
    }
}

} // verus!
