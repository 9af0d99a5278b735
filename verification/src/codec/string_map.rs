//! A map from strings to strings that remembers the order of insertion.
//!
//! The wire format writes a map entry by entry, so the order in which the
//! entries stand decides the bytes. This map keeps its entries in the order
//! in which their keys first came, and no key stands twice.

use vstd::prelude::*;

use super::raw::str_eq;

verus! {

/// The entries of a map as mathematics: pairs of key and value.
pub type Entries = Seq<(Seq<char>, Seq<char>)>;

/// The index of the first entry at or behind `from` whose key is `key`, or
/// the length of `s` where there is none.
pub open spec fn find_from(s: Entries, key: Seq<char>, from: int) -> int
    decreases s.len() - from,
{
    if from < 0 || from >= s.len() {
        s.len() as int
    } else if s[from].0 == key {
        from
    } else {
        find_from(s, key, from + 1)
    }
}

/// Whether some entry has the key.
pub open spec fn has_key(s: Entries, key: Seq<char>) -> bool {
    find_from(s, key, 0) < s.len()
}

/// The value that stands under the key.
pub open spec fn lookup(s: Entries, key: Seq<char>) -> Option<Seq<char>> {
    if has_key(s, key) {
        Some(s[find_from(s, key, 0)].1)
    } else {
        None
    }
}

/// The entries after `key` was set to `value`: the value is replaced where
/// the key stands, else the pair is added at the end.
pub open spec fn put(s: Entries, key: Seq<char>, value: Seq<char>) -> Entries {
    if has_key(s, key) {
        s.update(find_from(s, key, 0), (key, value))
    } else {
        s.push((key, value))
    }
}

/// The entries without the one under `key`.
pub open spec fn without(s: Entries, key: Seq<char>) -> Entries {
    if has_key(s, key) {
        s.remove(find_from(s, key, 0))
    } else {
        s
    }
}

/// No key stands twice.
pub open spec fn distinct_keys(s: Entries) -> bool {
    forall|i: int, j: int| 0 <= i < j < s.len() ==> #[trigger] s[i].0 != #[trigger] s[j].0
}

/// What `find_from` finds: the first match from `from` on.
pub proof fn lemma_find_from(s: Entries, key: Seq<char>, from: int)
    requires
        0 <= from <= s.len(),
    ensures
        from <= find_from(s, key, from) <= s.len(),
        find_from(s, key, from) < s.len() ==> s[find_from(s, key, from)].0 == key,
        forall|j: int| from <= j < find_from(s, key, from) ==> (#[trigger] s[j]).0 != key,
    decreases s.len() - from,
{
    if from < s.len() && s[from].0 != key {
        lemma_find_from(s, key, from + 1);
    }
}

/// Setting a key keeps the keys distinct, and the key then reads as the
/// value set.
pub proof fn lemma_put(s: Entries, key: Seq<char>, value: Seq<char>)
    requires
        distinct_keys(s),
    ensures
        distinct_keys(put(s, key, value)),
        lookup(put(s, key, value), key) == Some(value),
        has_key(s, key) ==> put(s, key, value).len() == s.len(),
        !has_key(s, key) ==> put(s, key, value).len() == s.len() + 1,
{
    lemma_find_from(s, key, 0);
    let t = put(s, key, value);
    lemma_find_from(t, key, 0);
    let i = find_from(s, key, 0);
    if has_key(s, key) {
        assert(t[i].0 == key);
    } else {
        assert(t[s.len() as int].0 == key);
    }
    assert(distinct_keys(t)) by {
        assert forall|a: int, b: int| 0 <= a < b < t.len() implies #[trigger] t[a].0
            != #[trigger] t[b].0 by {
            if has_key(s, key) {
                if a == i {
                    assert(s[i].0 != s[b].0);
                } else if b == i {
                    assert(s[a].0 != s[i].0);
                } else {
                    assert(s[a].0 != s[b].0);
                }
            } else {
                if b == s.len() {
                    assert(s[a].0 != key);
                } else {
                    assert(s[a].0 != s[b].0);
                }
            }
        }
    }
}

/// Removing a key keeps the keys distinct, and the key is then absent.
pub proof fn lemma_without(s: Entries, key: Seq<char>)
    requires
        distinct_keys(s),
    ensures
        distinct_keys(without(s, key)),
        !has_key(without(s, key), key),
{
    lemma_find_from(s, key, 0);
    let t = without(s, key);
    let i = find_from(s, key, 0);
    lemma_find_from(t, key, 0);
    if has_key(s, key) {
        assert forall|a: int, b: int| 0 <= a < b < t.len() implies #[trigger] t[a].0
            != #[trigger] t[b].0 by {
            let sa = if a < i { a } else { a + 1 };
            let sb = if b < i { b } else { b + 1 };
            assert(s[sa].0 != s[sb].0);
        }
        if has_key(t, key) {
            let j = find_from(t, key, 0);
            let sj = if j < i { j } else { j + 1 };
            assert(t[j] == s[sj]);
            if sj < i {
                assert(s[sj].0 != s[i].0);
            } else {
                assert(s[i].0 != s[sj].0);
            }
        }
    }
}

/// The pairs that a vector of strings holds.
pub open spec fn pairs_of(v: Seq<(String, String)>) -> Entries {
    Seq::new(v.len(), |i: int| (v[i].0@, v[i].1@))
}

/// A map from strings to strings in insertion order.
#[derive(Debug)]
pub struct StringMap {
    entries: Vec<(String, String)>,
}

impl View for StringMap {
    type V = Entries;

    /// The entries in the order in which their keys first came.
    closed spec fn view(&self) -> Entries {
        pairs_of(self.entries@)
    }
}

impl StringMap {
    #[verifier::type_invariant]
    spec fn keys_are_distinct(self) -> bool {
        distinct_keys(self@)
    }

    /// Shows that no key of this map stands twice; it computes nothing.
    pub fn keys_distinct(&self)
        ensures
            distinct_keys(self@),
    {
        proof {
            use_type_invariant(self);
        }
    }

    /// An empty map.
    pub fn new() -> (m: StringMap)
        ensures
            m@ == Seq::<(Seq<char>, Seq<char>)>::empty(),
    {
        let m = StringMap { entries: Vec::new() };
        assert(m@ =~= Seq::<(Seq<char>, Seq<char>)>::empty());
        m
    }

    /// The number of entries.
    pub fn len(&self) -> (n: usize)
        ensures
            n == self@.len(),
    {
        self.entries.len()
    }

    /// Whether the map has no entry.
    pub fn is_empty(&self) -> (r: bool)
        ensures
            r == (self@.len() == 0),
    {
        self.entries.len() == 0
    }

    /// Takes the entries out and leaves the map empty.
    fn take_entries(&mut self) -> (v: Vec<(String, String)>)
        ensures
            v == old(self).entries,
            final(self).entries@.len() == 0,
    {
        let mut emptied = StringMap { entries: Vec::new() };
        std::mem::swap(self, &mut emptied);
        emptied.entries
    }

    /// The index of the entry under `key`.
    fn position(&self, key: &str) -> (r: Option<usize>)
        ensures
            match r {
                Some(i) => has_key(self@, key@) && i == find_from(self@, key@, 0),
                None => !has_key(self@, key@),
            },
    {
        let mut i: usize = 0;
        while i < self.entries.len()
            invariant
                0 <= i <= self.entries@.len(),
                find_from(self@, key@, 0) == find_from(self@, key@, i as int),
            decreases self.entries@.len() - i,
        {
            if str_eq(self.entries[i].0.as_str(), key) {
                return Some(i);
            }
            i = i + 1;
        }
        None
    }

    /// The value under `key`.
    pub fn get(&self, key: &str) -> (r: Option<&String>)
        ensures
            match lookup(self@, key@) {
                Some(v) => r is Some && r->0@ == v,
                None => r is None,
            },
    {
        match self.position(key) {
            Some(i) => Some(&self.entries[i].1),
            None => None,
        }
    }

    /// Whether `key` has a value.
    pub fn contains_key(&self, key: &str) -> (r: bool)
        ensures
            r == has_key(self@, key@),
    {
        self.position(key).is_some()
    }

    /// Sets `key` to `value` and returns the value that stood there.
    pub fn insert(&mut self, key: String, value: String) -> (r: Option<String>)
        ensures
            final(self)@ == put(old(self)@, key@, value@),
            match lookup(old(self)@, key@) {
                Some(v) => r is Some && r->0@ == v,
                None => r is None,
            },
    {
        proof {
            use_type_invariant(&*self);
            lemma_put(self@, key@, value@);
        }
        match self.position(key.as_str()) {
            Some(i) => {
                let prev = self.entries[i].1.clone();
                let mut entries = self.take_entries();
                entries.set(i, (key, value));
                assert(pairs_of(entries@) =~= put(old(self)@, key@, value@));
                self.entries = entries;
                assert(self@ =~= put(old(self)@, key@, value@));
                Some(prev)
            },
            None => {
                let mut entries = self.take_entries();
                entries.push((key, value));
                assert(pairs_of(entries@) =~= put(old(self)@, key@, value@));
                self.entries = entries;
                assert(self@ =~= put(old(self)@, key@, value@));
                None
            },
        }
    }

    /// Removes `key` and returns the value that stood there.
    pub fn remove(&mut self, key: &str) -> (r: Option<String>)
        ensures
            final(self)@ == without(old(self)@, key@),
            match lookup(old(self)@, key@) {
                Some(v) => r is Some && r->0@ == v,
                None => r is None,
            },
    {
        proof {
            use_type_invariant(&*self);
            lemma_without(self@, key@);
        }
        match self.position(key) {
            Some(i) => {
                let mut entries = self.take_entries();
                let removed = entries.remove(i);
                assert(pairs_of(entries@) =~= without(old(self)@, key@));
                self.entries = entries;
                assert(self@ =~= without(old(self)@, key@));
                Some(removed.1)
            },
            None => None,
        }
    }

    /// The key of the entry at `i`.
    pub fn key_at(&self, i: usize) -> (k: &str)
        requires
            i < self@.len(),
        ensures
            k@ == self@[i as int].0,
    {
        self.entries[i].0.as_str()
    }

    /// The value of the entry at `i`.
    pub fn value_at(&self, i: usize) -> (v: &str)
        requires
            i < self@.len(),
        ensures
            v@ == self@[i as int].1,
    {
        self.entries[i].1.as_str()
    }
}

impl Clone for StringMap {
    /// A map with the same entries in the same order.
    fn clone(&self) -> (r: Self)
        ensures
            r@ == self@,
    {
        proof {
            use_type_invariant(self);
        }
        let mut entries: Vec<(String, String)> = Vec::new();
        let mut i: usize = 0;
        while i < self.entries.len()
            invariant
                0 <= i <= self.entries@.len(),
                entries@.len() == i,
                forall|j: int|
                    0 <= j < i ==> (#[trigger] entries@[j]).0@ == self.entries@[j].0@
                        && entries@[j].1@ == self.entries@[j].1@,
            decreases self.entries@.len() - i,
        {
            entries.push((self.entries[i].0.clone(), self.entries[i].1.clone()));
            i = i + 1;
        }
        assert(pairs_of(entries@) =~= self@);
        StringMap { entries }
    }
}

} // verus!
