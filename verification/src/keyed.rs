//! A small string-keyed map kept as a list of entries, used for the per-card
//! git status and per-repository generation bookkeeping.

use vstd::prelude::*;
use crate::text::str_eq;

verus! {

/// Index of the first entry whose key is `k`, or the length when none is.
pub open spec fn key_index<V>(s: Seq<(String, V)>, k: Seq<char>) -> nat
    decreases s.len(),
{
    if s.len() > 0 && s[0].0@ != k {
        1 + key_index(s.drop_first(), k)
    } else {
        0
    }
}

/// The map that a list of entries stands for: each key maps to the value of
/// its first entry.
pub open spec fn entries_map<V>(s: Seq<(String, V)>) -> Map<Seq<char>, V> {
    Map::new(|k: Seq<char>| key_index(s, k) < s.len(), |k: Seq<char>| s[key_index(s, k) as int].1)
}

pub proof fn lemma_key_index<V>(s: Seq<(String, V)>, k: Seq<char>)
    ensures
        key_index(s, k) <= s.len(),
        forall|i: int| 0 <= i < key_index(s, k) ==> #[trigger] s[i].0@ != k,
        key_index(s, k) < s.len() ==> s[key_index(s, k) as int].0@ == k,
    decreases s.len(),
{
    if s.len() > 0 && s[0].0@ != k {
        lemma_key_index(s.drop_first(), k);
        assert forall|i: int| 0 <= i < key_index(s, k) implies #[trigger] s[i].0@ != k by {
            if i > 0 {
                assert(s[i] == s.drop_first()[i - 1]);
            }
        }
    }
}

/// The first index property pins the index down.
pub proof fn lemma_key_index_is<V>(s: Seq<(String, V)>, k: Seq<char>, j: int)
    requires
        0 <= j <= s.len(),
        forall|i: int| 0 <= i < j ==> #[trigger] s[i].0@ != k,
        j < s.len() ==> s[j].0@ == k,
    ensures
        key_index(s, k) == j,
{
    lemma_key_index(s, k);
    if key_index(s, k) < j {
        assert(s[key_index(s, k) as int].0@ != k);
    }
    if j < key_index(s, k) {
        assert(s[j].0@ != k);
    }
}

/// Entries with the same keys in the same places have the same key indices.
proof fn lemma_same_keys<V>(s: Seq<(String, V)>, t: Seq<(String, V)>, k: Seq<char>)
    requires
        s.len() == t.len(),
        forall|i: int| 0 <= i < s.len() ==> #[trigger] s[i].0@ == t[i].0@,
    ensures
        key_index(s, k) == key_index(t, k),
{
    lemma_key_index(s, k);
    let j = key_index(s, k) as int;
    assert forall|i: int| 0 <= i < j implies #[trigger] t[i].0@ != k by {
        assert(s[i].0@ != k);
    }
    lemma_key_index_is(t, k, j);
}

/// No key occurs in two entries of `s`.
pub open spec fn distinct_keys<V>(s: Seq<(String, V)>) -> bool {
    forall|i: int, j: int| 0 <= i < j < s.len() ==> #[trigger] s[i].0@ != #[trigger] s[j].0@
}

/// With distinct keys, the map of a list of entries holds exactly their
/// keys, each with its entry's value.
pub proof fn lemma_entries_map_distinct<V>(s: Seq<(String, V)>)
    requires
        distinct_keys(s),
    ensures
        forall|i: int|
            0 <= i < s.len() ==> #[trigger] entries_map(s).dom().contains(s[i].0@) && entries_map(
                s,
            )[s[i].0@] == s[i].1,
        forall|k: Seq<char>|
            #[trigger] entries_map(s).dom().contains(k) ==> exists|i: int|
                0 <= i < s.len() && #[trigger] s[i].0@ == k,
{
    assert forall|i: int| 0 <= i < s.len() implies #[trigger] entries_map(s).dom().contains(s[i].0@)
        && entries_map(s)[s[i].0@] == s[i].1 by {
        assert forall|m: int| 0 <= m < i implies #[trigger] s[m].0@ != s[i].0@ by {}
        lemma_key_index_is(s, s[i].0@, i);
    }
    assert forall|k: Seq<char>| #[trigger] entries_map(s).dom().contains(k) implies exists|i: int|
        0 <= i < s.len() && #[trigger] s[i].0@ == k by {
        lemma_key_index(s, k);
        let i = key_index(s, k) as int;
        assert(s[i].0@ == k);
    }
}

#[derive(Debug)]
pub struct KeyedMap<V> {
    entries: Vec<(String, V)>,
}

impl<V> View for KeyedMap<V> {
    type V = Map<Seq<char>, V>;

    closed spec fn view(&self) -> Map<Seq<char>, V> {
        entries_map(self.entries@)
    }
}

impl<V> KeyedMap<V> {
    /// No key occurs in two entries.
    #[verifier::type_invariant]
    spec fn unique_keys(self) -> bool {
        forall|i: int, j: int|
            0 <= i < j < self.entries@.len() ==> #[trigger] self.entries@[i].0@
                != #[trigger] self.entries@[j].0@
    }

    pub fn new() -> (r: Self)
        ensures
            r@ == Map::<Seq<char>, V>::empty(),
    {
        let r = KeyedMap { entries: Vec::new() };
        assert(r@ =~= Map::<Seq<char>, V>::empty());
        r
    }

    /// The entries, each key's first entry giving its value.
    pub fn entries(&self) -> (r: &Vec<(String, V)>)
        ensures
            entries_map(r@) == self@,
            distinct_keys(r@),
    {
        proof {
            use_type_invariant(self);
        }
        &self.entries
    }

    fn find(&self, key: &str) -> (r: usize)
        ensures
            r == key_index(self.entries@, key@),
    {
        let mut i: usize = 0;
        while i < self.entries.len() && !str_eq(self.entries[i].0.as_str(), key)
            invariant
                i <= self.entries@.len(),
                forall|j: int| 0 <= j < i ==> #[trigger] self.entries@[j].0@ != key@,
            decreases self.entries@.len() - i,
        {
            i = i + 1;
        }
        proof {
            lemma_key_index_is(self.entries@, key@, i as int);
        }
        i
    }

    /// The value stored under `key`.
    pub fn get(&self, key: &str) -> (r: Option<&V>)
        ensures
            (match r {
                Some(v) => self@.dom().contains(key@) && *v == self@[key@],
                None => !self@.dom().contains(key@),
            }),
    {
        let i = self.find(key);
        if i < self.entries.len() {
            Some(&self.entries[i].1)
        } else {
            None
        }
    }

    /// Stores `value` under `key`, replacing what was there.
    pub fn insert(&mut self, key: String, value: V)
        ensures
            final(self)@ == old(self)@.insert(key@, value),
    {
        proof {
            use_type_invariant(&*self);
        }
        let i = self.find(key.as_str());
        let ghost old_entries = self.entries@;
        let ghost k = key@;
        proof {
            lemma_key_index(old_entries, k);
        }
        let mut entries: Vec<(String, V)> = Vec::new();
        std::mem::swap(&mut entries, &mut self.entries);
        if i < entries.len() {
            let old_key = entries.remove(i);
            entries.insert(i, (old_key.0, value));
            let ghost new_entries = entries@;
            assert(new_entries =~= old_entries.update(i as int, (old_entries[i as int].0, value)));
            let ghost target = entries_map(old_entries).insert(k, value);
            assert forall|q: Seq<char>| #[trigger]
                entries_map(new_entries).dom().contains(q) == target.dom().contains(q) by {
                lemma_same_keys(new_entries, old_entries, q);
            }
            assert forall|q: Seq<char>| #[trigger]
                entries_map(new_entries).dom().contains(q) implies entries_map(new_entries)[q]
                == target[q] by {
                lemma_same_keys(new_entries, old_entries, q);
                lemma_key_index(old_entries, q);
            }
            assert(entries_map(new_entries) =~= target);
            assert forall|a: int, b: int| 0 <= a < b < new_entries.len() implies #[trigger]
                new_entries[a].0@ != #[trigger] new_entries[b].0@ by {
                assert(new_entries[a].0@ == old_entries[a].0@);
                assert(new_entries[b].0@ == old_entries[b].0@);
            }
        } else {
            entries.push((key, value));
            let ghost new_entries = entries@;
            assert forall|m: int| 0 <= m < old_entries.len() implies #[trigger] new_entries[m].0@
                != k by {
                assert(new_entries[m] == old_entries[m]);
            }
            proof {
                lemma_key_index_is(new_entries, k, old_entries.len() as int);
            }
            assert forall|q: Seq<char>| q != k implies (#[trigger] entries_map(
                new_entries,
            ).dom().contains(q) == entries_map(old_entries).dom().contains(q)) && (entries_map(
                old_entries,
            ).dom().contains(q) ==> entries_map(new_entries)[q] == entries_map(old_entries)[q]) by {
                lemma_key_index(old_entries, q);
                let j = key_index(old_entries, q) as int;
                if j < old_entries.len() {
                    assert forall|m: int| 0 <= m < j implies #[trigger] new_entries[m].0@ != q by {
                        assert(new_entries[m] == old_entries[m]);
                    }
                    assert(new_entries[j] == old_entries[j]);
                    lemma_key_index_is(new_entries, q, j);
                } else {
                    assert forall|m: int| 0 <= m < new_entries.len() implies #[trigger] new_entries[m].0@
                        != q by {
                        if m < old_entries.len() {
                            assert(new_entries[m] == old_entries[m]);
                        }
                    }
                    lemma_key_index_is(new_entries, q, new_entries.len() as int);
                }
            }
            let ghost target = entries_map(old_entries).insert(k, value);
            assert(entries_map(new_entries) =~= target);
            assert forall|a: int, b: int| 0 <= a < b < new_entries.len() implies #[trigger]
                new_entries[a].0@ != #[trigger] new_entries[b].0@ by {
                assert(new_entries[a] == old_entries[a]);
                if b < old_entries.len() {
                    assert(new_entries[b] == old_entries[b]);
                }
            }
        }
        self.entries = entries;
    }

    /// Drops the entry of `key`; returns whether there was one.
    pub fn remove(&mut self, key: &str) -> (was: bool)
        ensures
            was == old(self)@.dom().contains(key@),
            final(self)@ == old(self)@.remove(key@),
    {
        proof {
            use_type_invariant(&*self);
        }
        let i = self.find(key);
        let ghost old_entries = self.entries@;
        let ghost k = key@;
        proof {
            lemma_key_index(old_entries, k);
        }
        if i >= self.entries.len() {
            assert(self@ =~= old(self)@.remove(k));
            return false;
        }
        let mut entries: Vec<(String, V)> = Vec::new();
        std::mem::swap(&mut entries, &mut self.entries);
        entries.remove(i);
        let ghost new_entries = entries@;
        assert(new_entries =~= old_entries.remove(i as int));
        assert forall|m: int| 0 <= m < new_entries.len() implies #[trigger] new_entries[m]
            == old_entries[if m < i { m } else { m + 1 }] by {}
        assert forall|m: int| 0 <= m < new_entries.len() implies #[trigger] new_entries[m].0@ != k by {
            if m < i {
                assert(new_entries[m] == old_entries[m]);
            } else {
                assert(new_entries[m] == old_entries[m + 1]);
                assert(old_entries[i as int].0@ != old_entries[m + 1].0@);
            }
        }
        proof {
            lemma_key_index_is(new_entries, k, new_entries.len() as int);
        }
        assert forall|q: Seq<char>| q != k implies (#[trigger] entries_map(
            new_entries,
        ).dom().contains(q) == entries_map(old_entries).dom().contains(q)) && (entries_map(
            old_entries,
        ).dom().contains(q) ==> entries_map(new_entries)[q] == entries_map(old_entries)[q]) by {
            lemma_key_index(old_entries, q);
            let j = key_index(old_entries, q) as int;
            if j < old_entries.len() {
                assert(j != i);
                let nj = if j < i { j } else { j - 1 };
                assert forall|m: int| 0 <= m < nj implies #[trigger] new_entries[m].0@ != q by {
                    if m < i {
                        assert(new_entries[m] == old_entries[m]);
                    } else {
                        assert(new_entries[m] == old_entries[m + 1]);
                    }
                }
                assert(new_entries[nj] == old_entries[j]);
                lemma_key_index_is(new_entries, q, nj);
            } else {
                assert forall|m: int| 0 <= m < new_entries.len() implies #[trigger] new_entries[m].0@
                    != q by {
                    if m < i {
                        assert(new_entries[m] == old_entries[m]);
                    } else {
                        assert(new_entries[m] == old_entries[m + 1]);
                    }
                }
                lemma_key_index_is(new_entries, q, new_entries.len() as int);
            }
        }
        assert(entries_map(new_entries) =~= entries_map(old_entries).remove(k));
        assert forall|a: int, b: int| 0 <= a < b < new_entries.len() implies #[trigger]
            new_entries[a].0@ != #[trigger] new_entries[b].0@ by {
            let oa = if a < i { a } else { a + 1 };
            let ob = if b < i { b } else { b + 1 };
            assert(new_entries[a] == old_entries[oa]);
            assert(new_entries[b] == old_entries[ob]);
        }
        self.entries = entries;
        true
    }
}


impl<V: Clone> Clone for KeyedMap<V> {
    /// A copy with the same keys, each value cloned.
    fn clone(&self) -> (r: Self)
        ensures
            r@.dom() == self@.dom(),
            forall|k: Seq<char>| #[trigger] r@.dom().contains(k) ==> cloned::<V>(self@[k], r@[k]),
    {
        proof {
            use_type_invariant(self);
        }
        let mut entries: Vec<(String, V)> = Vec::new();
        let mut i: usize = 0;
        while i < self.entries.len()
            invariant
                i <= self.entries@.len(),
                entries@.len() == i,
                forall|m: int| 0 <= m < i ==> #[trigger] entries@[m].0 == self.entries@[m].0,
                forall|m: int| 0 <= m < i ==> cloned::<V>(self.entries@[m].1, #[trigger] entries@[m].1),
            decreases self.entries@.len() - i,
        {
            let key = self.entries[i].0.clone();
            let value = self.entries[i].1.clone();
            entries.push((key, value));
            i = i + 1;
        }
        proof {
            assert forall|q: Seq<char>| #[trigger] entries_map(entries@).dom().contains(q)
                == entries_map(self.entries@).dom().contains(q) by {
                lemma_same_keys(entries@, self.entries@, q);
            }
            assert(entries_map(entries@).dom() =~= entries_map(self.entries@).dom());
            assert forall|k: Seq<char>| #[trigger] entries_map(entries@).dom().contains(k) implies cloned::<V>(
                entries_map(self.entries@)[k],
                entries_map(entries@)[k],
            ) by {
                lemma_same_keys(entries@, self.entries@, k);
            }
        }
        KeyedMap { entries }
    }
}

} // verus!
