//! A small map from keys to values, kept as a list of entries.

use vstd::prelude::*;

use crate::types::Address;

verus! {

/// A key of a [`Table`]: two keys are the same where their views are equal.
pub trait Key: View + Sized {
    fn same(&self, other: &Self) -> (same: bool)
        ensures
            same == (self@ == other@),
    ;
}

impl Key for Address {
    fn same(&self, other: &Self) -> (same: bool) {
        *self == *other
    }
}

impl Key for (Address, Address) {
    fn same(&self, other: &Self) -> (same: bool) {
        self.0 == other.0 && self.1 == other.1
    }
}

impl Key for u32 {
    fn same(&self, other: &Self) -> (same: bool) {
        *self == *other
    }
}

impl Key for String {
    fn same(&self, other: &Self) -> (same: bool) {
        *self == *other
    }
}

/// A map from keys to values. Its view is the map; an absent key has no entry.
pub struct Table<K: Key, V> {
    entries: Vec<(K, V)>,
}

/// The map that a list of entries stands for: the first entry of a key counts.
pub closed spec fn entries_map<K: Key, V>(entries: Seq<(K, V)>) -> Map<K::V, V>
    decreases entries.len(),
{
    if entries.len() == 0 {
        Map::empty()
    } else {
        entries_map(entries.drop_first()).insert(entries[0].0@, entries[0].1)
    }
}

proof fn lemma_map_skip<K: Key, V>(entries: Seq<(K, V)>, i: int)
    requires
        0 <= i < entries.len(),
    ensures
        entries_map(entries.skip(i)) == entries_map(entries.skip(i + 1)).insert(
            entries[i].0@,
            entries[i].1,
        ),
{
    assert(entries.skip(i).drop_first() =~= entries.skip(i + 1));
}

proof fn lemma_map_absent<K: Key, V>(entries: Seq<(K, V)>, key: K::V)
    requires
        forall|j: int| 0 <= j < entries.len() ==> (#[trigger] entries[j]).0@ != key,
    ensures
        !entries_map(entries).contains_key(key),
    decreases entries.len(),
{
    if entries.len() > 0 {
        let rest = entries.drop_first();
        assert forall|j: int| 0 <= j < rest.len() implies (#[trigger] rest[j]).0@ != key by {
            assert(rest[j] == entries[j + 1]);
        }
        lemma_map_absent(rest, key);
    }
}

proof fn lemma_map_update<K: Key, V>(entries: Seq<(K, V)>, i: int, entry: (K, V))
    requires
        0 <= i < entries.len(),
        entries[i].0@ == entry.0@,
        forall|j: int| 0 <= j < i ==> (#[trigger] entries[j]).0@ != entry.0@,
    ensures
        entries_map(entries.update(i, entry)) == entries_map(entries).insert(entry.0@, entry.1),
    decreases i,
{
    let rest = entries.drop_first();
    if i == 0 {
        assert(entries.update(i, entry).drop_first() =~= rest);
    } else {
        assert(entries.update(i, entry).drop_first() =~= rest.update(i - 1, entry));
        assert forall|j: int| 0 <= j < i - 1 implies (#[trigger] rest[j]).0@ != entry.0@ by {
            assert(rest[j] == entries[j + 1]);
        }
        lemma_map_update(rest, i - 1, entry);
        assert(entries[0].0@ != entry.0@);
    }
    assert(entries_map(entries.update(i, entry)) =~= entries_map(entries).insert(
        entry.0@,
        entry.1,
    ));
}

proof fn lemma_map_push<K: Key, V>(entries: Seq<(K, V)>, entry: (K, V))
    requires
        forall|j: int| 0 <= j < entries.len() ==> (#[trigger] entries[j]).0@ != entry.0@,
    ensures
        entries_map(entries.push(entry)) == entries_map(entries).insert(entry.0@, entry.1),
    decreases entries.len(),
{
    let rest = entries.drop_first();
    if entries.len() == 0 {
        assert(entries.push(entry).drop_first() =~= entries);
    } else {
        assert(entries.push(entry).drop_first() =~= rest.push(entry));
        assert forall|j: int| 0 <= j < rest.len() implies (#[trigger] rest[j]).0@ != entry.0@ by {
            assert(rest[j] == entries[j + 1]);
        }
        lemma_map_push(rest, entry);
        assert(entries[0].0@ != entry.0@);
    }
    assert(entries_map(entries.push(entry)) =~= entries_map(entries).insert(entry.0@, entry.1));
}

proof fn lemma_map_remove<K: Key, V>(entries: Seq<(K, V)>, i: int, key: K::V)
    requires
        0 <= i < entries.len(),
        entries[i].0@ == key,
    ensures
        entries_map(entries.remove(i)).remove(key) == entries_map(entries).remove(key),
    decreases i,
{
    let rest = entries.drop_first();
    if i == 0 {
        assert(entries.remove(i) =~= rest);
    } else {
        assert(entries.remove(i).drop_first() =~= rest.remove(i - 1));
        lemma_map_remove(rest, i - 1, key);
        let a = entries_map(rest.remove(i - 1));
        let b = entries_map(rest);
        let (k, v) = (entries[0].0@, entries[0].1);
        assert(entries_map(entries.remove(i)) == a.insert(k, v));
        if k == key {
            assert(a.insert(k, v).remove(key) =~= a.remove(key));
            assert(b.insert(k, v).remove(key) =~= b.remove(key));
        } else {
            assert(a.insert(k, v).remove(key) =~= a.remove(key).insert(k, v));
            assert(b.insert(k, v).remove(key) =~= b.remove(key).insert(k, v));
        }
    }
    assert(entries_map(entries.remove(i)).remove(key) =~= entries_map(entries).remove(key));
}

proof fn lemma_map_finite<K: Key, V>(entries: Seq<(K, V)>)
    ensures
        entries_map(entries).dom().finite(),
    decreases entries.len(),
{
    if entries.len() > 0 {
        lemma_map_finite(entries.drop_first());
    }
}

impl<K: Key, V> View for Table<K, V> {
    type V = Map<K::V, V>;

    closed spec fn view(&self) -> Map<K::V, V> {
        entries_map(self.entries@)
    }
}

impl<K: Key, V> Table<K, V> {
    /// A table without entries.
    pub fn new() -> (table: Self)
        ensures
            table@ == Map::<K::V, V>::empty(),
    {
        Table { entries: Vec::new() }
    }

    /// A table holds finitely many keys.
    pub proof fn lemma_finite(&self)
        ensures
            self@.dom().finite(),
    {
        lemma_map_finite(self.entries@);
    }

    /// Returns the value of a key, if it has one.
    pub fn get(&self, key: &K) -> (value: Option<&V>)
        ensures
            value == (if self@.contains_key(key@) {
                Some(&self@[key@])
            } else {
                None
            }),
    {
        let mut i: usize = 0;
        assert(self.entries@.skip(0) =~= self.entries@);
        while i < self.entries.len()
            invariant
                i <= self.entries.len(),
                entries_map(self.entries@.skip(i as int)).contains_key(key@)
                    == self@.contains_key(key@),
                self@.contains_key(key@) ==> entries_map(self.entries@.skip(i as int))[key@]
                    == self@[key@],
            decreases self.entries.len() - i,
        {
            proof {
                lemma_map_skip(self.entries@, i as int);
            }
            if self.entries[i].0.same(key) {
                return Some(&self.entries[i].1);
            }
            i = i + 1;
        }
        assert(self.entries@.skip(i as int).len() == 0);
        None
    }

    /// Stores a value under a key, in place of the value that it had.
    pub fn set(&mut self, key: K, value: V)
        ensures
            final(self)@ == old(self)@.insert(key@, value),
    {
        let mut i: usize = 0;
        while i < self.entries.len()
            invariant
                i <= self.entries.len(),
                self.entries@ == old(self).entries@,
                forall|j: int| 0 <= j < i ==> (#[trigger] self.entries@[j]).0@ != key@,
            decreases self.entries.len() - i,
        {
            if self.entries[i].0.same(&key) {
                proof {
                    lemma_map_update(self.entries@, i as int, (key, value));
                }
                self.entries.set(i, (key, value));
                return;
            }
            i = i + 1;
        }
        proof {
            lemma_map_push(self.entries@, (key, value));
        }
        self.entries.push((key, value));
    }

    /// Removes a key and its value, if it has one.
    pub fn remove(&mut self, key: &K)
        ensures
            final(self)@ == old(self)@.remove(key@),
    {
        let mut i: usize = 0;
        while i < self.entries.len()
            invariant
                i <= self.entries.len(),
                entries_map(self.entries@).remove(key@) == entries_map(old(self).entries@).remove(
                    key@,
                ),
                forall|j: int| 0 <= j < i ==> (#[trigger] self.entries@[j]).0@ != key@,
            decreases self.entries.len() - i,
        {
            if self.entries[i].0.same(key) {
                proof {
                    lemma_map_remove(self.entries@, i as int, key@);
                }
                self.entries.remove(i);
            } else {
                i = i + 1;
            }
        }
        proof {
            lemma_map_absent(self.entries@, key@);
            assert(entries_map(self.entries@).remove(key@) =~= entries_map(self.entries@));
        }
    }
}

impl<K: Key + Copy, V: Copy> Table<K, V> {
    /// Returns a table with the same entries.
    pub fn duplicate(&self) -> (copy: Self)
        ensures
            copy@ == self@,
    {
        let mut entries: Vec<(K, V)> = Vec::new();
        let mut i: usize = 0;
        while i < self.entries.len()
            invariant
                i <= self.entries.len(),
                entries@ == self.entries@.take(i as int),
            decreases self.entries.len() - i,
        {
            entries.push((self.entries[i].0, self.entries[i].1));
            assert(self.entries@.take(i + 1) =~= self.entries@.take(i as int).push(
                self.entries@[i as int],
            ));
            i = i + 1;
        }
        assert(self.entries@.take(i as int) =~= self.entries@);
        Table { entries }
    }
}

} // verus!
