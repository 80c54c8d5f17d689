//! A small table from string keys to values, kept in insertion order.
//!
//! No key occurs twice, so the table stands for a finite map; the order of
//! its entries is the order in which their keys first arrived.

use vstd::prelude::*;
use crate::text::str_eq;

verus! {

/// Whether some entry of `entries` has the key `key`.
pub open spec fn has_key<T>(entries: Seq<(Seq<char>, T)>, key: Seq<char>) -> bool {
    exists|i: int| 0 <= i < entries.len() && (#[trigger] entries[i]).0 == key
}

/// The index of an entry of `entries` with the key `key`.
pub open spec fn index_of<T>(entries: Seq<(Seq<char>, T)>, key: Seq<char>) -> int {
    choose|i: int| 0 <= i < entries.len() && (#[trigger] entries[i]).0 == key
}

/// Whether no key occurs twice in `entries`.
pub open spec fn distinct_keys<T>(entries: Seq<(Seq<char>, T)>) -> bool {
    forall|i: int, j: int|
        0 <= i < j < entries.len() ==> (#[trigger] entries[i]).0 != (#[trigger] entries[j]).0
}

/// The map that `entries` stand for.
pub open spec fn map_of<T>(entries: Seq<(Seq<char>, T)>) -> Map<Seq<char>, T> {
    Map::new(|key: Seq<char>| has_key(entries, key), |key: Seq<char>| entries[index_of(entries, key)].1)
}

/// With distinct keys, the entry at index `i` is what the map holds under its key.
pub proof fn lemma_map_of_entry<T>(entries: Seq<(Seq<char>, T)>, i: int)
    requires
        distinct_keys(entries),
        0 <= i < entries.len(),
    ensures
        has_key(entries, entries[i].0),
        index_of(entries, entries[i].0) == i,
        map_of(entries).contains_key(entries[i].0),
        map_of(entries)[entries[i].0] == entries[i].1,
{
    let key = entries[i].0;
    let j = index_of(entries, key);
    if j < i {
        assert(entries[j].0 != entries[i].0);
    } else if i < j {
        assert(entries[i].0 != entries[j].0);
    }
}

/// Appending an entry under a new key inserts it into the map.
pub proof fn lemma_map_of_push<T>(entries: Seq<(Seq<char>, T)>, key: Seq<char>, value: T)
    requires
        distinct_keys(entries),
        !has_key(entries, key),
    ensures
        distinct_keys(entries.push((key, value))),
        map_of(entries.push((key, value))) == map_of(entries).insert(key, value),
{
    let after = entries.push((key, value));
    assert forall|i: int, j: int| 0 <= i < j < after.len() implies
        (#[trigger] after[i]).0 != (#[trigger] after[j]).0 by {
        if j < entries.len() {
            assert(entries[i].0 != entries[j].0);
        } else {
            assert(entries[i].0 != key);
        }
    }
    assert forall|k: Seq<char>| #[trigger]
        map_of(after).contains_key(k) == map_of(entries).insert(key, value).contains_key(k) by {
        if has_key(entries, k) {
            let i = index_of(entries, k);
            assert(after[i].0 == k);
        }
        if has_key(after, k) {
            let i = index_of(after, k);
            if i < entries.len() {
                assert(entries[i].0 == k);
            }
        }
        assert(after[entries.len() as int].0 == key);
    }
    assert forall|k: Seq<char>| #[trigger] map_of(after).contains_key(k) implies map_of(after)[k]
        == map_of(entries).insert(key, value)[k] by {
        let i = index_of(after, k);
        lemma_map_of_entry(after, i);
        if i < entries.len() {
            lemma_map_of_entry(entries, i);
        }
    }
}

/// Replacing the value of the entry at index `i` replaces it in the map.
pub proof fn lemma_map_of_update<T>(entries: Seq<(Seq<char>, T)>, i: int, value: T)
    requires
        distinct_keys(entries),
        0 <= i < entries.len(),
    ensures
        distinct_keys(entries.update(i, (entries[i].0, value))),
        map_of(entries.update(i, (entries[i].0, value))) == map_of(entries).insert(
            entries[i].0,
            value,
        ),
{
    let key = entries[i].0;
    let after = entries.update(i, (key, value));
    assert forall|a: int, b: int| 0 <= a < b < after.len() implies
        (#[trigger] after[a]).0 != (#[trigger] after[b]).0 by {
        assert(entries[a].0 != entries[b].0);
    }
    assert forall|k: Seq<char>| #[trigger]
        map_of(after).contains_key(k) == map_of(entries).insert(key, value).contains_key(k) by {
        if has_key(entries, k) {
            let j = index_of(entries, k);
            assert(after[j].0 == k);
        }
        if has_key(after, k) {
            let j = index_of(after, k);
            assert(entries[j].0 == k);
        }
    }
    assert forall|k: Seq<char>| #[trigger] map_of(after).contains_key(k) implies map_of(after)[k]
        == map_of(entries).insert(key, value)[k] by {
        let j = index_of(after, k);
        lemma_map_of_entry(after, j);
        if j != i {
            lemma_map_of_entry(entries, j);
            lemma_map_of_entry(entries, i);
        }
    }
}

/// Removing the entry at index `i` removes its key from the map.
pub proof fn lemma_map_of_remove<T>(entries: Seq<(Seq<char>, T)>, i: int)
    requires
        distinct_keys(entries),
        0 <= i < entries.len(),
    ensures
        distinct_keys(entries.remove(i)),
        map_of(entries.remove(i)) == map_of(entries).remove(entries[i].0),
{
    let key = entries[i].0;
    let after = entries.remove(i);
    assert forall|a: int, b: int| 0 <= a < b < after.len() implies
        (#[trigger] after[a]).0 != (#[trigger] after[b]).0 by {
        let a0 = if a < i { a } else { a + 1 };
        let b0 = if b < i { b } else { b + 1 };
        assert(entries[a0].0 != entries[b0].0);
    }
    assert forall|k: Seq<char>| #[trigger]
        map_of(after).contains_key(k) == map_of(entries).remove(key).contains_key(k) by {
        if has_key(entries, k) && k != key {
            let j = index_of(entries, k);
            let j1 = if j < i { j } else { j - 1 };
            assert(after[j1].0 == k);
        }
        if has_key(after, k) {
            let j = index_of(after, k);
            let j0 = if j < i { j } else { j + 1 };
            if k == key {
                lemma_map_of_entry(entries, i);
                lemma_map_of_entry(entries, j0);
            }
        }
    }
    assert forall|k: Seq<char>| #[trigger] map_of(after).contains_key(k) implies map_of(after)[k]
        == map_of(entries).remove(key)[k] by {
        let j = index_of(after, k);
        lemma_map_of_entry(after, j);
        let j0 = if j < i { j } else { j + 1 };
        lemma_map_of_entry(entries, j0);
    }
}

/// With distinct keys, the map has as many keys as there are entries.
pub proof fn lemma_map_of_len<T>(entries: Seq<(Seq<char>, T)>)
    requires
        distinct_keys(entries),
    ensures
        map_of(entries).dom().finite(),
        map_of(entries).dom().len() == entries.len(),
    decreases entries.len(),
{
    if entries.len() == 0 {
        assert(map_of(entries).dom() =~= Set::<Seq<char>>::empty());
    } else {
        let rest = entries.drop_last();
        let last = entries.last();
        assert forall|i: int, j: int| 0 <= i < j < rest.len() implies
            (#[trigger] rest[i]).0 != (#[trigger] rest[j]).0 by {
            assert(entries[i].0 != entries[j].0);
        }
        if has_key(rest, last.0) {
            let i = index_of(rest, last.0);
            assert(entries[i].0 != entries[entries.len() - 1].0);
        }
        lemma_map_of_len(rest);
        lemma_map_of_push(rest, last.0, last.1);
        assert(rest.push((last.0, last.1)) =~= entries);
    }
}

/// A table from string keys to values of type `T`.
#[derive(Debug)]
pub struct Table<T> {
    slots: Vec<(String, T)>,
}

impl<T> View for Table<T> {
    type V = Map<Seq<char>, T>;

    /// The map that the table stands for.
    open spec fn view(&self) -> Map<Seq<char>, T> {
        map_of(self.entries())
    }
}

impl<T> Table<T> {
    /// The entries of the table, in insertion order.
    pub closed spec fn entries(&self) -> Seq<(Seq<char>, T)> {
        self.slots@.map_values(|slot: (String, T)| (slot.0@, slot.1))
    }

    /// The table's invariant: no key occurs twice.
    pub open spec fn wf(&self) -> bool {
        distinct_keys(self.entries())
    }

    /// Creates an empty table.
    pub fn new() -> (table: Self)
        ensures
            table.wf(),
            table.entries() == Seq::<(Seq<char>, T)>::empty(),
            table@ == Map::<Seq<char>, T>::empty(),
    {
        let table = Table { slots: Vec::new() };
        proof {
            assert(table.entries() =~= Seq::<(Seq<char>, T)>::empty());
        }
        table
    }

    /// The number of entries.
    pub fn len(&self) -> (n: usize)
        ensures
            n == self.entries().len(),
            self.wf() ==> self@.dom().finite() && n == self@.dom().len(),
    {
        proof {
            if self.wf() {
                lemma_map_of_len(self.entries());
            }
        }
        self.slots.len()
    }

    /// The key of the entry at index `i`.
    pub fn key_at(&self, i: usize) -> (key: &str)
        requires
            i < self.entries().len(),
        ensures
            key@ == self.entries()[i as int].0,
    {
        self.slots[i].0.as_str()
    }

    /// The value of the entry at index `i`.
    pub fn value_at(&self, i: usize) -> (value: &T)
        requires
            i < self.entries().len(),
        ensures
            *value == self.entries()[i as int].1,
    {
        &self.slots[i].1
    }

    /// The index of the entry with the key `key`, if there is one.
    pub fn position(&self, key: &str) -> (found: Option<usize>)
        ensures
            match found {
                Some(i) => i < self.entries().len() && self.entries()[i as int].0 == key@,
                None => !has_key(self.entries(), key@),
            },
    {
        let mut i: usize = 0;
        while i < self.slots.len()
            invariant
                i <= self.slots.len(),
                forall|j: int| 0 <= j < i ==> (#[trigger] self.entries()[j]).0 != key@,
            decreases self.slots.len() - i,
        {
            if str_eq(self.slots[i].0.as_str(), key) {
                return Some(i);
            }
            i += 1;
        }
        None
    }

    /// Whether the table has an entry for `key`.
    pub fn contains(&self, key: &str) -> (present: bool)
        ensures
            present == self@.contains_key(key@),
    {
        self.position(key).is_some()
    }

    /// The value stored under `key`, if there is one.
    pub fn get(&self, key: &str) -> (value: Option<&T>)
        requires
            self.wf(),
        ensures
            match value {
                Some(v) => self@.contains_key(key@) && *v == self@[key@],
                None => !self@.contains_key(key@),
            },
    {
        match self.position(key) {
            Some(i) => {
                proof {
                    lemma_map_of_entry(self.entries(), i as int);
                }
                Some(&self.slots[i].1)
            },
            None => None,
        }
    }

    /// Stores `value` under `key`. A value already stored under `key` is
    /// replaced and keeps its place; a new key goes to the end.
    pub fn insert(&mut self, key: String, value: T)
        requires
            old(self).wf(),
        ensures
            final(self).wf(),
            final(self)@ == old(self)@.insert(key@, value),
            final(self).entries() == if has_key(old(self).entries(), key@) {
                old(self).entries().update(index_of(old(self).entries(), key@), (key@, value))
            } else {
                old(self).entries().push((key@, value))
            },
    {
        let ghost before = self.entries();
        match self.position(key.as_str()) {
            Some(i) => {
                proof {
                    lemma_map_of_entry(before, i as int);
                    lemma_map_of_update(before, i as int, value);
                }
                self.slots.set(i, (key, value));
                proof {
                    assert(self.entries() =~= before.update(i as int, (key@, value)));
                }
            },
            None => {
                proof {
                    lemma_map_of_push(before, key@, value);
                }
                self.slots.push((key, value));
                proof {
                    assert(self.entries() =~= before.push((key@, value)));
                }
            },
        }
    }

    /// Removes the entry for `key` and returns its value, if there is one.
    pub fn remove(&mut self, key: &str) -> (removed: Option<T>)
        requires
            old(self).wf(),
        ensures
            final(self).wf(),
            final(self)@ == old(self)@.remove(key@),
            removed == if old(self)@.contains_key(key@) {
                Some(old(self)@[key@])
            } else {
                None
            },
            final(self).entries() == if has_key(old(self).entries(), key@) {
                old(self).entries().remove(index_of(old(self).entries(), key@))
            } else {
                old(self).entries()
            },
    {
        let ghost before = self.entries();
        match self.position(key) {
            Some(i) => {
                proof {
                    lemma_map_of_entry(before, i as int);
                    lemma_map_of_remove(before, i as int);
                }
                let slot = self.slots.remove(i);
                proof {
                    assert(self.entries() =~= before.remove(i as int));
                }
                Some(slot.1)
            },
            None => {
                proof {
                    assert(self@ =~= old(self)@.remove(key@));
                }
                None
            },
        }
    }

    /// Removes every entry.
    pub fn clear(&mut self)
        ensures
            final(self).wf(),
            final(self).entries() == Seq::<(Seq<char>, T)>::empty(),
            final(self)@ == Map::<Seq<char>, T>::empty(),
    {
        self.slots.clear();
        proof {
            assert(self.entries() =~= Seq::<(Seq<char>, T)>::empty());
        }
    }
}

} // verus!
