//! A small map: entries in a vector, with no key twice.

use vstd::prelude::*;

use crate::time::Duration;

verus! {

/// A key, told apart from another by its view.
pub trait TableKey: View + Sized {
    fn same(&self, other: &Self) -> (same: bool)
        ensures
            same == (self@ == other@),
    ;
}

/// A value that is to be dropped at a point in time.
pub trait Expiring: View + Sized {
    spec fn expiry(value: Self::V) -> int;

    fn expires(&self) -> (expires: Duration)
        ensures
            expires@ == Self::expiry(self@),
    ;
}

pub struct Table<K: TableKey, T: View> {
    pub entries: Vec<(K, T)>,
}

/// Whether an entry at some position has the key.
pub open spec fn has_key<K: TableKey, T: View>(entries: Seq<(K, T)>, key: K::V) -> bool {
    exists|i: int| 0 <= i < entries.len() && #[trigger] entries[i].0@ == key
}

/// The value beside a key.
pub open spec fn value_of<K: TableKey, T: View>(entries: Seq<(K, T)>, key: K::V) -> T::V {
    entries[choose|i: int| 0 <= i < entries.len() && #[trigger] entries[i].0@ == key].1@
}

pub open spec fn entries_map<K: TableKey, T: View>(entries: Seq<(K, T)>) -> Map<K::V, T::V> {
    Map::new(|key: K::V| has_key(entries, key), |key: K::V| value_of(entries, key))
}

pub open spec fn keys_distinct<K: TableKey, T: View>(entries: Seq<(K, T)>) -> bool {
    forall|i: int, j: int|
        0 <= i < j < entries.len() ==> #[trigger] entries[i].0@ != #[trigger] entries[j].0@
}

impl<K: TableKey, T: View> View for Table<K, T> {
    type V = Map<K::V, T::V>;

    open spec fn view(&self) -> Map<K::V, T::V> {
        entries_map(self.entries@)
    }
}

pub proof fn lemma_entry<K: TableKey, T: View>(entries: Seq<(K, T)>, i: int)
    requires
        keys_distinct(entries),
        0 <= i < entries.len(),
    ensures
        entries_map(entries).contains_key(entries[i].0@),
        entries_map(entries)[entries[i].0@] == entries[i].1@,
{
    let key = entries[i].0@;
    assert(has_key(entries, key));
    let found = choose|j: int| 0 <= j < entries.len() && #[trigger] entries[j].0@ == key;
    assert(0 <= found < entries.len() && entries[found].0@ == key);
    if found < i {
        assert(entries[found].0@ != entries[i].0@);
    } else if i < found {
        assert(entries[i].0@ != entries[found].0@);
    }
}

/// A table has as many keys as entries.
pub proof fn lemma_len<K: TableKey, T: View>(entries: Seq<(K, T)>)
    requires
        keys_distinct(entries),
    ensures
        entries_map(entries).dom().finite(),
        entries_map(entries).dom().len() == entries.len(),
{
    let keys = entries.map_values(|entry: (K, T)| entry.0@);
    assert(keys.no_duplicates()) by {
        assert forall|i: int, j: int|
            0 <= i < keys.len() && 0 <= j < keys.len() && i != j implies keys[i] != keys[j] by {
            assert(keys[i] == entries[i].0@ && keys[j] == entries[j].0@);
            if i < j {
                assert(entries[i].0@ != entries[j].0@);
            } else {
                assert(entries[j].0@ != entries[i].0@);
            }
        }
    }
    keys.unique_seq_to_set();
    assert(entries_map(entries).dom() =~= keys.to_set()) by {
        assert forall|key: K::V|
            entries_map(entries).dom().contains(key) == keys.to_set().contains(key) by {
            if has_key(entries, key) {
                let i = choose|i: int| 0 <= i < entries.len() && #[trigger] entries[i].0@ == key;
                assert(keys[i] == key);
            }
            if keys.contains(key) {
                let i = choose|i: int| 0 <= i < keys.len() && keys[i] == key;
                assert(entries[i].0@ == key);
            }
        }
    }
    vstd::seq_lib::seq_to_set_is_finite(keys);
}

/// Every entry's value stands at its key.
pub proof fn lemma_entries<K: TableKey, T: View>(entries: Seq<(K, T)>)
    requires
        keys_distinct(entries),
    ensures
        forall|i: int|
            0 <= i < entries.len() ==> entries_map(entries).contains_key(
                (#[trigger] entries[i]).0@,
            ) && entries_map(entries)[entries[i].0@] == entries[i].1@,
{
    assert forall|i: int| 0 <= i < entries.len() implies entries_map(entries).contains_key(
        (#[trigger] entries[i]).0@,
    ) && entries_map(entries)[entries[i].0@] == entries[i].1@ by {
        lemma_entry(entries, i);
    }
}

/// A map that holds every entry, and no key that is not an entry's, is the entries' map.
pub proof fn lemma_content<K: TableKey, T: View>(entries: Seq<(K, T)>, map: Map<K::V, T::V>)
    requires
        keys_distinct(entries),
        forall|key: K::V| #[trigger] map.contains_key(key) ==> has_key(entries, key),
        forall|i: int|
            0 <= i < entries.len() ==> map.contains_key((#[trigger] entries[i]).0@)
                && map[entries[i].0@] == entries[i].1@,
    ensures
        entries_map(entries) == map,
{
    lemma_entries(entries);
    assert forall|key: K::V| entries_map(entries).contains_key(key) implies #[trigger] map.contains_key(key) && entries_map(entries)[key] == map[key] by {
        let i = choose|i: int| 0 <= i < entries.len() && #[trigger] entries[i].0@ == key;
        assert(entries[i].0@ == key);
    }
    assert(entries_map(entries) =~= map);
}

/// Taking one entry out and putting the last one in its place removes that entry's key alone.
proof fn lemma_swap_remove<K: TableKey, T: View>(
    before: Seq<(K, T)>,
    after: Seq<(K, T)>,
    i: int,
)
    requires
        keys_distinct(before),
        0 <= i < before.len(),
        after == before.update(i, before.last()).drop_last(),
    ensures
        keys_distinct(after),
        entries_map(after) == entries_map(before).remove(before[i].0@),
{
    let last = before.len() - 1;
    let key = before[i].0@;
    assert forall|a: int, b: int| 0 <= a < b < after.len() implies #[trigger] after[a].0@
        != #[trigger] after[b].0@ by {
        let at = if a == i {
            last
        } else {
            a
        };
        let bt = if b == i {
            last
        } else {
            b
        };
        assert(after[a] == before[at] && after[b] == before[bt]);
    }
    lemma_entries(before);
    let map = entries_map(before).remove(key);
    assert forall|k: K::V| #[trigger] map.contains_key(k) implies has_key(after, k) by {
        let j = choose|j: int| 0 <= j < before.len() && #[trigger] before[j].0@ == k;
        assert(before[j].0@ == k);
        assert(j != i);
        if j == last {
            assert(after[i] == before[last]);
            assert(after[i].0@ == k);
        } else {
            assert(after[j] == before[j]);
            assert(after[j].0@ == k);
        }
    }
    assert forall|a: int| 0 <= a < after.len() implies map.contains_key((#[trigger] after[a]).0@)
        && map[after[a].0@] == after[a].1@ by {
        let at = if a == i {
            last
        } else {
            a
        };
        assert(after[a] == before[at]);
        assert(at != i);
        assert(before[at].0@ != before[i].0@);
    }
    lemma_content(after, map);
}

impl<K: TableKey, T: View> Table<K, T> {
    /// No key stands twice.
    pub open spec fn wf(self) -> bool {
        keys_distinct(self.entries@)
    }

    pub fn new() -> (table: Table<K, T>)
        ensures
            table.wf(),
            table@ == Map::<K::V, T::V>::empty(),
    {
        let table = Table { entries: Vec::new() };
        assert(table@ =~= Map::<K::V, T::V>::empty()) by {
            assert forall|key: K::V| !has_key(table.entries@, key) by {}
        }
        table
    }

    /// The number of keys.
    pub fn len(&self) -> (count: usize)
        requires
            self.wf(),
        ensures
            count == self@.dom().len(),
            count == self.entries@.len(),
            self@.dom().finite(),
    {
        proof {
            lemma_len(self.entries@);
        }
        self.entries.len()
    }

    fn find(&self, key: &K) -> (found: Option<usize>)
        requires
            self.wf(),
        ensures
            match found {
                Some(i) => i < self.entries@.len() && self.entries@[i as int].0@ == key@
                    && self@.contains_key(key@) && self@[key@] == self.entries@[i as int].1@,
                None => !self@.contains_key(key@) && !has_key(self.entries@, key@),
            },
    {
        let mut i: usize = 0;
        while i < self.entries.len()
            invariant
                self.wf(),
                i <= self.entries@.len(),
                forall|j: int| 0 <= j < i ==> #[trigger] self.entries@[j].0@ != key@,
            decreases self.entries@.len() - i,
        {
            if self.entries[i].0.same(key) {
                proof {
                    lemma_entry(self.entries@, i as int);
                }
                return Some(i);
            }
            i += 1;
        }
        None
    }

    pub fn contains(&self, key: &K) -> (present: bool)
        requires
            self.wf(),
        ensures
            present == self@.contains_key(key@),
    {
        self.find(key).is_some()
    }

    pub fn get(&self, key: &K) -> (value: Option<&T>)
        requires
            self.wf(),
        ensures
            match value {
                Some(found) => self@.contains_key(key@) && found@ == self@[key@],
                None => !self@.contains_key(key@),
            },
    {
        match self.find(key) {
            Some(i) => Some(&self.entries[i].1),
            None => None,
        }
    }

    /// Takes a key out, and gives back the value that was beside it.
    pub fn remove(&mut self, key: &K) -> (value: Option<T>)
        requires
            old(self).wf(),
        ensures
            final(self).wf(),
            final(self)@ == old(self)@.remove(key@),
            match value {
                Some(found) => old(self)@.contains_key(key@) && found@ == old(self)@[key@],
                None => !old(self)@.contains_key(key@),
            },
    {
        let ghost before = self.entries@;
        match self.find(key) {
            Some(i) => {
                let (_, value) = self.entries.swap_remove(i);
                proof {
                    lemma_swap_remove(before, self.entries@, i as int);
                }
                Some(value)
            },
            None => {
                assert(self@ =~= old(self)@.remove(key@));
                None
            },
        }
    }

    /// Puts a value at a key, in place of any that was there.
    pub fn insert(&mut self, key: K, value: T)
        requires
            old(self).wf(),
        ensures
            final(self).wf(),
            final(self)@ == old(self)@.insert(key@, value@),
    {
        let ghost original = self@;
        let ghost at = key@;
        let ghost content = value@;
        self.remove(&key);
        let ghost before = self.entries@;
        let ghost map = self@.insert(key@, value@);
        self.entries.push((key, value));
        proof {
            let after = self.entries@;
            assert(!has_key(before, at)) by {
                if has_key(before, at) {
                    assert(entries_map(before).contains_key(at));
                }
            }
            assert forall|a: int, b: int| 0 <= a < b < after.len() implies #[trigger] after[a].0@
                != #[trigger] after[b].0@ by {
                assert(after[a] == before[a]);
                assert(before[a].0@ != at);
                if b < before.len() {
                    assert(after[b] == before[b]);
                    assert(before[a].0@ != before[b].0@);
                }
            }
            lemma_entries(before);
            assert forall|k: K::V| #[trigger] map.contains_key(k) implies has_key(after, k) by {
                if k == at {
                    assert(after[before.len() as int].0@ == k);
                } else {
                    let j = choose|j: int| 0 <= j < before.len() && #[trigger] before[j].0@ == k;
                    assert(after[j] == before[j]);
                    assert(after[j].0@ == k);
                }
            }
            assert forall|a: int| 0 <= a < after.len() implies map.contains_key(
                (#[trigger] after[a]).0@,
            ) && map[after[a].0@] == after[a].1@ by {
                if a < before.len() {
                    assert(after[a] == before[a]);
                    assert(before[a].0@ != at);
                }
            }
            lemma_content(after, map);
            assert(map =~= original.insert(at, content));
        }
    }
}

/// What is left of a map at a point in time: the values that expire later.
pub open spec fn live<K, T: Expiring>(map: Map<K, T::V>, now: int) -> Map<K, T::V> {
    Map::new(|key: K| map.contains_key(key) && T::expiry(map[key]) > now, |key: K| map[key])
}

impl<K: TableKey, T: Expiring> Table<K, T> {
    /// Drops every value that has expired.
    pub fn expire(&mut self, now: Duration)
        requires
            old(self).wf(),
        ensures
            final(self).wf(),
            final(self)@ == live::<K::V, T>(old(self)@, now@),
    {
        let ghost before = self.entries@;
        let ghost original = self@;
        let mut i: usize = 0;
        proof {
            lemma_entries(before);
        }
        while i < self.entries.len()
            invariant
                i <= self.entries@.len(),
                self.wf(),
                forall|k: K::V| #[trigger] self@.contains_key(k) ==> original.contains_key(k)
                    && self@[k] == original[k],
                forall|k: K::V|
                    #[trigger]
                    original.contains_key(k) && T::expiry(original[k]) > now@
                        ==> self@.contains_key(k),
                forall|j: int|
                    0 <= j < i ==> T::expiry((#[trigger] self.entries@[j]).1@) > now@,
            decreases self.entries@.len() - i,
        {
            if self.entries[i].1.expires().exceeds(&now) {
                i += 1;
            } else {
                let ghost entries = self.entries@;
                let ghost prior = self@;
                proof {
                    lemma_entries(entries);
                }
                self.entries.swap_remove(i);
                proof {
                    lemma_swap_remove(entries, self.entries@, i as int);
                    assert forall|k: K::V| #[trigger]
                        self@.contains_key(k) implies original.contains_key(k) && self@[k]
                        == original[k] by {
                        assert(prior.contains_key(k));
                    }
                }
            }
        }
        proof {
            lemma_entries(self.entries@);
            assert forall|k: K::V| #[trigger] self@.contains_key(k) implies T::expiry(self@[k])
                > now@ by {
                let j = choose|j: int|
                    0 <= j < self.entries@.len() && #[trigger] self.entries@[j].0@ == k;
                assert(self.entries@[j].0@ == k);
            }
            assert(self@ =~= live::<K::V, T>(original, now@));
        }
    }
}

} // verus!
