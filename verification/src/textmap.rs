//! A map from texts to values.
//!
//! The entries are kept in a list, in the order in which their keys were
//! first entered; no key occurs twice. The view is the map from each key to
//! its value.

use vstd::prelude::*;
use crate::text::{same_text, texts};

verus! {

/// A map from texts to values of type `V`.
#[derive(Debug)]
pub struct TextMap<V> {
    entries: Vec<(String, V)>,
}

/// The keys of `entries` are pairwise distinct.
spec fn distinct_keys<V>(entries: Seq<(String, V)>) -> bool {
    forall|i: int, j: int|
        #![trigger entries[i], entries[j]]
        0 <= i < j < entries.len() ==> entries[i].0@ != entries[j].0@
}

/// Some entry of `entries` has the key `key`.
spec fn listed<V>(entries: Seq<(String, V)>, key: Seq<char>) -> bool {
    exists|i: int| 0 <= i < entries.len() && (#[trigger] entries[i]).0@ == key
}

/// The index of an entry of `entries` with the key `key`.
spec fn index_of<V>(entries: Seq<(String, V)>, key: Seq<char>) -> int {
    choose|i: int| 0 <= i < entries.len() && (#[trigger] entries[i]).0@ == key
}

/// The values of `entries`, by key.
spec fn as_map<V>(entries: Seq<(String, V)>) -> Map<Seq<char>, V> {
    Map::new(|key: Seq<char>| listed(entries, key), |key: Seq<char>| entries[index_of(entries, key)].1)
}

/// With distinct keys, the entry at index `i` is the one that its key names.
proof fn lemma_entry_at<V>(entries: Seq<(String, V)>, i: int)
    requires
        distinct_keys(entries),
        0 <= i < entries.len(),
    ensures
        listed(entries, entries[i].0@),
        index_of(entries, entries[i].0@) == i,
        as_map(entries).dom().contains(entries[i].0@),
        as_map(entries)[entries[i].0@] == entries[i].1,
{
    let key = entries[i].0@;
    assert(listed(entries, key));
    let k = index_of(entries, key);
    if k < i {
        assert(entries[k].0@ != entries[i].0@);
    }
    if i < k {
        assert(entries[i].0@ != entries[k].0@);
    }
}

/// A key that no entry has is not in the map.
proof fn lemma_not_listed<V>(entries: Seq<(String, V)>, key: Seq<char>)
    requires
        forall|i: int| 0 <= i < entries.len() ==> (#[trigger] entries[i]).0@ != key,
    ensures
        !listed(entries, key),
        !as_map(entries).dom().contains(key),
{
}

/// Appending an entry with a new key adds it to the map.
proof fn lemma_pushed<V>(before: Seq<(String, V)>, entry: (String, V))
    requires
        distinct_keys(before),
        !listed(before, entry.0@),
    ensures
        distinct_keys(before.push(entry)),
        as_map(before.push(entry)) == as_map(before).insert(entry.0@, entry.1),
{
    let after = before.push(entry);
    let key = entry.0@;
    let last = after.len() - 1;
    assert forall|i: int, j: int|
        #![trigger after[i], after[j]]
        0 <= i < j < after.len() implies after[i].0@ != after[j].0@ by {
        assert(after[i] == before[i]);
        if j < last {
            assert(after[j] == before[j]);
        } else {
            assert(listed(before, before[i].0@));
        }
    }
    assert forall|k: Seq<char>| #[trigger]
        as_map(after).dom().contains(k) == (listed(before, k) || k == key) by {
        if listed(after, k) {
            let i = index_of(after, k);
            if i < last {
                assert(after[i] == before[i]);
                assert(listed(before, k));
            }
        }
        if listed(before, k) {
            let i = index_of(before, k);
            assert(after[i] == before[i]);
            assert(listed(after, k));
        }
        if k == key {
            assert(after[last].0@ == k);
            assert(listed(after, k));
        }
    }
    assert forall|k: Seq<char>| as_map(after).dom().contains(k) implies #[trigger] as_map(after)[k]
        == (if k == key {
        entry.1
    } else {
        as_map(before)[k]
    }) by {
        if k == key {
            lemma_entry_at(after, last);
        } else {
            let i = index_of(before, k);
            assert(listed(before, k));
            assert(after[i] == before[i]);
            lemma_entry_at(after, i);
            lemma_entry_at(before, i);
        }
    }
    assert(as_map(after) =~= as_map(before).insert(key, entry.1));
}

/// Taking the entry at index `at` out takes its key out of the map.
proof fn lemma_removed<V>(before: Seq<(String, V)>, at: int)
    requires
        distinct_keys(before),
        0 <= at < before.len(),
    ensures
        distinct_keys(before.remove(at)),
        as_map(before.remove(at)) == as_map(before).remove(before[at].0@),
{
    let after = before.remove(at);
    let key = before[at].0@;
    assert forall|i: int| 0 <= i < after.len() implies #[trigger] after[i] == (if i < at {
        before[i]
    } else {
        before[i + 1]
    }) by {}
    assert forall|i: int, j: int|
        #![trigger after[i], after[j]]
        0 <= i < j < after.len() implies after[i].0@ != after[j].0@ by {
        let bi = if i < at {
            i
        } else {
            i + 1
        };
        let bj = if j < at {
            j
        } else {
            j + 1
        };
        assert(before[bi].0@ != before[bj].0@);
    }
    assert forall|k: Seq<char>| #[trigger]
        as_map(after).dom().contains(k) == (k != key && listed(before, k)) by {
        if listed(after, k) {
            let i = index_of(after, k);
            let bi = if i < at {
                i
            } else {
                i + 1
            };
            assert(before[bi].0@ == k);
            if bi < at {
                assert(before[bi].0@ != before[at].0@);
            } else {
                assert(before[at].0@ != before[bi].0@);
            }
            assert(listed(before, k));
        }
        if k != key && listed(before, k) {
            let bi = index_of(before, k);
            let i = if bi < at {
                bi
            } else {
                bi - 1
            };
            assert(after[i].0@ == k);
            assert(listed(after, k));
        }
    }
    assert forall|k: Seq<char>| as_map(after).dom().contains(k) implies #[trigger] as_map(after)[k]
        == as_map(before)[k] by {
        let i = index_of(after, k);
        let bi = if i < at {
            i
        } else {
            i + 1
        };
        lemma_entry_at(after, i);
        lemma_entry_at(before, bi);
    }
    assert(as_map(after) =~= as_map(before).remove(key));
}

/// Replacing the value of the entry at index `at` replaces it in the map.
proof fn lemma_replaced<V>(before: Seq<(String, V)>, at: int, entry: (String, V))
    requires
        distinct_keys(before),
        0 <= at < before.len(),
        entry.0@ == before[at].0@,
    ensures
        distinct_keys(before.update(at, entry)),
        as_map(before.update(at, entry)) == as_map(before).insert(entry.0@, entry.1),
{
    let after = before.update(at, entry);
    let key = entry.0@;
    assert forall|i: int, j: int|
        #![trigger after[i], after[j]]
        0 <= i < j < after.len() implies after[i].0@ != after[j].0@ by {
        assert(before[i].0@ != before[j].0@);
    }
    assert forall|k: Seq<char>| #[trigger] as_map(after).dom().contains(k) == listed(before, k) by {
        if listed(after, k) {
            let i = index_of(after, k);
            assert(before[i].0@ == k);
            assert(listed(before, k));
        }
        if listed(before, k) {
            let i = index_of(before, k);
            assert(after[i].0@ == k);
            assert(listed(after, k));
        }
    }
    assert(listed(before, key)) by {
        assert(before[at].0@ == key);
    }
    assert forall|k: Seq<char>| as_map(after).dom().contains(k) implies #[trigger] as_map(after)[k]
        == (if k == key {
        entry.1
    } else {
        as_map(before)[k]
    }) by {
        let i = index_of(after, k);
        lemma_entry_at(after, i);
        assert(before[i].0@ == k);
        lemma_entry_at(before, i);
        if k == key {
            lemma_entry_at(before, at);
        }
    }
    assert(as_map(after) =~= as_map(before).insert(key, entry.1));
}

/// With distinct keys there are as many keys as entries.
proof fn lemma_domain_size<V>(entries: Seq<(String, V)>)
    requires
        distinct_keys(entries),
    ensures
        as_map(entries).dom().finite(),
        as_map(entries).dom().len() == entries.len(),
    decreases entries.len(),
{
    if entries.len() == 0 {
        assert(as_map(entries).dom() =~= Set::<Seq<char>>::empty());
    } else {
        let init = entries.drop_last();
        let last = entries.last();
        assert forall|i: int, j: int|
            #![trigger init[i], init[j]]
            0 <= i < j < init.len() implies init[i].0@ != init[j].0@ by {
            assert(init[i] == entries[i]);
            assert(init[j] == entries[j]);
        }
        lemma_domain_size(init);
        assert(!listed(init, last.0@)) by {
            if listed(init, last.0@) {
                let i = index_of(init, last.0@);
                assert(init[i] == entries[i]);
                assert(entries[i].0@ != entries[entries.len() - 1].0@);
            }
        }
        assert(entries == init.push(last));
        lemma_pushed(init, last);
    }
}

impl<V> View for TextMap<V> {
    type V = Map<Seq<char>, V>;

    closed spec fn view(&self) -> Map<Seq<char>, V> {
        as_map(self.entries@)
    }
}

impl<V> TextMap<V> {
    /// No key is entered twice.
    pub closed spec fn wf(&self) -> bool {
        distinct_keys(self.entries@)
    }

    /// The keys, in the order in which they were first entered.
    pub closed spec fn key_list(&self) -> Seq<Seq<char>> {
        Seq::new(self.entries@.len(), |i: int| self.entries@[i].0@)
    }

    /// An empty map.
    pub fn new() -> (map: Self)
        ensures
            map.wf(),
            map@ == Map::<Seq<char>, V>::empty(),
            map.key_list() == Seq::<Seq<char>>::empty(),
    {
        let map = TextMap { entries: Vec::new() };
        assert(map@ =~= Map::<Seq<char>, V>::empty());
        assert(map.key_list() =~= Seq::<Seq<char>>::empty());
        map
    }

    fn find(&self, key: &str) -> (found: Option<usize>)
        requires
            self.wf(),
        ensures
            match found {
                Some(i) => i < self.entries.len() && self.entries@[i as int].0@ == key@
                    && self@.dom().contains(key@) && self@[key@] == self.entries@[i as int].1,
                None => !self@.dom().contains(key@) && !listed(self.entries@, key@),
            },
    {
        let mut i: usize = 0;
        while i < self.entries.len()
            invariant
                self.wf(),
                i <= self.entries.len(),
                forall|k: int| 0 <= k < i ==> (#[trigger] self.entries@[k]).0@ != key@,
            decreases self.entries.len() - i,
        {
            if same_text(self.entries[i].0.as_str(), key) {
                proof {
                    lemma_entry_at(self.entries@, i as int);
                }
                return Some(i);
            }
            i += 1;
        }
        proof {
            lemma_not_listed(self.entries@, key@);
        }
        None
    }

    /// The number of keys.
    pub fn len(&self) -> (n: usize)
        requires
            self.wf(),
        ensures
            n == self@.dom().len(),
            n == self.key_list().len(),
            self@.dom().finite(),
    {
        proof {
            lemma_domain_size(self.entries@);
        }
        self.entries.len()
    }

    /// Whether `key` has a value.
    pub fn contains_key(&self, key: &str) -> (present: bool)
        requires
            self.wf(),
        ensures
            present == self@.dom().contains(key@),
    {
        self.find(key).is_some()
    }

    /// The value of `key`, if it has one.
    pub fn get(&self, key: &str) -> (value: Option<&V>)
        requires
            self.wf(),
        ensures
            match value {
                Some(v) => self@.dom().contains(key@) && *v == self@[key@],
                None => !self@.dom().contains(key@),
            },
    {
        match self.find(key) {
            Some(i) => Some(&self.entries[i].1),
            None => None,
        }
    }

    /// Gives `key` the value `value`. Returns the value that `key` had
    /// before, if it had one.
    pub fn insert(&mut self, key: String, value: V) -> (previous: Option<V>)
        requires
            old(self).wf(),
        ensures
            final(self).wf(),
            final(self)@ == old(self)@.insert(key@, value),
            match previous {
                Some(v) => old(self)@.dom().contains(key@) && v == old(self)@[key@]
                    && final(self).key_list() == old(self).key_list(),
                None => !old(self)@.dom().contains(key@) && final(self).key_list() == old(
                    self,
                ).key_list().push(key@),
            },
    {
        let ghost before = self.entries@;
        match self.find(key.as_str()) {
            Some(at) => {
                let ghost entry = (key, value);
                let taken = self.entries.remove(at);
                self.entries.insert(at, (key, value));
                proof {
                    assert(self.entries@ =~= before.update(at as int, entry));
                    lemma_replaced(before, at as int, entry);
                    assert(self.key_list() =~= old(self).key_list());
                }
                Some(taken.1)
            },
            None => {
                let ghost entry = (key, value);
                self.entries.push((key, value));
                proof {
                    lemma_pushed(before, entry);
                    assert(self.key_list() =~= old(self).key_list().push(key@));
                }
                None
            },
        }
    }

    /// Takes `key` out. Returns the value that it had, if it had one.
    pub fn remove(&mut self, key: &str) -> (removed: Option<V>)
        requires
            old(self).wf(),
        ensures
            final(self).wf(),
            final(self)@ == old(self)@.remove(key@),
            match removed {
                Some(v) => old(self)@.dom().contains(key@) && v == old(self)@[key@],
                None => !old(self)@.dom().contains(key@) && final(self).key_list() == old(
                    self,
                ).key_list(),
            },
    {
        let ghost before = self.entries@;
        match self.find(key) {
            None => {
                assert(self@ =~= self@.remove(key@));
                None
            },
            Some(at) => {
                let taken = self.entries.remove(at);
                proof {
                    lemma_removed(before, at as int);
                }
                Some(taken.1)
            },
        }
    }

    /// The keys, in the order in which they were first entered.
    pub fn keys(&self) -> (keys: Vec<String>)
        requires
            self.wf(),
        ensures
            texts(keys@) == self.key_list(),
            forall|k: Seq<char>| self@.dom().contains(k) <==> self.key_list().contains(k),
    {
        let mut keys: Vec<String> = Vec::new();
        let mut i: usize = 0;
        while i < self.entries.len()
            invariant
                i <= self.entries.len(),
                keys.len() == i,
                forall|k: int| 0 <= k < i ==> (#[trigger] keys@[k])@ == self.entries@[k].0@,
            decreases self.entries.len() - i,
        {
            keys.push(self.entries[i].0.clone());
            i += 1;
        }
        proof {
            assert(texts(keys@) =~= self.key_list());
            let list = self.key_list();
            assert forall|k: Seq<char>| self@.dom().contains(k) <==> list.contains(k) by {
                if listed(self.entries@, k) {
                    let i = index_of(self.entries@, k);
                    assert(list[i] == k);
                }
                if list.contains(k) {
                    let i = choose|i: int| 0 <= i < list.len() && list[i] == k;
                    assert(self.entries@[i].0@ == k);
                }
            }
        }
        keys
    }
}

} // verus!
