//! A small map from identifiers to values, kept as a vector of entries.

use crate::list::Same;
use vstd::prelude::*;

verus! {

#[derive(Debug)]
pub struct IdMap<K, V> {
    entries: Vec<(K, V)>,
}

/// What the first entry for `key` holds.
pub open spec fn lookup<K, V>(entries: Seq<(K, V)>, key: K) -> Option<V>
    decreases entries.len(),
{
    if entries.len() == 0 {
        None
    } else if entries[0].0 == key {
        Some(entries[0].1)
    } else {
        lookup(entries.drop_first(), key)
    }
}

/// The map that a sequence of entries stands for.
pub open spec fn entry_map<K, V>(entries: Seq<(K, V)>) -> Map<K, V> {
    Map::new(|k: K| lookup(entries, k) is Some, |k: K| lookup(entries, k)->0)
}

impl<K, V> View for IdMap<K, V> {
    type V = Map<K, V>;

    closed spec fn view(&self) -> Map<K, V> {
        entry_map(self.entries@)
    }
}

/// The value under `key`, where there is one.
pub open spec fn at<K, V>(m: Map<K, V>, key: K) -> Option<V> {
    if m.contains_key(key) {
        Some(m[key])
    } else {
        None
    }
}

proof fn lemma_lookup_first<K, V>(entries: Seq<(K, V)>, key: K, i: int)
    requires
        0 <= i < entries.len(),
        entries[i].0 == key,
        forall|j: int| 0 <= j < i ==> entries[j].0 != key,
    ensures
        lookup(entries, key) == Some(entries[i].1),
    decreases entries.len(),
{
    if i > 0 {
        lemma_lookup_first(entries.drop_first(), key, i - 1);
    }
}

proof fn lemma_lookup_none<K, V>(entries: Seq<(K, V)>, key: K)
    requires
        forall|j: int| 0 <= j < entries.len() ==> entries[j].0 != key,
    ensures
        lookup(entries, key) is None,
    decreases entries.len(),
{
    if entries.len() > 0 {
        lemma_lookup_none(entries.drop_first(), key);
    }
}

proof fn lemma_lookup_found<K, V>(entries: Seq<(K, V)>, key: K)
    requires
        lookup(entries, key) is Some,
    ensures
        exists|i: int| 0 <= i < entries.len() && entries[i].0 == key,
    decreases entries.len(),
{
    if entries[0].0 != key {
        lemma_lookup_found(entries.drop_first(), key);
        let i = choose|i: int|
            0 <= i < entries.drop_first().len() && entries.drop_first()[i].0 == key;
        assert(entries[i + 1].0 == key);
    }
}

proof fn lemma_lookup_other<K, V>(entries: Seq<(K, V)>, i: int, value: V, key: K)
    requires
        0 <= i < entries.len(),
        entries[i].0 != key,
    ensures
        lookup(entries.update(i, (entries[i].0, value)), key) == lookup(entries, key),
    decreases entries.len(),
{
    let next = entries.update(i, (entries[i].0, value));
    if i == 0 {
        assert(next.drop_first() =~= entries.drop_first());
    } else {
        assert(next.drop_first() =~= entries.drop_first().update(
            i - 1,
            (entries.drop_first()[i - 1].0, value),
        ));
        lemma_lookup_other(entries.drop_first(), i - 1, value, key);
    }
}

proof fn lemma_lookup_push<K, V>(entries: Seq<(K, V)>, entry: (K, V), key: K)
    ensures
        lookup(entries.push(entry), key) == match lookup(entries, key) {
            Some(v) => Some(v),
            None => if entry.0 == key {
                Some(entry.1)
            } else {
                None
            },
        },
    decreases entries.len(),
{
    if entries.len() == 0 {
        assert(entries.push(entry).drop_first() =~= Seq::empty());
        assert(lookup(entries.push(entry).drop_first(), key) is None);
    } else {
        assert(entries.push(entry).drop_first() =~= entries.drop_first().push(entry));
        lemma_lookup_push(entries.drop_first(), entry, key);
    }
}

/// Replacing the value of the first entry for a key replaces it in the map.
proof fn lemma_update_first<K, V>(entries: Seq<(K, V)>, i: int, value: V)
    requires
        0 <= i < entries.len(),
        forall|j: int| 0 <= j < i ==> entries[j].0 != entries[i].0,
    ensures
        entry_map(entries.update(i, (entries[i].0, value))) == entry_map(entries).insert(
            entries[i].0,
            value,
        ),
        entry_map(entries).contains_key(entries[i].0),
        entry_map(entries)[entries[i].0] == entries[i].1,
{
    let key = entries[i].0;
    let next = entries.update(i, (key, value));
    lemma_lookup_first(entries, key, i);
    lemma_lookup_first(next, key, i);
    assert forall|k: K| k != key implies lookup(next, k) == lookup(entries, k) by {
        lemma_lookup_other(entries, i, value, k);
    }
    assert(entry_map(next) =~= entry_map(entries).insert(key, value));
}

impl<K: Same + Copy, V> IdMap<K, V> {
    pub fn new() -> (r: Self)
        ensures
            r@ == Map::<K, V>::empty(),
    {
        let r = IdMap { entries: Vec::new() };
        assert(r@ =~= Map::<K, V>::empty());
        r
    }

    fn position(&self, key: &K) -> (r: Option<usize>)
        ensures
            match r {
                Some(i) => {
                    &&& i < self.entries@.len()
                    &&& self.entries@[i as int].0 == *key
                    &&& forall|j: int| 0 <= j < i ==> self.entries@[j].0 != *key
                    &&& self@.contains_key(*key)
                    &&& self@[*key] == self.entries@[i as int].1
                },
                None => {
                    &&& forall|j: int| 0 <= j < self.entries@.len() ==> self.entries@[j].0 != *key
                    &&& !self@.contains_key(*key)
                },
            },
    {
        let mut i: usize = 0;
        while i < self.entries.len()
            invariant
                i <= self.entries@.len(),
                forall|j: int| 0 <= j < i ==> self.entries@[j].0 != *key,
            decreases self.entries@.len() - i,
        {
            if self.entries[i].0.same(key) {
                proof {
                    lemma_lookup_first(self.entries@, *key, i as int);
                }
                return Some(i);
            }
            i = i + 1;
        }
        proof {
            lemma_lookup_none(self.entries@, *key);
        }
        None
    }

    pub fn contains_key(&self, key: &K) -> (r: bool)
        ensures
            r == self@.contains_key(*key),
    {
        self.position(key).is_some()
    }

    pub fn get(&self, key: &K) -> (r: Option<&V>)
        ensures
            match r {
                Some(v) => at(self@, *key) == Some(*v),
                None => at(self@, *key) is None,
            },
    {
        match self.position(key) {
            Some(i) => Some(&self.entries[i].1),
            None => None,
        }
    }

    pub fn get_mut(&mut self, key: &K) -> (r: Option<&mut V>)
        ensures
            match r {
                Some(v) => {
                    &&& at(old(self)@, *key) == Some(*v)
                    &&& final(self)@ == old(self)@.insert(*key, *final(v))
                },
                None => at(old(self)@, *key) is None && final(self)@ == old(self)@,
            },
    {
        match self.position(key) {
            Some(i) => {
                proof {
                    assert forall|value: V|
                        entry_map(
                            #[trigger] self.entries@.update(i as int, (*key, value)),
                        ) == entry_map(self.entries@).insert(*key, value) by {
                        lemma_update_first(self.entries@, i as int, value);
                    }
                }
                Some(&mut self.entries[i].1)
            },
            None => None,
        }
    }

    pub fn insert(&mut self, key: K, value: V)
        ensures
            final(self)@ == old(self)@.insert(key, value),
    {
        match self.position(&key) {
            Some(i) => {
                proof {
                    lemma_update_first(self.entries@, i as int, value);
                }
                self.entries.set(i, (key, value));
            },
            None => {
                let ghost before = self.entries@;
                self.entries.push((key, value));
                proof {
                    assert forall|k: K|
                        lookup(self.entries@, k) == (if k == key {
                            Some(value)
                        } else {
                            lookup(before, k)
                        }) by {
                        lemma_lookup_push(before, (key, value), k);
                        if k == key {
                            lemma_lookup_none(before, key);
                        }
                    }
                    assert(entry_map(self.entries@) =~= entry_map(before).insert(key, value));
                }
            },
        }
    }

    pub fn remove(&mut self, key: &K)
        ensures
            final(self)@ == old(self)@.remove(*key),
    {
        let ghost before = self.entries@;
        let mut i: usize = 0;
        while i < self.entries.len()
            invariant
                i <= self.entries@.len(),
                forall|j: int| 0 <= j < i ==> self.entries@[j].0 != *key,
                forall|k: K|
                    k != *key ==> #[trigger] lookup(self.entries@, k) == lookup(before, k),
            decreases self.entries@.len() - i,
        {
            if self.entries[i].0.same(key) {
                let ghost prior = self.entries@;
                self.entries.remove(i);
                proof {
                    assert forall|k: K| k != *key implies #[trigger] lookup(self.entries@, k)
                        == lookup(before, k) by {
                        lemma_lookup_drop(prior, i as int, k);
                        assert(lookup(prior, k) == lookup(before, k));
                    }
                }
            } else {
                i = i + 1;
            }
        }
        proof {
            lemma_lookup_none(self.entries@, *key);
            assert(entry_map(self.entries@) =~= entry_map(before).remove(*key));
        }
    }

    /// Removes the entries of several keys.
    pub fn remove_all(&mut self, gone: &Vec<K>)
        ensures
            final(self)@ == Map::new(
                |k: K| old(self)@.contains_key(k) && !gone@.contains(k),
                |k: K| old(self)@[k],
            ),
    {
        let ghost before = self@;
        let mut i: usize = 0;
        assert(self@ =~= Map::new(
            |k: K| before.contains_key(k) && !gone@.take(0).contains(k),
            |k: K| before[k],
        ));
        while i < gone.len()
            invariant
                i <= gone@.len(),
                self@ == Map::new(
                    |k: K| before.contains_key(k) && !gone@.take(i as int).contains(k),
                    |k: K| before[k],
                ),
            decreases gone@.len() - i,
        {
            self.remove(&gone[i]);
            i = i + 1;
            proof {
                let done = gone@.take(i - 1);
                let next = gone@.take(i as int);
                assert(next =~= done.push(gone@[i - 1]));
                assert forall|k: K| #[trigger] next.contains(k) <==> done.contains(k) || k
                    == gone@[i - 1] by {
                    if done.contains(k) {
                        let j = choose|j: int| 0 <= j < done.len() && done[j] == k;
                        assert(next[j] == k);
                    }
                    if k == gone@[i - 1] {
                        assert(next[i - 1] == k);
                    }
                }
                assert(self@ =~= Map::new(
                    |k: K| before.contains_key(k) && !next.contains(k),
                    |k: K| before[k],
                ));
            }
        }
        assert(gone@.take(i as int) =~= gone@);
    }

    /// The keys, in the order of their entries.
    pub fn keys(&self) -> (r: Vec<K>)
        ensures
            forall|k: K| #[trigger] r@.contains(k) <==> self@.contains_key(k),
    {
        let mut out: Vec<K> = Vec::new();
        let mut i: usize = 0;
        while i < self.entries.len()
            invariant
                i <= self.entries@.len(),
                out@.len() == i,
                forall|j: int| 0 <= j < i ==> out@[j] == self.entries@[j].0,
            decreases self.entries@.len() - i,
        {
            out.push(self.entries[i].0);
            i = i + 1;
        }
        proof {
            assert forall|k: K| #[trigger] out@.contains(k) <==> self@.contains_key(k) by {
                if out@.contains(k) {
                    let j = choose|j: int| 0 <= j < out@.len() && out@[j] == k;
                    assert(self.entries@[j].0 == k);
                    lemma_some_entry(self.entries@, k, j);
                }
                if self@.contains_key(k) {
                    lemma_lookup_found(self.entries@, k);
                    let j = choose|j: int|
                        0 <= j < self.entries@.len() && self.entries@[j].0 == k;
                    assert(out@[j] == k);
                }
            }
        }
        out
    }
}

proof fn lemma_some_entry<K, V>(entries: Seq<(K, V)>, key: K, i: int)
    requires
        0 <= i < entries.len(),
        entries[i].0 == key,
    ensures
        lookup(entries, key) is Some,
    decreases entries.len(),
{
    if entries[0].0 != key {
        lemma_some_entry(entries.drop_first(), key, i - 1);
    }
}

proof fn lemma_lookup_drop<K, V>(entries: Seq<(K, V)>, i: int, key: K)
    requires
        0 <= i < entries.len(),
        entries[i].0 != key,
    ensures
        lookup(entries.remove(i), key) == lookup(entries, key),
    decreases entries.len(),
{
    if i == 0 {
        assert(entries.remove(0) =~= entries.drop_first());
    } else {
        assert(entries.remove(i).drop_first() =~= entries.drop_first().remove(i - 1));
        lemma_lookup_drop(entries.drop_first(), i - 1, key);
    }
}

} // verus!
