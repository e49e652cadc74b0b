//! A map kept as a vector of entries with distinct keys.
//!
//! The maps of the revision parser are keyed by extended GUIDs and root
//! roles, for which std's hash maps carry no usable specification; this map
//! compares keys with `==` and keeps its entries in insertion order.
use vstd::prelude::*;

verus! {

/// Keys whose executable comparison means `==` on their values.
pub trait MapKey: Copy {
    fn same_key(&self, other: &Self) -> (r: bool)
        ensures
            r == (*self == *other),
    ;
}

impl MapKey for u32 {
    fn same_key(&self, other: &Self) -> (r: bool) {
        *self == *other
    }
}

/// No key occurs in two entries.
pub open spec fn keys_distinct<K, V>(entries: Seq<(K, V)>) -> bool {
    forall|i: int, j: int|
        #![trigger entries[i], entries[j]]
        0 <= i < j < entries.len() ==> entries[i].0 != entries[j].0
}

/// Whether some entry has key `k`.
pub open spec fn has_key<K, V>(entries: Seq<(K, V)>, k: K) -> bool {
    exists|i: int| 0 <= i < entries.len() && #[trigger] entries[i].0 == k
}

/// The map that `entries` describe: each key to the value of its entry.
pub open spec fn entries_map<K, V>(entries: Seq<(K, V)>) -> Map<K, V> {
    Map::new(
        |k: K| has_key(entries, k),
        |k: K| entries[choose|i: int| 0 <= i < entries.len() && #[trigger] entries[i].0 == k].1,
    )
}

/// In entries with distinct keys, the entry at `j` gives the value of its key.
pub proof fn lemma_entry_in_map<K, V>(entries: Seq<(K, V)>, j: int)
    requires
        keys_distinct(entries),
        0 <= j < entries.len(),
    ensures
        entries_map(entries).contains_key(entries[j].0),
        entries_map(entries)[entries[j].0] == entries[j].1,
{
    let k = entries[j].0;
    assert(has_key(entries, k));
    let c = choose|i: int| 0 <= i < entries.len() && #[trigger] entries[i].0 == k;
    if c < j {
        assert(entries[c].0 != entries[j].0);
    } else if c > j {
        assert(entries[j].0 != entries[c].0);
    }
}

/// A key of the map has an entry that holds its value.
pub proof fn lemma_map_has_entry<K, V>(entries: Seq<(K, V)>, k: K) -> (j: int)
    requires
        keys_distinct(entries),
        entries_map(entries).contains_key(k),
    ensures
        0 <= j < entries.len(),
        entries[j].0 == k,
        entries_map(entries)[k] == entries[j].1,
{
    let j = choose|i: int| 0 <= i < entries.len() && #[trigger] entries[i].0 == k;
    lemma_entry_in_map(entries, j);
    j
}

/// Appending an entry with a new key inserts it into the map.
pub proof fn lemma_push_new_key<K, V>(entries: Seq<(K, V)>, k: K, v: V)
    requires
        keys_distinct(entries),
        !entries_map(entries).contains_key(k),
    ensures
        keys_distinct(entries.push((k, v))),
        entries_map(entries.push((k, v))) =~= entries_map(entries).insert(k, v),
{
    let n = entries.push((k, v));
    assert forall|i: int, j: int| 0 <= i < j < n.len() implies #[trigger] n[i].0 != #[trigger] n[j].0 by {
        if j == entries.len() {
            if n[i].0 == k {
                assert(has_key(entries, k) && entries[i].0 == k);
            }
        } else {
            assert(entries[i] == n[i] && entries[j] == n[j]);
        }
    }
    let m = entries_map(entries).insert(k, v);
    assert forall|q: K| #[trigger] entries_map(n).contains_key(q) <==> m.contains_key(q) by {
        if entries_map(n).contains_key(q) {
            let j = lemma_map_has_entry(n, q);
            if j < entries.len() {
                assert(entries[j] == n[j]);
                assert(has_key(entries, q));
            }
        }
        if m.contains_key(q) && q != k {
            let j = lemma_map_has_entry(entries, q);
            assert(n[j] == entries[j]);
            assert(has_key(n, q));
        }
        if q == k {
            assert(n[entries.len() as int].0 == k);
            assert(has_key(n, k));
        }
    }
    assert forall|q: K| #[trigger] m.contains_key(q) implies entries_map(n)[q] == m[q] by {
        if q == k {
            lemma_entry_in_map(n, entries.len() as int);
        } else {
            let j = lemma_map_has_entry(entries, q);
            assert(n[j] == entries[j]);
            lemma_entry_in_map(n, j);
        }
    }
}

/// Replacing the value of the entry at `i` updates its key in the map.
pub proof fn lemma_update_entry<K, V>(entries: Seq<(K, V)>, i: int, v: V)
    requires
        keys_distinct(entries),
        0 <= i < entries.len(),
    ensures
        keys_distinct(entries.update(i, (entries[i].0, v))),
        entries_map(entries.update(i, (entries[i].0, v))) =~= entries_map(entries).insert(
            entries[i].0,
            v,
        ),
{
    let k = entries[i].0;
    let n = entries.update(i, (k, v));
    assert forall|a: int, b: int| 0 <= a < b < n.len() implies #[trigger] n[a].0 != #[trigger] n[b].0 by {
        assert(entries[a].0 == n[a].0 && entries[b].0 == n[b].0);
    }
    let m = entries_map(entries).insert(k, v);
    assert forall|q: K| #[trigger] entries_map(n).contains_key(q) <==> m.contains_key(q) by {
        if entries_map(n).contains_key(q) {
            let j = lemma_map_has_entry(n, q);
            assert(entries[j].0 == q);
            assert(has_key(entries, q));
        }
        if m.contains_key(q) {
            if q == k {
                assert(n[i].0 == k);
                assert(has_key(n, q));
            } else {
                let j = lemma_map_has_entry(entries, q);
                assert(n[j].0 == q);
                assert(has_key(n, q));
            }
        }
    }
    assert forall|q: K| #[trigger] m.contains_key(q) implies entries_map(n)[q] == m[q] by {
        if q == k {
            lemma_entry_in_map(n, i);
        } else {
            let j = lemma_map_has_entry(entries, q);
            assert(n[j] == entries[j]);
            lemma_entry_in_map(n, j);
        }
    }
}

/// A map from keys to values, kept as a vector of entries with distinct keys.
#[derive(Debug)]
pub struct KeyMap<K, V> {
    entries: Vec<(K, V)>,
}

impl<K: MapKey, V> View for KeyMap<K, V> {
    type V = Map<K, V>;

    closed spec fn view(&self) -> Map<K, V> {
        entries_map(self.entries@)
    }
}

impl<K: MapKey, V> KeyMap<K, V> {
    /// The map's entries have distinct keys.
    pub closed spec fn wf(&self) -> bool {
        keys_distinct(self.entries@)
    }

    /// An empty map.
    pub fn new() -> (m: Self)
        ensures
            m.wf(),
            m@ == Map::<K, V>::empty(),
    {
        let m = KeyMap { entries: Vec::new() };
        assert(m@ =~= Map::<K, V>::empty());
        m
    }

    /// The position of the entry with key `k`, if there is one.
    fn find(&self, k: &K) -> (r: Option<usize>)
        requires
            self.wf(),
        ensures
            match r {
                Some(i) => i < self.entries@.len() && self.entries@[i as int].0 == *k,
                None => !self@.contains_key(*k),
            },
    {
        let mut i: usize = 0;
        while i < self.entries.len()
            invariant
                i <= self.entries@.len(),
                forall|j: int| 0 <= j < i ==> #[trigger] self.entries@[j].0 != *k,
            decreases self.entries@.len() - i,
        {
            if self.entries[i].0.same_key(k) {
                return Some(i);
            }
            i = i + 1;
        }
        None
    }

    /// Whether the map has key `k`.
    pub fn contains_key(&self, k: &K) -> (b: bool)
        requires
            self.wf(),
        ensures
            b == self@.contains_key(*k),
    {
        match self.find(k) {
            Some(i) => {
                proof {
                    lemma_entry_in_map(self.entries@, i as int);
                }
                true
            },
            None => false,
        }
    }

    /// The value of key `k`, if the map has it.
    pub fn get(&self, k: &K) -> (r: Option<&V>)
        requires
            self.wf(),
        ensures
            match r {
                Some(v) => self@.contains_key(*k) && *v == self@[*k],
                None => !self@.contains_key(*k),
            },
    {
        match self.find(k) {
            Some(i) => {
                proof {
                    lemma_entry_in_map(self.entries@, i as int);
                }
                Some(&self.entries[i].1)
            },
            None => None,
        }
    }

    /// Maps `k` to `v`, replacing an earlier value of `k`.
    pub fn insert(&mut self, k: K, v: V)
        requires
            old(self).wf(),
        ensures
            final(self).wf(),
            final(self)@ == old(self)@.insert(k, v),
    {
        match self.find(&k) {
            Some(i) => {
                proof {
                    lemma_update_entry(self.entries@, i as int, v);
                }
                self.entries.set(i, (k, v));
            },
            None => {
                proof {
                    lemma_push_new_key(self.entries@, k, v);
                }
                self.entries.push((k, v));
            },
        }
    }

    /// Maps `k` to `v` unless the map already has `k`, which keeps its value.
    pub fn insert_if_absent(&mut self, k: K, v: V)
        requires
            old(self).wf(),
        ensures
            final(self).wf(),
            final(self)@ == (if old(self)@.contains_key(k) {
                old(self)@
            } else {
                old(self)@.insert(k, v)
            }),
    {
        if self.find(&k).is_none() {
            proof {
                lemma_push_new_key(self.entries@, k, v);
            }
            self.entries.push((k, v));
        }
    }
}

impl<K: MapKey, V: Copy> KeyMap<K, V> {
    /// A map with the same keys and values.
    pub fn duplicate(&self) -> (r: Self)
        requires
            self.wf(),
        ensures
            r.wf(),
            r@ == self@,
    {
        let mut entries: Vec<(K, V)> = Vec::new();
        let mut i: usize = 0;
        while i < self.entries.len()
            invariant
                i <= self.entries@.len(),
                entries@ == self.entries@.subrange(0, i as int),
            decreases self.entries@.len() - i,
        {
            let e = self.entries[i];
            entries.push(e);
            i = i + 1;
            assert(entries@ =~= self.entries@.subrange(0, i as int));
        }
        assert(entries@ =~= self.entries@);
        KeyMap { entries }
    }
}

} // verus!
