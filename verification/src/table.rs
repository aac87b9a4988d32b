//! A small table keyed by identity, for the side data that the compositor
//! keeps on windows and surfaces.

use vstd::prelude::*;

verus! {

/// One row of a table.
pub struct Entry<V> {
    pub key: u64,
    pub value: V,
}

/// A table with at most one row per key. Its view is the map from the keys
/// to their values.
pub struct Table<V> {
    pub entries: Vec<Entry<V>>,
}

/// Whether some row of `s` has key `key`.
pub open spec fn has_key<V>(s: Seq<Entry<V>>, key: u64) -> bool {
    exists|i: int| 0 <= i < s.len() && #[trigger] s[i].key == key
}

/// The place in `s` of the row with key `key`.
pub open spec fn slot_of<V>(s: Seq<Entry<V>>, key: u64) -> int {
    choose|i: int| 0 <= i < s.len() && #[trigger] s[i].key == key
}

/// No two rows of `s` share a key.
pub open spec fn distinct_keys<V>(s: Seq<Entry<V>>) -> bool {
    forall|i: int, j: int|
        0 <= i < s.len() && 0 <= j < s.len() && #[trigger] s[i].key == #[trigger] s[j].key ==> i
            == j
}

/// The map that the rows `s` stand for.
pub open spec fn rows_to_map<V>(s: Seq<Entry<V>>) -> Map<u64, V> {
    Map::new(|k: u64| has_key(s, k), |k: u64| s[slot_of(s, k)].value)
}

/// With unique keys every row is found again under its key.
pub proof fn lemma_row_is_mapped<V>(s: Seq<Entry<V>>, i: int)
    requires
        distinct_keys(s),
        0 <= i < s.len(),
    ensures
        has_key(s, s[i].key),
        slot_of(s, s[i].key) == i,
        rows_to_map(s).contains_key(s[i].key),
        rows_to_map(s)[s[i].key] == s[i].value,
{
    assert(s[i].key == s[i].key);
    let j = slot_of(s, s[i].key);
    assert(s[j].key == s[i].key);
}

/// Appending a row under a new key inserts it into the map.
pub proof fn lemma_push_is_insert<V>(s: Seq<Entry<V>>, e: Entry<V>)
    requires
        distinct_keys(s),
        !has_key(s, e.key),
    ensures
        distinct_keys(s.push(e)),
        rows_to_map(s.push(e)) == rows_to_map(s).insert(e.key, e.value),
{
    let t = s.push(e);
    assert forall|i: int, j: int|
        0 <= i < t.len() && 0 <= j < t.len() && #[trigger] t[i].key == #[trigger] t[j].key
        implies i == j by {
        if i < s.len() {
            assert(s[i].key == t[i].key);
        }
        if j < s.len() {
            assert(s[j].key == t[j].key);
        }
    }
    assert forall|k: u64| has_key(t, k) <==> (k == e.key || has_key(s, k)) by {
        if has_key(t, k) {
            let i = choose|i: int| 0 <= i < t.len() && #[trigger] t[i].key == k;
            if i < s.len() {
                assert(s[i].key == k);
            }
        }
        if has_key(s, k) {
            let i = choose|i: int| 0 <= i < s.len() && #[trigger] s[i].key == k;
            assert(t[i].key == k);
        }
        if k == e.key {
            assert(t[s.len() as int].key == k);
        }
    }
    assert forall|k: u64| has_key(t, k) implies t[slot_of(t, k)].value == (if k == e.key {
        e.value
    } else {
        s[slot_of(s, k)].value
    }) by {
        let i = slot_of(t, k);
        if k == e.key {
            assert(t[s.len() as int].key == t[i].key);
        } else {
            let j = slot_of(s, k);
            assert(t[j].key == t[i].key);
        }
    }
    assert(rows_to_map(t) =~= rows_to_map(s).insert(e.key, e.value));
}

/// Replacing the value of a row replaces it in the map.
pub proof fn lemma_update_is_insert<V>(s: Seq<Entry<V>>, i: int, value: V)
    requires
        distinct_keys(s),
        0 <= i < s.len(),
    ensures
        distinct_keys(s.update(i, Entry { key: s[i].key, value })),
        rows_to_map(s.update(i, Entry { key: s[i].key, value })) == rows_to_map(s).insert(
            s[i].key,
            value,
        ),
{
    let t = s.update(i, Entry { key: s[i].key, value });
    assert forall|k: int| 0 <= k < s.len() implies (#[trigger] t[k]).key == s[k].key by {}
    assert forall|a: int, b: int|
        0 <= a < t.len() && 0 <= b < t.len() && #[trigger] t[a].key == #[trigger] t[b].key
        implies a == b by {
        assert(s[a].key == s[b].key);
    }
    assert forall|k: u64| has_key(t, k) <==> has_key(s, k) by {
        if has_key(t, k) {
            let a = choose|a: int| 0 <= a < t.len() && #[trigger] t[a].key == k;
            assert(s[a].key == k);
        }
        if has_key(s, k) {
            let a = choose|a: int| 0 <= a < s.len() && #[trigger] s[a].key == k;
            assert(t[a].key == k);
        }
    }
    lemma_row_is_mapped(s, i);
    assert forall|k: u64| has_key(t, k) implies t[slot_of(t, k)].value == (if k == s[i].key {
        value
    } else {
        s[slot_of(s, k)].value
    }) by {
        let a = slot_of(t, k);
        let b = slot_of(s, k);
        assert(s[a].key == s[b].key);
    }
    assert(rows_to_map(t) =~= rows_to_map(s).insert(s[i].key, value));
}

/// Dropping a row removes its key from the map.
pub proof fn lemma_remove_is_remove<V>(s: Seq<Entry<V>>, i: int)
    requires
        distinct_keys(s),
        0 <= i < s.len(),
    ensures
        distinct_keys(s.remove(i)),
        rows_to_map(s.remove(i)) == rows_to_map(s).remove(s[i].key),
{
    let t = s.remove(i);
    let from = |k: int| if k < i { k } else { k + 1 };
    let to = |k: int| if k < i { k } else { k - 1 };
    assert forall|k: int| 0 <= k < t.len() implies #[trigger] t[k] == s[from(k)] && 0 <= from(k)
        < s.len() && from(k) != i by {}
    assert forall|a: int, b: int|
        0 <= a < t.len() && 0 <= b < t.len() && #[trigger] t[a].key == #[trigger] t[b].key
        implies a == b by {
        assert(s[from(a)].key == s[from(b)].key);
    }
    assert forall|k: u64| has_key(t, k) <==> (k != s[i].key && has_key(s, k)) by {
        if has_key(t, k) {
            let a = choose|a: int| 0 <= a < t.len() && #[trigger] t[a].key == k;
            assert(s[from(a)].key == k);
            if k == s[i].key {
                assert(s[from(a)].key == s[i].key);
            }
        }
        if k != s[i].key && has_key(s, k) {
            let a = choose|a: int| 0 <= a < s.len() && #[trigger] s[a].key == k;
            assert(t[to(a)] == s[a]);
            assert(t[to(a)].key == k);
        }
    }
    assert forall|k: u64| has_key(t, k) implies t[slot_of(t, k)].value == s[slot_of(
        s,
        k,
    )].value by {
        let a = slot_of(t, k);
        let b = slot_of(s, k);
        assert(s[from(a)].key == s[b].key);
    }
    assert(rows_to_map(t) =~= rows_to_map(s).remove(s[i].key));
}

impl<V> View for Table<V> {
    type V = Map<u64, V>;

    open spec fn view(&self) -> Map<u64, V> {
        rows_to_map(self.entries@)
    }
}

impl<V: Copy> Table<V> {
    /// The table's invariant: keys are unique.
    pub open spec fn wf(&self) -> bool {
        distinct_keys(self.entries@)
    }

    /// An empty table.
    pub fn new() -> (t: Table<V>)
        ensures
            t@ == Map::<u64, V>::empty(),
            t.wf(),
            t.entries@.len() == 0,
    {
        let t = Table { entries: Vec::new() };
        assert(t@ =~= Map::<u64, V>::empty());
        t
    }

    /// The number of rows.
    pub fn len(&self) -> (n: usize)
        ensures
            n == self.entries@.len(),
    {
        self.entries.len()
    }

    /// Whether the table's invariant holds.
    pub fn is_valid(&self) -> (ok: bool)
        ensures
            ok == self.wf(),
    {
        let n = self.entries.len();
        let mut i: usize = 0;
        while i < n
            invariant
                i <= n,
                n == self.entries@.len(),
                forall|a: int, b: int|
                    0 <= a < i && 0 <= b < a ==> (#[trigger] self.entries@[a]).key
                        != (#[trigger] self.entries@[b]).key,
            decreases n - i,
        {
            let mut j: usize = 0;
            while j < i
                invariant
                    j <= i,
                    i < n,
                    n == self.entries@.len(),
                    forall|b: int|
                        0 <= b < j ==> self.entries@[i as int].key != (
                        #[trigger] self.entries@[b]).key,
                decreases i - j,
            {
                if self.entries[i].key == self.entries[j].key {
                    return false;
                }
                j = j + 1;
            }
            i = i + 1;
        }
        proof {
            assert forall|a: int, b: int|
                0 <= a < n && 0 <= b < n && #[trigger] self.entries@[a].key
                    == #[trigger] self.entries@[b].key implies a == b by {
                if a < b {
                    assert(self.entries@[b].key != self.entries@[a].key);
                }
                if b < a {
                    assert(self.entries@[a].key != self.entries@[b].key);
                }
            }
        }
        true
    }

    /// The place of the row with key `key`.
    pub fn find(&self, key: u64) -> (r: Option<usize>)
        requires
            self.wf(),
        ensures
            r.is_some() <==> self@.contains_key(key),
            r matches Some(i) ==> i < self.entries@.len() && self.entries@[i as int].key == key
                && self.entries@[i as int].value == self@[key],
    {
        let mut i: usize = 0;
        while i < self.entries.len()
            invariant
                i <= self.entries.len(),
                self.wf(),
                forall|j: int| 0 <= j < i ==> self.entries@[j].key != key,
            decreases self.entries.len() - i,
        {
            if self.entries[i].key == key {
                proof {
                    lemma_row_is_mapped(self.entries@, i as int);
                }
                return Some(i);
            }
            i = i + 1;
        }
        None
    }

    /// Whether the table has a row for `key`.
    pub fn contains_key(&self, key: u64) -> (b: bool)
        requires
            self.wf(),
        ensures
            b == self@.contains_key(key),
    {
        self.find(key).is_some()
    }

    /// The value stored for `key`, if any.
    pub fn get(&self, key: u64) -> (r: Option<V>)
        requires
            self.wf(),
        ensures
            r == (if self@.contains_key(key) {
                Some(self@[key])
            } else {
                None
            }),
    {
        match self.find(key) {
            Some(i) => Some(self.entries[i].value),
            None => None,
        }
    }

    /// Stores `value` for `key`, in place of what was stored before.
    pub fn insert(&mut self, key: u64, value: V)
        requires
            old(self).wf(),
        ensures
            final(self)@ == old(self)@.insert(key, value),
            final(self).wf(),
    {
        match self.find(key) {
            Some(i) => {
                proof {
                    lemma_update_is_insert(self.entries@, i as int, value);
                }
                self.entries.set(i, Entry { key, value });
            },
            None => {
                proof {
                    lemma_push_is_insert(self.entries@, Entry { key, value });
                }
                self.entries.push(Entry { key, value });
            },
        }
    }

    /// Stores `value` for `key` unless something is stored already.
    pub fn insert_if_missing(&mut self, key: u64, value: V) -> (inserted: bool)
        requires
            old(self).wf(),
        ensures
            inserted <==> !old(self)@.contains_key(key),
            inserted ==> final(self)@ == old(self)@.insert(key, value),
            !inserted ==> final(self)@ == old(self)@,
            final(self).wf(),
    {
        match self.find(key) {
            Some(_) => false,
            None => {
                proof {
                    lemma_push_is_insert(self.entries@, Entry { key, value });
                }
                self.entries.push(Entry { key, value });
                true
            },
        }
    }

    /// Drops the row of `key`, if there is one.
    pub fn remove(&mut self, key: u64) -> (removed: Option<V>)
        requires
            old(self).wf(),
        ensures
            removed == (if old(self)@.contains_key(key) {
                Some(old(self)@[key])
            } else {
                None
            }),
            final(self)@ == old(self)@.remove(key),
            final(self).wf(),
    {
        match self.find(key) {
            Some(i) => {
                proof {
                    lemma_remove_is_remove(self.entries@, i as int);
                }
                let e = self.entries.remove(i);
                Some(e.value)
            },
            None => {
                assert(self@ =~= self@.remove(key));
                None
            },
        }
    }
}

} // verus!
