//! A small keyed store: the storage behind every module. Keys are
//! identifiers, so a key is found by what it denotes, and no key is held
//! twice.

use crate::primitives::Identifier;
use vstd::prelude::*;

verus! {

/// A finite map from identifiers to values, viewed as a `Map` from the keys'
/// views to the stored values.
#[derive(Debug)]
pub struct StorageMap<K: Identifier, V> {
    entries: Vec<(K, V)>,
}

/// Whether no two entries of `entries` share a key.
spec fn distinct_keys<K: View, V>(entries: Seq<(K, V)>) -> bool {
    forall|i: int, j: int|
        0 <= i < j < entries.len() ==> (#[trigger] entries[i]).0@ != (#[trigger] entries[j]).0@
}

/// Whether some entry of `entries` has the key `key`.
spec fn has_key<K: View, V>(entries: Seq<(K, V)>, key: K::V) -> bool {
    exists|i: int| 0 <= i < entries.len() && (#[trigger] entries[i]).0@ == key
}

/// The index of an entry of `entries` with the key `key`.
spec fn index_of<K: View, V>(entries: Seq<(K, V)>, key: K::V) -> int {
    choose|i: int| 0 <= i < entries.len() && (#[trigger] entries[i]).0@ == key
}

/// The map that a sequence of entries stands for.
spec fn entries_to_map<K: View, V>(entries: Seq<(K, V)>) -> Map<K::V, V> {
    Map::new(|key: K::V| has_key(entries, key), |key: K::V| entries[index_of(entries, key)].1)
}

/// With distinct keys, every entry is what the map holds at its key.
proof fn lemma_entry_in_map<K: View, V>(entries: Seq<(K, V)>, i: int)
    requires
        distinct_keys(entries),
        0 <= i < entries.len(),
    ensures
        entries_to_map(entries).contains_key(entries[i].0@),
        entries_to_map(entries)[entries[i].0@] == entries[i].1,
{
    let key = entries[i].0@;
    assert(has_key(entries, key));
    let j = index_of(entries, key);
    assert(0 <= j < entries.len() && entries[j].0@ == key);
    if j != i {
        if j < i {
            assert(entries[j].0@ != entries[i].0@);
        } else {
            assert(entries[i].0@ != entries[j].0@);
        }
    }
}

/// The map of a sequence of entries has a finite domain.
proof fn lemma_entries_finite<K: View, V>(entries: Seq<(K, V)>)
    ensures
        entries_to_map(entries).dom().finite(),
    decreases entries.len(),
{
    let dom = entries_to_map(entries).dom();
    if entries.len() == 0 {
        assert(dom =~= Set::<K::V>::empty());
    } else {
        let rest = entries.drop_last();
        lemma_entries_finite(rest);
        let rest_dom = entries_to_map(rest).dom();
        let last = entries.last().0@;
        assert forall|key: K::V| dom.contains(key) <==> rest_dom.insert(last).contains(key) by {
            if has_key(entries, key) {
                let i = index_of(entries, key);
                if i < entries.len() - 1 {
                    assert(rest[i].0@ == key);
                    assert(has_key(rest, key));
                }
            }
            if has_key(rest, key) {
                let i = index_of(rest, key);
                assert(entries[i].0@ == key);
            }
            if key == last {
                assert(entries[entries.len() - 1].0@ == key);
            }
        }
        assert(dom =~= rest_dom.insert(last));
    }
}

impl<K: Identifier, V> View for StorageMap<K, V> {
    type V = Map<K::V, V>;

    closed spec fn view(&self) -> Map<K::V, V> {
        entries_to_map(self.entries@)
    }
}

impl<K: Identifier, V> StorageMap<K, V> {
    #[verifier::type_invariant]
    spec fn well_formed(&self) -> bool {
        distinct_keys(self.entries@)
    }

    /// Only finitely many keys are ever stored.
    pub proof fn lemma_finite(&self)
        ensures
            self@.dom().finite(),
    {
        lemma_entries_finite(self.entries@);
    }

    /// An empty store.
    pub fn new() -> (r: Self)
        ensures
            r@ == Map::<K::V, V>::empty(),
    {
        let r = StorageMap { entries: Vec::new() };
        assert(r@ =~= Map::<K::V, V>::empty());
        r
    }

    /// Where the entry for `key` stands, if there is one.
    fn position(&self, key: &K) -> (r: Option<usize>)
        ensures
            match r {
                Some(i) => i < self.entries@.len() && self.entries@[i as int].0@ == key@,
                None => !has_key(self.entries@, key@),
            },
    {
        let mut i: usize = 0;
        while i < self.entries.len()
            invariant
                i <= self.entries@.len(),
                forall|j: int| 0 <= j < i ==> (#[trigger] self.entries@[j]).0@ != key@,
            decreases self.entries@.len() - i,
        {
            if self.entries[i].0.same(key) {
                return Some(i);
            }
            i += 1;
        }
        None
    }

    /// Whether a value is stored under `key`.
    pub fn contains_key(&self, key: &K) -> (r: bool)
        ensures
            r == self@.contains_key(key@),
    {
        self.position(key).is_some()
    }

    /// The value stored under `key`, if any.
    pub fn get(&self, key: &K) -> (r: Option<&V>)
        ensures
            match r {
                Some(value) => self@.contains_key(key@) && *value == self@[key@],
                None => !self@.contains_key(key@),
            },
    {
        proof {
            use_type_invariant(self);
        }
        match self.position(key) {
            Some(i) => {
                proof {
                    lemma_entry_in_map(self.entries@, i as int);
                }
                Some(&self.entries[i].1)
            },
            None => None,
        }
    }

    /// Stores `value` under `key`, replacing and returning what was stored
    /// there before.
    pub fn insert(&mut self, key: K, value: V) -> (r: Option<V>)
        ensures
            final(self)@ == old(self)@.insert(key@, value),
            match r {
                Some(previous) => old(self)@.contains_key(key@) && previous == old(self)@[key@],
                None => !old(self)@.contains_key(key@),
            },
    {
        proof {
            use_type_invariant(&*self);
        }
        let ghost before = self.entries@;
        // The entries are taken out of the store while they change and put
        // back when they are in order again.
        match self.position(&key) {
            Some(i) => {
                proof {
                    lemma_entry_in_map(before, i as int);
                }
                let mut entries: Vec<(K, V)> = Vec::new();
                core::mem::swap(&mut self.entries, &mut entries);
                let mut previous = value;
                core::mem::swap(&mut entries[i].1, &mut previous);
                proof {
                    lemma_update_entry(before, entries@, i as int);
                }
                self.entries = entries;
                Some(previous)
            },
            None => {
                let mut entries: Vec<(K, V)> = Vec::new();
                core::mem::swap(&mut self.entries, &mut entries);
                entries.push((key, value));
                proof {
                    lemma_push_entry(before, entries@);
                }
                self.entries = entries;
                None
            },
        }
    }

    /// Removes and returns what is stored under `key`.
    pub fn remove(&mut self, key: &K) -> (r: Option<V>)
        ensures
            final(self)@ == old(self)@.remove(key@),
            match r {
                Some(previous) => old(self)@.contains_key(key@) && previous == old(self)@[key@],
                None => !old(self)@.contains_key(key@),
            },
    {
        proof {
            use_type_invariant(&*self);
        }
        let ghost before = self.entries@;
        match self.position(key) {
            Some(i) => {
                proof {
                    lemma_entry_in_map(before, i as int);
                }
                let mut entries: Vec<(K, V)> = Vec::new();
                core::mem::swap(&mut self.entries, &mut entries);
                let previous = entries.swap_remove(i);
                proof {
                    lemma_swap_remove_entry(before, entries@, i as int);
                }
                self.entries = entries;
                Some(previous.1)
            },
            None => {
                assert(self@ =~= old(self)@.remove(key@));
                None
            },
        }
    }
}

/// Replacing the value of one entry, with its key kept, is an insertion at
/// that key.
proof fn lemma_update_entry<K: View, V>(before: Seq<(K, V)>, after: Seq<(K, V)>, i: int)
    requires
        distinct_keys(before),
        0 <= i < before.len(),
        after.len() == before.len(),
        after[i].0@ == before[i].0@,
        forall|j: int| 0 <= j < before.len() && j != i ==> after[j] == before[j],
    ensures
        distinct_keys(after),
        entries_to_map(after) == entries_to_map(before).insert(before[i].0@, after[i].1),
{
    assert forall|a: int, b: int| 0 <= a < b < after.len() implies (#[trigger] after[a]).0@ != (
    #[trigger] after[b]).0@ by {
        assert(before[a].0@ != before[b].0@);
    }
    let m0 = entries_to_map(before);
    let m1 = entries_to_map(after);
    let target = m0.insert(before[i].0@, after[i].1);
    assert forall|key: K::V| m1.contains_key(key) <==> target.contains_key(key) by {
        if has_key(after, key) {
            let j = index_of(after, key);
            assert(before[j].0@ == key);
        }
        if has_key(before, key) {
            let j = index_of(before, key);
            assert(after[j].0@ == key);
        }
        if key == before[i].0@ {
            assert(after[i].0@ == key);
        }
    }
    assert forall|key: K::V| m1.contains_key(key) implies m1[key] == target[key] by {
        let j = index_of(after, key);
        lemma_entry_in_map(after, j);
        if j != i {
            assert(before[j].0@ == key);
            lemma_entry_in_map(before, j);
            if key == before[i].0@ {
                if j < i {
                    assert(before[j].0@ != before[i].0@);
                } else {
                    assert(before[i].0@ != before[j].0@);
                }
            }
        }
    }
    assert(m1 =~= target);
}

/// Appending an entry with a key that is not yet held is an insertion.
proof fn lemma_push_entry<K: View, V>(before: Seq<(K, V)>, after: Seq<(K, V)>)
    requires
        distinct_keys(before),
        after.len() == before.len() + 1,
        forall|j: int| 0 <= j < before.len() ==> after[j] == before[j],
        !has_key(before, after.last().0@),
    ensures
        distinct_keys(after),
        entries_to_map(after) == entries_to_map(before).insert(after.last().0@, after.last().1),
{
    let n = before.len() as int;
    assert forall|a: int, b: int| 0 <= a < b < after.len() implies (#[trigger] after[a]).0@ != (
    #[trigger] after[b]).0@ by {
        if b < n {
            assert(before[a].0@ != before[b].0@);
        } else {
            assert(before[a].0@ == after[a].0@);
        }
    }
    let m0 = entries_to_map(before);
    let m1 = entries_to_map(after);
    let target = m0.insert(after[n].0@, after[n].1);
    assert forall|key: K::V| m1.contains_key(key) <==> target.contains_key(key) by {
        if has_key(after, key) {
            let j = index_of(after, key);
            if j < n {
                assert(before[j].0@ == key);
            }
        }
        if has_key(before, key) {
            let j = index_of(before, key);
            assert(after[j].0@ == key);
        }
        if key == after[n].0@ {
            assert(after[n].0@ == key);
        }
    }
    assert forall|key: K::V| m1.contains_key(key) implies m1[key] == target[key] by {
        let j = index_of(after, key);
        lemma_entry_in_map(after, j);
        if j < n {
            assert(before[j].0@ == key);
            lemma_entry_in_map(before, j);
        }
    }
    assert(m1 =~= target);
}

/// Moving the last entry into the place of entry `i` and shortening the
/// sequence by one removes the key of entry `i`.
proof fn lemma_swap_remove_entry<K: View, V>(before: Seq<(K, V)>, after: Seq<(K, V)>, i: int)
    requires
        distinct_keys(before),
        0 <= i < before.len(),
        after == before.update(i, before.last()).drop_last(),
    ensures
        distinct_keys(after),
        entries_to_map(after) == entries_to_map(before).remove(before[i].0@),
{
    let n = before.len() as int;
    let removed = before[i].0@;
    // Where entry `j` of `after` stood in `before`.
    let origin = |j: int| if j == i { n - 1 } else { j };
    assert forall|a: int, b: int| 0 <= a < b < after.len() implies (#[trigger] after[a]).0@ != (
    #[trigger] after[b]).0@ by {
        let oa = origin(a);
        let ob = origin(b);
        assert(after[a] == before[oa] && after[b] == before[ob]);
        if oa < ob {
            assert(before[oa].0@ != before[ob].0@);
        } else {
            assert(before[ob].0@ != before[oa].0@);
        }
    }
    let m0 = entries_to_map(before);
    let m1 = entries_to_map(after);
    let target = m0.remove(removed);
    assert forall|key: K::V| m1.contains_key(key) <==> target.contains_key(key) by {
        if has_key(after, key) {
            let j = index_of(after, key);
            let oj = origin(j);
            assert(before[oj].0@ == key);
            if oj < i {
                assert(before[oj].0@ != before[i].0@);
            } else {
                assert(before[i].0@ != before[oj].0@);
            }
        }
        if has_key(before, key) && key != removed {
            let j = index_of(before, key);
            if j == n - 1 {
                assert(after[i].0@ == key);
            } else {
                assert(after[j].0@ == key);
            }
        }
    }
    assert forall|key: K::V| m1.contains_key(key) implies m1[key] == target[key] by {
        let j = index_of(after, key);
        lemma_entry_in_map(after, j);
        let oj = origin(j);
        assert(before[oj].0@ == key);
        lemma_entry_in_map(before, oj);
    }
    assert(m1 =~= target);
}

} // verus!
