//! A map with string keys that can be walked by position.
use vstd::prelude::*;

verus! {

/// A list of entries in which no key occurs twice, seen as a map from the
/// characters of a key to its value.
pub struct StringMap<V> {
    entries: Vec<(String, V)>,
}

/// No two entries have the same key.
pub open spec fn distinct_keys<V>(entries: Seq<(String, V)>) -> bool {
    forall|i: int, j: int|
        #![trigger entries[i], entries[j]]
        0 <= i < entries.len() && 0 <= j < entries.len() && entries[i].0@ == entries[j].0@ ==> i
            == j
}

/// `entries` holds the key at position `i`.
pub open spec fn key_at<V>(entries: Seq<(String, V)>, i: int, key: Seq<char>) -> bool {
    0 <= i < entries.len() && entries[i].0@ == key
}

/// The map that a list of entries stands for.
pub open spec fn entries_map<V>(entries: Seq<(String, V)>) -> Map<Seq<char>, V> {
    Map::new(
        |key: Seq<char>| exists|i: int| key_at(entries, i, key),
        |key: Seq<char>| entries[choose|i: int| key_at(entries, i, key)].1,
    )
}

impl<V> View for StringMap<V> {
    type V = Map<Seq<char>, V>;

    closed spec fn view(&self) -> Map<Seq<char>, V> {
        entries_map(self.entries@)
    }
}

proof fn lemma_entry<V>(entries: Seq<(String, V)>, i: int)
    requires
        distinct_keys(entries),
        0 <= i < entries.len(),
    ensures
        entries_map(entries).contains_key(entries[i].0@),
        entries_map(entries)[entries[i].0@] == entries[i].1,
{
    let key = entries[i].0@;
    assert(key_at(entries, i, key));
    let k = choose|k: int| key_at(entries, k, key);
    assert(entries[k].0@ == entries[i].0@);
}

impl<V> StringMap<V> {
    /// No key occurs twice.
    pub closed spec fn wf(&self) -> bool {
        distinct_keys(self.entries@)
    }

    /// The entries in the order in which they stand.
    pub closed spec fn listed(&self) -> Seq<(String, V)> {
        self.entries@
    }

    /// The listed entries are the entries of the map.
    pub proof fn lemma_listed(&self)
        requires
            self.wf(),
        ensures
            self@ == entries_map(self.listed()),
            distinct_keys(self.listed()),
            forall|i: int|
                0 <= i < self.listed().len() ==> self@.contains_key(#[trigger] self.listed()[i].0@)
                    && self@[self.listed()[i].0@] == self.listed()[i].1,
    {
        assert forall|i: int| 0 <= i < self.listed().len() implies self@.contains_key(
            #[trigger] self.listed()[i].0@,
        ) && self@[self.listed()[i].0@] == self.listed()[i].1 by {
            lemma_entry(self.entries@, i);
        }
    }

    /// The empty map.
    pub fn new() -> (map: Self)
        ensures
            map.wf(),
            map@ == Map::<Seq<char>, V>::empty(),
    {
        let map = StringMap { entries: Vec::new() };
        assert(map@ =~= Map::<Seq<char>, V>::empty()) by {
            assert forall|key: Seq<char>| !map@.contains_key(key) by {
                if exists|i: int| key_at(map.entries@, i, key) {
                    let i = choose|i: int| key_at(map.entries@, i, key);
                    assert(false);
                }
            }
        }
        map
    }

    /// The number of entries.
    pub fn len(&self) -> (len: usize)
        ensures
            len == self.listed().len(),
    {
        self.entries.len()
    }

    /// The entry at a position.
    pub fn entry(&self, i: usize) -> (entry: (&String, &V))
        requires
            i < self.listed().len(),
        ensures
            *entry.0 == self.listed()[i as int].0,
            *entry.1 == self.listed()[i as int].1,
    {
        let entry = &self.entries[i];
        (&entry.0, &entry.1)
    }

    fn position(&self, key: &str) -> (found: Option<usize>)
        ensures
            match found {
                Some(i) => key_at(self.entries@, i as int, key@),
                None => forall|i: int| !key_at(self.entries@, i, key@),
            },
    {
        let wanted: String = key.to_owned();
        for i in 0..self.entries.len()
            invariant
                wanted@ == key@,
                forall|j: int| 0 <= j < i ==> !key_at(self.entries@, j, key@),
        {
            if self.entries[i].0 == wanted {
                return Some(i);
            }
        }
        None
    }

    /// The value under `key`, to be changed in place.
    pub fn get_mut(&mut self, key: &str) -> (value: Option<&mut V>)
        requires
            old(self).wf(),
        ensures
            final(self).wf(),
            match value {
                Some(v) => {
                    &&& old(self)@.contains_key(key@)
                    &&& *v == old(self)@[key@]
                    &&& final(self)@ == old(self)@.insert(key@, *final(v))
                },
                None => !old(self)@.contains_key(key@) && final(self)@ == old(self)@,
            },
    {
        let ghost before = self.entries@;
        match self.position(key) {
            Some(i) => {
                proof {
                    lemma_entry(self.entries@, i as int);
                    assert forall|e: (String, V)| e.0@ == key@ implies distinct_keys(
                        before.update(i as int, e),
                    ) && #[trigger] entries_map(before.update(i as int, e)) == entries_map(
                        before,
                    ).insert(key@, e.1) by {
                        lemma_update(before, i as int, e);
                    }
                }
                let entry = &mut self.entries[i];
                Some(&mut entry.1)
            },
            None => None,
        }
    }

    /// Puts `value` under `key`, in place of what was there.
    pub fn insert(&mut self, key: String, value: V)
        requires
            old(self).wf(),
        ensures
            final(self).wf(),
            final(self)@ == old(self)@.insert(key@, value),
    {
        let ghost before = self.entries@;
        match self.position(key.as_str()) {
            Some(i) => {
                proof {
                    lemma_update(before, i as int, (key, value));
                }
                self.entries[i] = (key, value);
            },
            None => {
                proof {
                    lemma_push(before, (key, value));
                }
                self.entries.push((key, value));
            },
        }
    }

    /// Takes out the entry under `key` and hands back its value.
    pub fn remove(&mut self, key: &str) -> (value: Option<V>)
        requires
            old(self).wf(),
        ensures
            final(self).wf(),
            final(self)@ == old(self)@.remove(key@),
            match value {
                Some(v) => old(self)@.contains_key(key@) && v == old(self)@[key@],
                None => !old(self)@.contains_key(key@),
            },
    {
        let ghost before = self.entries@;
        match self.position(key) {
            Some(i) => {
                proof {
                    lemma_entry(before, i as int);
                    lemma_remove(before, i as int);
                }
                let entry = self.entries.remove(i);
                Some(entry.1)
            },
            None => {
                assert(self@.remove(key@) =~= self@);
                None
            },
        }
    }
}

proof fn lemma_update<V>(entries: Seq<(String, V)>, i: int, e: (String, V))
    requires
        distinct_keys(entries),
        0 <= i < entries.len(),
        e.0@ == entries[i].0@,
    ensures
        distinct_keys(entries.update(i, e)),
        entries_map(entries.update(i, e)) == entries_map(entries).insert(e.0@, e.1),
{
    let after = entries.update(i, e);
    assert forall|a: int, b: int|
        #![trigger after[a], after[b]]
        0 <= a < after.len() && 0 <= b < after.len() && after[a].0@ == after[b].0@ implies a
        == b by {
        assert(after[a].0@ == entries[a].0@);
        assert(after[b].0@ == entries[b].0@);
    }
    let left = entries_map(after);
    let right = entries_map(entries).insert(e.0@, e.1);
    assert forall|key: Seq<char>| left.contains_key(key) == right.contains_key(key) by {
        if left.contains_key(key) {
            let k = choose|k: int| key_at(after, k, key);
            assert(key_at(entries, k, key));
        }
        if right.contains_key(key) {
            assert(key_at(after, i, e.0@));
            if key != e.0@ {
                let k = choose|k: int| key_at(entries, k, key);
                assert(key_at(after, k, key));
            }
        }
    }
    assert forall|key: Seq<char>| left.contains_key(key) implies left[key] == right[key] by {
        let k = choose|k: int| key_at(after, k, key);
        lemma_entry(after, k);
        lemma_entry(entries, k);
    }
    assert(left =~= right);
}

proof fn lemma_push<V>(entries: Seq<(String, V)>, e: (String, V))
    requires
        distinct_keys(entries),
        forall|i: int| !key_at(entries, i, e.0@),
    ensures
        distinct_keys(entries.push(e)),
        entries_map(entries.push(e)) == entries_map(entries).insert(e.0@, e.1),
{
    let after = entries.push(e);
    let n = entries.len() as int;
    assert forall|a: int, b: int|
        #![trigger after[a], after[b]]
        0 <= a < after.len() && 0 <= b < after.len() && after[a].0@ == after[b].0@ implies a
        == b by {
        if a < n && b < n {
            assert(entries[a].0@ == entries[b].0@);
        } else if a < n {
            assert(key_at(entries, a, e.0@));
        } else if b < n {
            assert(key_at(entries, b, e.0@));
        }
    }
    let left = entries_map(after);
    let right = entries_map(entries).insert(e.0@, e.1);
    assert forall|key: Seq<char>| left.contains_key(key) == right.contains_key(key) by {
        if left.contains_key(key) {
            let k = choose|k: int| key_at(after, k, key);
            assert(k == n || key_at(entries, k, key));
        }
        if right.contains_key(key) {
            assert(key_at(after, n, e.0@));
            if key != e.0@ {
                let k = choose|k: int| key_at(entries, k, key);
                assert(key_at(after, k, key));
            }
        }
    }
    assert forall|key: Seq<char>| left.contains_key(key) implies left[key] == right[key] by {
        let k = choose|k: int| key_at(after, k, key);
        lemma_entry(after, k);
        if k < n {
            assert(key_at(entries, k, key));
            lemma_entry(entries, k);
        }
    }
    assert(left =~= right);
}

proof fn lemma_remove<V>(entries: Seq<(String, V)>, i: int)
    requires
        distinct_keys(entries),
        0 <= i < entries.len(),
    ensures
        distinct_keys(entries.remove(i)),
        entries_map(entries.remove(i)) == entries_map(entries).remove(entries[i].0@),
{
    let after = entries.remove(i);
    let gone = entries[i].0@;
    assert forall|a: int, b: int|
        #![trigger after[a], after[b]]
        0 <= a < after.len() && 0 <= b < after.len() && after[a].0@ == after[b].0@ implies a
        == b by {
        let a2 = if a < i { a } else { a + 1 };
        let b2 = if b < i { b } else { b + 1 };
        assert(entries[a2].0@ == entries[b2].0@);
    }
    let left = entries_map(after);
    let right = entries_map(entries).remove(gone);
    assert forall|key: Seq<char>| left.contains_key(key) == right.contains_key(key) by {
        if left.contains_key(key) {
            let k = choose|k: int| key_at(after, k, key);
            let k2 = if k < i { k } else { k + 1 };
            assert(key_at(entries, k2, key));
            assert(entries[k2] == after[k]);
            assert(entries[i].0@ == gone);
        }
        if right.contains_key(key) {
            let k = choose|k: int| key_at(entries, k, key);
            let k2 = if k < i { k } else { k - 1 };
            assert(key_at(after, k2, key));
        }
    }
    assert forall|key: Seq<char>| left.contains_key(key) implies left[key] == right[key] by {
        let k = choose|k: int| key_at(after, k, key);
        let k2 = if k < i { k } else { k + 1 };
        lemma_entry(after, k);
        lemma_entry(entries, k2);
    }
    assert(left =~= right);
}

} // verus!
