//! A small map from strings to values that keeps each key once, used for
//! what the app remembers between refreshes.

use vstd::prelude::*;

use crate::text::str_eq;

verus! {

/// Entries keyed by string, each key at most once.
pub struct KeyedList<V> {
    entries: Vec<(String, V)>,
}

pub open spec fn keys_unique<V>(e: Seq<(String, V)>) -> bool {
    forall|a: int, b: int|
        0 <= a < e.len() && 0 <= b < e.len() && a != b ==> (#[trigger] e[a]).0@ != (#[trigger] e[b]).0@
}

pub open spec fn has_key<V>(e: Seq<(String, V)>, k: Seq<char>) -> bool {
    exists|i: int| 0 <= i < e.len() && (#[trigger] e[i]).0@ == k
}

pub open spec fn entries_map<V: View>(e: Seq<(String, V)>) -> Map<Seq<char>, V::V> {
    Map::new(
        |k: Seq<char>| has_key(e, k),
        |k: Seq<char>| e[choose|i: int| 0 <= i < e.len() && (#[trigger] e[i]).0@ == k].1@,
    )
}

proof fn lemma_entry<V: View>(e: Seq<(String, V)>, i: int)
    requires
        keys_unique(e),
        0 <= i < e.len(),
    ensures
        entries_map(e).contains_key(e[i].0@),
        entries_map(e)[e[i].0@] == e[i].1@,
{
    let k = e[i].0@;
    assert(has_key(e, k));
    let j = choose|j: int| 0 <= j < e.len() && (#[trigger] e[j]).0@ == k;
    assert(j == i);
}

impl<V> KeyedList<V> {
    #[verifier::type_invariant]
    spec fn inv(&self) -> bool {
        keys_unique(self.entries@)
    }
}

impl<V: View> KeyedList<V> {
    pub closed spec fn to_map(&self) -> Map<Seq<char>, V::V> {
        entries_map(self.entries@)
    }

    pub fn new() -> (res: Self)
        ensures
            res.to_map() == Map::<Seq<char>, V::V>::empty(),
    {
        let res = KeyedList { entries: Vec::new() };
        assert(res.to_map() =~= Map::<Seq<char>, V::V>::empty());
        res
    }

    fn find(&self, key: &str) -> (res: Option<usize>)
        ensures
            match res {
                Some(i) => i < self.entries@.len() && self.entries@[i as int].0@ == key@,
                None => !has_key(self.entries@, key@),
            },
    {
        let mut i: usize = 0;
        while i < self.entries.len()
            invariant
                i <= self.entries@.len(),
                forall|j: int| 0 <= j < i ==> (#[trigger] self.entries@[j]).0@ != key@,
            decreases self.entries@.len() - i,
        {
            if str_eq(self.entries[i].0.as_str(), key) {
                return Some(i);
            }
            i += 1;
        }
        None
    }

    pub fn get(&self, key: &str) -> (res: Option<&V>)
        ensures
            match res {
                Some(v) => self.to_map().contains_key(key@) && self.to_map()[key@] == v@,
                None => !self.to_map().contains_key(key@),
            },
    {
        proof {
            use_type_invariant(self);
        }
        match self.find(key) {
            Some(i) => {
                proof {
                    lemma_entry(self.entries@, i as int);
                }
                Some(&self.entries[i].1)
            },
            None => None,
        }
    }

    /// Sets the value for `key`, giving back the one it replaces.
    pub fn insert(&mut self, key: String, value: V) -> (prev: Option<V>)
        ensures
            final(self).to_map() == old(self).to_map().insert(key@, value@),
            match prev {
                Some(p) => old(self).to_map().contains_key(key@) && old(self).to_map()[key@] == p@,
                None => !old(self).to_map().contains_key(key@),
            },
    {
        proof {
            use_type_invariant(&*self);
        }
        let ghost before = self.entries@;
        let found = self.find(key.as_str());
        let mut entries: Vec<(String, V)> = Vec::new();
        std::mem::swap(&mut entries, &mut self.entries);
        assert(entries@ == before);
        match found {
            Some(i) => {
                proof {
                    lemma_entry(before, i as int);
                }
                let (_, old_value) = entries.remove(i);
                entries.insert(i, (key, value));
                proof {
                    let after = entries@;
                    assert(after == before.update(i as int, after[i as int]));
                    assert(entries_map(after) =~= entries_map(before).insert(key@, value@)) by {
                        assert forall|k: Seq<char>| #[trigger] has_key(after, k) == (has_key(before, k) || k == key@) by {
                            if has_key(before, k) {
                                let j = choose|j: int| 0 <= j < before.len() && (#[trigger] before[j]).0@ == k;
                                if j == i {
                                    assert(after[j].0@ == k);
                                } else {
                                    assert(after[j] == before[j]);
                                }
                            }
                            if has_key(after, k) {
                                let j = choose|j: int| 0 <= j < after.len() && (#[trigger] after[j]).0@ == k;
                                if j != i {
                                    assert(before[j] == after[j]);
                                }
                            }
                            if k == key@ {
                                assert(after[i as int].0@ == k);
                            }
                        }
                        assert forall|k: Seq<char>| #[trigger] has_key(after, k) implies entries_map(after)[k]
                            == entries_map(before).insert(key@, value@)[k] by {
                            let j = choose|j: int| 0 <= j < after.len() && (#[trigger] after[j]).0@ == k;
                            lemma_entry(after, j);
                            if j != i {
                                assert(before[j] == after[j]);
                                lemma_entry(before, j);
                            }
                        }
                    }
                    assert(keys_unique(after)) by {
                        assert forall|a: int, b: int|
                            0 <= a < after.len() && 0 <= b < after.len() && a != b implies (#[trigger] after[a]).0@
                            != (#[trigger] after[b]).0@ by {
                            if a != i {
                                assert(after[a] == before[a]);
                            }
                            if b != i {
                                assert(after[b] == before[b]);
                            }
                        }
                    }
                }
                self.entries = entries;
                Some(old_value)
            },
            None => {
                entries.push((key, value));
                proof {
                    let after = entries@;
                    assert(entries_map(after) =~= entries_map(before).insert(key@, value@)) by {
                        assert forall|k: Seq<char>| #[trigger] has_key(after, k) == (has_key(before, k) || k == key@) by {
                            if has_key(before, k) {
                                let j = choose|j: int| 0 <= j < before.len() && (#[trigger] before[j]).0@ == k;
                                assert(after[j] == before[j]);
                            }
                            if has_key(after, k) {
                                let j = choose|j: int| 0 <= j < after.len() && (#[trigger] after[j]).0@ == k;
                                if j < before.len() {
                                    assert(before[j] == after[j]);
                                }
                            }
                            if k == key@ {
                                assert(after[before.len() as int].0@ == k);
                            }
                        }
                        assert forall|k: Seq<char>| #[trigger] has_key(after, k) implies entries_map(after)[k]
                            == entries_map(before).insert(key@, value@)[k] by {
                            let j = choose|j: int| 0 <= j < after.len() && (#[trigger] after[j]).0@ == k;
                            lemma_entry(after, j);
                            if j < before.len() {
                                assert(before[j] == after[j]);
                                lemma_entry(before, j);
                            }
                        }
                    }
                    assert(keys_unique(after)) by {
                        assert forall|a: int, b: int|
                            0 <= a < after.len() && 0 <= b < after.len() && a != b implies (#[trigger] after[a]).0@
                            != (#[trigger] after[b]).0@ by {
                            if a < before.len() {
                                assert(after[a] == before[a]);
                            } else {
                                assert(!has_key(before, key@));
                            }
                            if b < before.len() {
                                assert(after[b] == before[b]);
                            }
                        }
                    }
                }
                self.entries = entries;
                None
            },
        }
    }
}

} // verus!
