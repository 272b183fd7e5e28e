//! A small map keyed by strings, kept as a list of distinct keys.
use vstd::prelude::*;

use crate::text::str_eq;

verus! {

/// Whether some entry of `entries` has the key `k`.
pub open spec fn has_key<V>(entries: Seq<(String, V)>, k: Seq<char>) -> bool {
    exists|i: int| 0 <= i < entries.len() && (#[trigger] entries[i]).0@ == k
}

/// The position of the entry with key `k`.
pub open spec fn index_of<V>(entries: Seq<(String, V)>, k: Seq<char>) -> int {
    choose|i: int| 0 <= i < entries.len() && (#[trigger] entries[i]).0@ == k
}

/// No two entries share a key.
pub open spec fn distinct_keys<V>(entries: Seq<(String, V)>) -> bool {
    forall|i: int, j: int|
        0 <= i < entries.len() && 0 <= j < entries.len() && i != j ==> (#[trigger] entries[i]).0@
            != (#[trigger] entries[j]).0@
}

/// The map that a list of entries with distinct keys stands for.
pub open spec fn entries_map<V: DeepView>(entries: Seq<(String, V)>) -> Map<Seq<char>, V::V> {
    Map::new(|k: Seq<char>| has_key(entries, k), |k: Seq<char>| entries[index_of(entries, k)].1.deep_view())
}

proof fn lemma_index_of<V>(entries: Seq<(String, V)>, i: int)
    requires
        distinct_keys(entries),
        0 <= i < entries.len(),
    ensures
        has_key(entries, entries[i].0@),
        index_of(entries, entries[i].0@) == i,
{
    assert(has_key(entries, entries[i].0@));
}

/// A map keyed by strings.
pub struct StrMap<V> {
    entries: Vec<(String, V)>,
}

impl<V: DeepView> View for StrMap<V> {
    type V = Map<Seq<char>, V::V>;

    closed spec fn view(&self) -> Map<Seq<char>, V::V> {
        entries_map(self.entries@)
    }
}

impl<V> StrMap<V> {
    #[verifier::type_invariant]
    spec fn keys_distinct(self) -> bool {
        distinct_keys(self.entries@)
    }
}

impl<V: DeepView> StrMap<V> {
    /// The entries, each key once, in some order.
    pub closed spec fn spec_entries(&self) -> Seq<(String, V)> {
        self.entries@
    }

    /// The empty map.
    pub fn new() -> (r: Self)
        ensures
            r@ == Map::<Seq<char>, V::V>::empty(),
    {
        let r = StrMap { entries: Vec::new() };
        assert(r@ =~= Map::<Seq<char>, V::V>::empty());
        r
    }

    fn find(&self, key: &str) -> (r: Option<usize>)
        ensures
            match r {
                Some(i) => i < self.entries@.len() && self.entries@[i as int].0@ == key@,
                None => !has_key(self.entries@, key@),
            },
    {
        let mut i: usize = 0;
        while i < self.entries.len()
            invariant
                i <= self.entries@.len(),
                forall|j: int| 0 <= j < i ==> (#[trigger] self.entries@[j]).0@ != key@,
            decreases self.entries@.len() - i,
        {
            if str_eq(self.entries[i].0.as_str(), key) {
                return Some(i);
            }
            i += 1;
        }
        None
    }

    /// The entries, each key once, in some order.
    pub fn entries(&self) -> (r: &[(String, V)])
        ensures
            r@ == self.spec_entries(),
            distinct_keys(r@),
            self@ == entries_map(r@),
    {
        proof {
            use_type_invariant(self);
        }
        self.entries.as_slice()
    }

    /// The value under `key`, if any.
    pub fn get(&self, key: &str) -> (r: Option<&V>)
        ensures
            match r {
                Some(v) => self@.contains_key(key@) && self@[key@] == v.deep_view(),
                None => !self@.contains_key(key@),
            },
    {
        proof {
            use_type_invariant(self);
        }
        match self.find(key) {
            Some(i) => {
                proof {
                    lemma_index_of(self.entries@, i as int);
                }
                Some(&self.entries[i].1)
            },
            None => None,
        }
    }

    /// Puts `value` under `key`, replacing what was there.
    pub fn insert(&mut self, key: String, value: V)
        ensures
            final(self)@ == old(self)@.insert(key@, value.deep_view()),
    {
        proof {
            use_type_invariant(&*self);
        }
        let found = self.find(key.as_str());
        let mut entries: Vec<(String, V)> = Vec::new();
        std::mem::swap(&mut entries, &mut self.entries);
        let ghost old_entries = entries@;
        let ghost k = key@;
        let ghost v = value.deep_view();
        match found {
            Some(i) => {
                entries.set(i, (key, value));
                proof {
                    let new_entries = entries@;
                    assert(new_entries == old_entries.update(i as int, new_entries[i as int]));
                    assert(distinct_keys(new_entries)) by {
                        assert forall|a: int, b: int|
                            0 <= a < new_entries.len() && 0 <= b < new_entries.len() && a != b
                                implies (#[trigger] new_entries[a]).0@ != (
                        #[trigger] new_entries[b]).0@ by {
                            if a != i && b != i {
                                assert(old_entries[a] == new_entries[a]);
                                assert(old_entries[b] == new_entries[b]);
                            } else if a == i {
                                assert(old_entries[b] == new_entries[b]);
                            } else {
                                assert(old_entries[a] == new_entries[a]);
                            }
                        }
                    }
                    lemma_index_of(new_entries, i as int);
                    assert(entries_map(new_entries) =~= entries_map(old_entries).insert(k, v)) by {
                        assert forall|x: Seq<char>| #[trigger]
                            has_key(new_entries, x) <==> (has_key(old_entries, x) || x == k) by {
                            if has_key(new_entries, x) {
                                let j = choose|j: int|
                                    0 <= j < new_entries.len() && (#[trigger] new_entries[j]).0@
                                        == x;
                                if j != i {
                                    assert(old_entries[j] == new_entries[j]);
                                }
                            }
                            if has_key(old_entries, x) {
                                let j = choose|j: int|
                                    0 <= j < old_entries.len() && (#[trigger] old_entries[j]).0@
                                        == x;
                                if j != i {
                                    assert(old_entries[j] == new_entries[j]);
                                } else {
                                    assert(new_entries[i as int].0@ == x);
                                }
                            }
                        }
                        assert forall|x: Seq<char>| #[trigger]
                            has_key(new_entries, x) && x != k implies new_entries[index_of(
                            new_entries,
                            x,
                        )].1.deep_view() == old_entries[index_of(old_entries, x)].1.deep_view() by {
                            let j = choose|j: int|
                                0 <= j < new_entries.len() && (#[trigger] new_entries[j]).0@ == x;
                            assert(j != i);
                            assert(old_entries[j] == new_entries[j]);
                            lemma_index_of(new_entries, j);
                            lemma_index_of(old_entries, j);
                        }
                    }
                }
            },
            None => {
                entries.push((key, value));
                proof {
                    let new_entries = entries@;
                    let n = old_entries.len() as int;
                    assert(distinct_keys(new_entries)) by {
                        assert forall|a: int, b: int|
                            0 <= a < new_entries.len() && 0 <= b < new_entries.len() && a != b
                                implies (#[trigger] new_entries[a]).0@ != (
                        #[trigger] new_entries[b]).0@ by {
                            if a < n && b < n {
                                assert(old_entries[a] == new_entries[a]);
                                assert(old_entries[b] == new_entries[b]);
                            } else if a == n {
                                assert(old_entries[b] == new_entries[b]);
                            } else {
                                assert(old_entries[a] == new_entries[a]);
                            }
                        }
                    }
                    lemma_index_of(new_entries, n);
                    assert(entries_map(new_entries) =~= entries_map(old_entries).insert(k, v)) by {
                        assert forall|x: Seq<char>| #[trigger]
                            has_key(new_entries, x) <==> (has_key(old_entries, x) || x == k) by {
                            if has_key(new_entries, x) {
                                let j = choose|j: int|
                                    0 <= j < new_entries.len() && (#[trigger] new_entries[j]).0@
                                        == x;
                                if j < n {
                                    assert(old_entries[j] == new_entries[j]);
                                }
                            }
                            if has_key(old_entries, x) {
                                let j = choose|j: int|
                                    0 <= j < old_entries.len() && (#[trigger] old_entries[j]).0@
                                        == x;
                                assert(old_entries[j] == new_entries[j]);
                            }
                        }
                        assert forall|x: Seq<char>| #[trigger]
                            has_key(new_entries, x) && x != k implies new_entries[index_of(
                            new_entries,
                            x,
                        )].1.deep_view() == old_entries[index_of(old_entries, x)].1.deep_view() by {
                            let j = choose|j: int|
                                0 <= j < new_entries.len() && (#[trigger] new_entries[j]).0@ == x;
                            assert(j != n);
                            assert(old_entries[j] == new_entries[j]);
                            lemma_index_of(new_entries, j);
                            lemma_index_of(old_entries, j);
                        }
                    }
                }
            },
        }
        *self = StrMap { entries };
    }

    /// Takes out the value under `key`, if any.
    pub fn remove(&mut self, key: &str) -> (r: Option<V>)
        ensures
            final(self)@ == old(self)@.remove(key@),
            match r {
                Some(v) => old(self)@.contains_key(key@) && old(self)@[key@] == v.deep_view(),
                None => !old(self)@.contains_key(key@),
            },
    {
        proof {
            use_type_invariant(&*self);
        }
        let found = self.find(key);
        match found {
            Some(i) => {
                let mut entries: Vec<(String, V)> = Vec::new();
                std::mem::swap(&mut entries, &mut self.entries);
                let ghost old_entries = entries@;
                proof {
                    lemma_index_of(old_entries, i as int);
                }
                let (_, value) = entries.remove(i);
                proof {
                    let new_entries = entries@;
                    let k = key@;
                    assert forall|j: int| 0 <= j < new_entries.len() implies #[trigger] new_entries[j]
                        == old_entries[if j < i {
                        j
                    } else {
                        j + 1
                    }] by {}
                    assert(distinct_keys(new_entries)) by {
                        assert forall|a: int, b: int|
                            0 <= a < new_entries.len() && 0 <= b < new_entries.len() && a != b
                                implies (#[trigger] new_entries[a]).0@ != (
                        #[trigger] new_entries[b]).0@ by {
                            let oa = if a < i {
                                a
                            } else {
                                a + 1
                            };
                            let ob = if b < i {
                                b
                            } else {
                                b + 1
                            };
                            assert(new_entries[a] == old_entries[oa]);
                            assert(new_entries[b] == old_entries[ob]);
                        }
                    }
                    assert(entries_map(new_entries) =~= entries_map(old_entries).remove(k)) by {
                        assert forall|x: Seq<char>| #[trigger]
                            has_key(new_entries, x) <==> (has_key(old_entries, x) && x != k) by {
                            if has_key(new_entries, x) {
                                let j = choose|j: int|
                                    0 <= j < new_entries.len() && (#[trigger] new_entries[j]).0@
                                        == x;
                                let oj = if j < i {
                                    j
                                } else {
                                    j + 1
                                };
                                assert(new_entries[j] == old_entries[oj]);
                                assert(oj != i);
                            }
                            if has_key(old_entries, x) && x != k {
                                let j = choose|j: int|
                                    0 <= j < old_entries.len() && (#[trigger] old_entries[j]).0@
                                        == x;
                                assert(j != i);
                                let nj = if j < i {
                                    j
                                } else {
                                    j - 1
                                };
                                assert(new_entries[nj] == old_entries[j]);
                            }
                        }
                        assert forall|x: Seq<char>| #[trigger]
                            has_key(new_entries, x) implies new_entries[index_of(
                            new_entries,
                            x,
                        )].1.deep_view() == old_entries[index_of(old_entries, x)].1.deep_view() by {
                            let j = choose|j: int|
                                0 <= j < new_entries.len() && (#[trigger] new_entries[j]).0@ == x;
                            let oj = if j < i {
                                j
                            } else {
                                j + 1
                            };
                            assert(new_entries[j] == old_entries[oj]);
                            lemma_index_of(new_entries, j);
                            lemma_index_of(old_entries, oj);
                        }
                    }
                }
                *self = StrMap { entries };
                Some(value)
            },
            None => {
                assert(old(self)@.remove(key@) =~= old(self)@);
                None
            },
        }
    }
}

} // verus!
