//! A small map from texts to values.

use vstd::prelude::*;

use crate::text;
use crate::text::same;

verus! {

/// A map from texts to values, for a handful of entries.
#[verifier::reject_recursive_types(V)]
pub struct Table<V> {
    entries: Vec<(String, V)>,
}

/// Whether no key stands twice.
spec fn unique<V>(entries: Seq<(String, V)>) -> bool {
    forall|i: int, j: int| 0 <= i < j < entries.len() ==> (#[trigger] entries[i]).0@ != (#[trigger] entries[j]).0@
}

/// Whether a key stands among the entries.
spec fn has_key<V>(entries: Seq<(String, V)>, key: Seq<char>) -> bool {
    exists|i: int| 0 <= i < entries.len() && (#[trigger] entries[i]).0@ == key
}

/// The place of a key.
spec fn place<V>(entries: Seq<(String, V)>, key: Seq<char>) -> int {
    choose|i: int| 0 <= i < entries.len() && (#[trigger] entries[i]).0@ == key
}

/// The entries as a map.
spec fn to_map<V>(entries: Seq<(String, V)>) -> Map<Seq<char>, V> {
    Map::new(|key: Seq<char>| has_key(entries, key), |key: Seq<char>| entries[place(entries, key)].1)
}

proof fn lemma_place<V>(entries: Seq<(String, V)>, i: int)
    requires
        unique(entries),
        0 <= i < entries.len(),
    ensures
        has_key(entries, entries[i].0@),
        place(entries, entries[i].0@) == i,
        to_map(entries).contains_key(entries[i].0@),
        to_map(entries)[entries[i].0@] == entries[i].1,
{
    let key = entries[i].0@;
    assert(has_key(entries, key));
    let p = place(entries, key);
    assert(0 <= p < entries.len() && entries[p].0@ == key);
    if p < i {
        assert(entries[p].0@ != entries[i].0@);
    } else if i < p {
        assert(entries[i].0@ != entries[p].0@);
    }
}

impl<V> View for Table<V> {
    type V = Map<Seq<char>, V>;

    closed spec fn view(&self) -> Map<Seq<char>, V> {
        to_map(self.entries@)
    }
}

impl<V> Table<V> {
    /// No key stands twice.
    pub closed spec fn wf(&self) -> bool {
        unique(self.entries@)
    }

    /// The keys in the order in which they are kept.
    pub closed spec fn keys(&self) -> Seq<Seq<char>> {
        self.entries@.map_values(|e: (String, V)| e.0@)
    }

    /// The keys are those of the map, each once.
    pub proof fn lemma_keys(&self)
        requires
            self.wf(),
        ensures
            self.keys().no_duplicates(),
            forall|key: Seq<char>| self.keys().contains(key) <==> self@.contains_key(key),
    {
        assert forall|key: Seq<char>| self.keys().contains(key) <==> self@.contains_key(key) by {
            if self.keys().contains(key) {
                let i = choose|i: int| 0 <= i < self.keys().len() && self.keys()[i] == key;
                assert(self.entries@[i].0@ == key);
            }
            if self@.contains_key(key) {
                let i = place(self.entries@, key);
                assert(self.keys()[i] == key);
            }
        }
    }

    /// An empty map.
    pub fn new() -> (t: Table<V>)
        ensures
            t.wf(),
            t@ == Map::<Seq<char>, V>::empty(),
    {
        let t = Table { entries: Vec::new() };
        proof {
            assert(t@ =~= Map::<Seq<char>, V>::empty());
        }
        t
    }

    /// The place of a key; the number of entries where it is missing.
    fn find(&self, key: &str) -> (r: usize)
        requires
            self.wf(),
        ensures
            r <= self.entries@.len(),
            r < self.entries@.len() ==> self.entries@[r as int].0@ == key@,
            self@.contains_key(key@) <==> r < self.entries@.len(),
            self@.contains_key(key@) ==> self@[key@] == self.entries@[r as int].1,
    {
        let mut i: usize = 0;
        while i < self.entries.len()
            invariant
                self.wf(),
                i <= self.entries@.len(),
                forall|k: int| 0 <= k < i ==> (#[trigger] self.entries@[k]).0@ != key@,
            decreases self.entries@.len() - i,
        {
            if same(self.entries[i].0.as_str(), key) {
                proof {
                    lemma_place(self.entries@, i as int);
                }
                return i;
            }
            i += 1;
        }
        i
    }

    /// The number of entries.
    pub fn len(&self) -> (n: usize)
        ensures
            n == self.keys().len(),
    {
        self.entries.len()
    }

    /// Whether a key has a value.
    pub fn contains_key(&self, key: &str) -> (r: bool)
        requires
            self.wf(),
        ensures
            r == self@.contains_key(key@),
    {
        self.find(key) < self.entries.len()
    }

    /// The value of a key.
    pub fn get(&self, key: &str) -> (r: Option<&V>)
        requires
            self.wf(),
        ensures
            match r {
                Some(v) => self@.contains_key(key@) && *v == self@[key@],
                None => !self@.contains_key(key@),
            },
    {
        let i: usize = self.find(key);
        if i < self.entries.len() {
            Some(&self.entries[i].1)
        } else {
            None
        }
    }

    /// The key at a place.
    pub fn key_at(&self, i: usize) -> (r: &String)
        requires
            i < self.keys().len(),
        ensures
            r@ == self.keys()[i as int],
    {
        &self.entries[i].0
    }

    /// The value of the key at a place.
    pub fn value_at(&self, i: usize) -> (r: &V)
        requires
            self.wf(),
            i < self.keys().len(),
        ensures
            self@.contains_key(self.keys()[i as int]),
            *r == self@[self.keys()[i as int]],
    {
        proof {
            lemma_place(self.entries@, i as int);
        }
        &self.entries[i].1
    }

    /// Gives a key a value, and hands back the one it had.
    pub fn insert(&mut self, key: String, value: V) -> (r: Option<V>)
        requires
            old(self).wf(),
        ensures
            final(self).wf(),
            final(self)@ == old(self)@.insert(key@, value),
            match r {
                Some(v) => old(self)@.contains_key(key@) && v == old(self)@[key@],
                None => !old(self)@.contains_key(key@),
            },
    {
        let previous = self.remove(key.as_str());
        let ghost before = self.entries@;
        let ghost kv = key@;
        proof {
            assert(!to_map(before).contains_key(kv));
        }
        self.entries.push((key, value));
        proof {
            let now = self.entries@;
            assert(now =~= before.push(now.last()));
            assert forall|i: int, j: int| 0 <= i < j < now.len() implies (#[trigger] now[i]).0@ != (#[trigger] now[j]).0@ by {
                if j == before.len() {
                    if before[i].0@ == kv {
                        assert(has_key(before, kv));
                    }
                }
            }
            assert(unique(now));
            lemma_place(now, before.len() as int);
            assert forall|k: Seq<char>| has_key(now, k) <==> has_key(before, k) || k == kv by {
                if has_key(before, k) {
                    let i = place(before, k);
                    assert(now[i].0@ == k);
                }
                if has_key(now, k) {
                    let i = place(now, k);
                    if i < before.len() {
                        assert(before[i].0@ == k);
                    }
                }
            }
            assert forall|k: Seq<char>| has_key(before, k) && k != kv implies to_map(now)[k] == to_map(before)[k] by {
                let i = place(before, k);
                assert(now[i].0@ == k);
                lemma_place(now, i);
            }
            assert(to_map(now) =~= to_map(before).insert(kv, value));
            assert(self@ =~= old(self)@.insert(kv, value));
        }
        previous
    }

    /// Takes a key's value away and hands it over.
    pub fn remove(&mut self, key: &str) -> (r: Option<V>)
        requires
            old(self).wf(),
        ensures
            final(self).wf(),
            final(self)@ == old(self)@.remove(key@),
            match r {
                Some(v) => old(self)@.contains_key(key@) && v == old(self)@[key@],
                None => !old(self)@.contains_key(key@),
            },
    {
        let i: usize = self.find(key);
        if i >= self.entries.len() {
            proof {
                assert(self@ =~= old(self)@.remove(key@));
            }
            return None;
        }
        let ghost before = self.entries@;
        let (_, value) = self.entries.remove(i);
        proof {
            let now = self.entries@;
            assert(now =~= before.remove(i as int));
            assert forall|a: int, b: int| 0 <= a < b < now.len() implies (#[trigger] now[a]).0@ != (#[trigger] now[b]).0@ by {
                let a0 = if a < i {
                    a
                } else {
                    a + 1
                };
                let b0 = if b < i {
                    b
                } else {
                    b + 1
                };
                assert(before[a0].0@ != before[b0].0@);
            }
            assert(unique(now));
            assert forall|k: Seq<char>| has_key(now, k) <==> has_key(before, k) && k != key@ by {
                if has_key(now, k) {
                    let a = place(now, k);
                    let a0 = if a < i {
                        a
                    } else {
                        a + 1
                    };
                    assert(before[a0].0@ == k);
                    if k == key@ {
                        if a0 < i {
                            assert(before[a0].0@ != before[i as int].0@);
                        } else {
                            assert(before[i as int].0@ != before[a0].0@);
                        }
                    }
                }
                if has_key(before, k) && k != key@ {
                    let a = place(before, k);
                    let a1 = if a < i {
                        a
                    } else {
                        a - 1
                    };
                    assert(now[a1].0@ == k);
                }
            }
            assert forall|k: Seq<char>| has_key(now, k) implies to_map(now)[k] == to_map(before)[k] by {
                let a = place(now, k);
                let a0 = if a < i {
                    a
                } else {
                    a + 1
                };
                assert(before[a0].0@ == k);
                lemma_place(before, a0);
                lemma_place(now, a);
            }
            assert(self@ =~= old(self)@.remove(key@));
        }
        Some(value)
    }
}

} // verus!
