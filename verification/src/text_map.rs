//! A map from texts to values, in the order in which the texts came.
use vstd::prelude::*;

use crate::text::str_eq;

verus! {

pub struct TextMap<V> {
    pub entries: Vec<(String, V)>,
}

impl<V> View for TextMap<V> {
    type V = Map<Seq<char>, V>;

    open spec fn view(&self) -> Map<Seq<char>, V> {
        Map::new(|key: Seq<char>| self.has(key), |key: Seq<char>| self.at(key))
    }
}

impl<V> TextMap<V> {
    /// No text occurs twice.
    pub open spec fn wf(&self) -> bool {
        forall|i: int, j: int|
            0 <= i < j < self.entries@.len() ==> (#[trigger] self.entries@[i]).0@ != (
            #[trigger] self.entries@[j]).0@
    }

    /// Whether entry `i` is that of `key`.
    pub open spec fn is_at(&self, key: Seq<char>, i: int) -> bool {
        0 <= i < self.entries@.len() && self.entries@[i].0@ == key
    }

    pub open spec fn has(&self, key: Seq<char>) -> bool {
        exists|i: int| self.is_at(key, i)
    }

    pub open spec fn at(&self, key: Seq<char>) -> V {
        self.entries@[choose|i: int| self.is_at(key, i)].1
    }

    /// Entry `i` is what its own key finds.
    pub proof fn entry_is_found(&self, i: int)
        requires
            self.wf(),
            0 <= i < self.entries@.len(),
        ensures
            self.has(self.entries@[i].0@),
            self.at(self.entries@[i].0@) == self.entries@[i].1,
    {
        let key = self.entries@[i].0@;
        assert(self.is_at(key, i));
        let k = choose|k: int| self.is_at(key, k);
        assert(self.is_at(key, k));
        if k < i {
            assert(self.entries@[k].0@ != self.entries@[i].0@);
        } else if i < k {
            assert(self.entries@[i].0@ != self.entries@[k].0@);
        }
    }

    /// The texts.
    pub open spec fn keys(&self) -> Set<Seq<char>> {
        self.entries@.map_values(|entry: (String, V)| entry.0@).to_set()
    }

    /// There are as many texts as entries, and they are those that are found.
    pub proof fn keys_are_counted(&self)
        requires
            self.wf(),
        ensures
            self.keys().finite(),
            self.keys().len() == self.entries@.len(),
            forall|key: Seq<char>| #[trigger] self.keys().contains(key) == self.has(key),
    {
        let keys = self.entries@.map_values(|entry: (String, V)| entry.0@);
        assert(keys.no_duplicates()) by {
            assert forall|i: int, j: int| 0 <= i < keys.len() && 0 <= j < keys.len() && i
                != j implies keys[i] != keys[j] by {
                if i < j {
                    assert(self.entries@[i].0@ != self.entries@[j].0@);
                } else {
                    assert(self.entries@[j].0@ != self.entries@[i].0@);
                }
            }
        }
        keys.unique_seq_to_set();
        assert forall|key: Seq<char>| #[trigger] self.keys().contains(key) == self.has(key) by {
            if self.has(key) {
                let i = choose|i: int| self.is_at(key, i);
                assert(keys[i] == key);
            }
            if self.keys().contains(key) {
                let i = choose|i: int| 0 <= i < keys.len() && keys[i] == key;
                assert(self.is_at(key, i));
            }
        }
    }

    pub fn new() -> (r: Self)
        ensures
            r.wf(),
            r.entries@.len() == 0,
            forall|key: Seq<char>| !#[trigger] r.has(key),
            r@ == Map::<Seq<char>, V>::empty(),
    {
        TextMap { entries: Vec::new() }
    }

    /// Where the entry of `key` stands.
    pub fn find(&self, key: &str) -> (r: Option<usize>)
        requires
            self.wf(),
        ensures
            match r {
                Some(i) => {
                    &&& self.is_at(key@, i as int)
                    &&& self.has(key@)
                    &&& self.at(key@) == self.entries@[i as int].1
                },
                None => !self.has(key@),
            },
    {
        for i in 0..self.entries.len()
            invariant
                self.wf(),
                forall|j: int| 0 <= j < i ==> !#[trigger] self.is_at(key@, j),
        {
            if str_eq(self.entries[i].0.as_str(), key) {
                proof {
                    self.entry_is_found(i as int);
                }
                return Some(i);
            }
        }
        None
    }

    pub fn get(&self, key: &str) -> (r: Option<&V>)
        requires
            self.wf(),
        ensures
            match r {
                Some(value) => self.has(key@) && *value == self.at(key@),
                None => !self.has(key@),
            },
    {
        match self.find(key) {
            Some(i) => Some(&self.entries[i].1),
            None => None,
        }
    }

    pub fn contains_key(&self, key: &str) -> (r: bool)
        requires
            self.wf(),
        ensures
            r == self.has(key@),
    {
        match self.find(key) {
            Some(_) => true,
            None => false,
        }
    }

    pub fn len(&self) -> (r: usize)
        ensures
            r == self.entries@.len(),
    {
        self.entries.len()
    }

    /// Whether `after` is this map with `key` set to `value`.
    pub open spec fn with(&self, key: Seq<char>, value: V, after: &Self) -> bool {
        &&& after.wf()
        &&& after.has(key)
        &&& after.at(key) == value
        &&& forall|other: Seq<char>|
            #![trigger after.has(other)]
            #![trigger self.has(other)]
            other != key ==> after.has(other) == self.has(other)
        &&& forall|other: Seq<char>|
            #![trigger after.at(other)]
            #![trigger self.at(other)]
            other != key && self.has(other) ==> after.at(other) == self.at(other)
    }

    /// Sets the value of `key`; an entry that is there already keeps its place.
    pub fn insert(&mut self, key: String, value: V)
        requires
            old(self).wf(),
        ensures
            old(self).with(key@, value, final(self)),
            final(self)@ == old(self)@.insert(key@, value),
            final(self).entries@.len() == old(self).entries@.len() + (if old(self).has(key@) {
                0int
            } else {
                1int
            }),
    {
        let ghost before = *self;
        match self.find(key.as_str()) {
            Some(i) => {
                self.entries.set(i, (key, value));
                proof {
                    assert(self.entries@ =~= before.entries@.update(i as int, (key, value)));
                    self.entry_is_found(i as int);
                    assert forall|other: Seq<char>| other != key@ implies self.has(other)
                        == before.has(other) && (before.has(other) ==> self.at(other) == before.at(
                        other,
                    )) by {
                        if before.has(other) {
                            let k = choose|k: int| before.is_at(other, k);
                            before.entry_is_found(k);
                            self.entry_is_found(k);
                        }
                        if self.has(other) {
                            let k = choose|k: int| self.is_at(other, k);
                            assert(before.is_at(other, k));
                        }
                    }
                }
            },
            None => {
                self.entries.push((key, value));
                proof {
                    let n = before.entries@.len() as int;
                    assert(self.entries@ =~= before.entries@.push((key, value)));
                    assert forall|i: int, j: int| 0 <= i < j < self.entries@.len() implies (
                    #[trigger] self.entries@[i]).0@ != (#[trigger] self.entries@[j]).0@ by {
                        if j == n {
                            assert(!before.is_at(key@, i));
                        } else {
                            assert(before.entries@[i].0@ != before.entries@[j].0@);
                        }
                    }
                    self.entry_is_found(n);
                    assert forall|other: Seq<char>| other != key@ implies self.has(other)
                        == before.has(other) && (before.has(other) ==> self.at(other) == before.at(
                        other,
                    )) by {
                        if before.has(other) {
                            let k = choose|k: int| before.is_at(other, k);
                            before.entry_is_found(k);
                            self.entry_is_found(k);
                        }
                        if self.has(other) {
                            let k = choose|k: int| self.is_at(other, k);
                            assert(before.is_at(other, k));
                        }
                    }
                }
            },
        }
    }

    /// Takes the entry of `key` out.
    pub fn remove(&mut self, key: &str) -> (r: Option<V>)
        requires
            old(self).wf(),
        ensures
            final(self).wf(),
            match r {
                Some(value) => old(self).has(key@) && value == old(self).at(key@),
                None => !old(self).has(key@),
            },
            final(self)@ == old(self)@.remove(key@),
            !final(self).has(key@),
            forall|other: Seq<char>|
                #![trigger final(self).has(other)]
                #![trigger old(self).has(other)]
                other != key@ ==> final(self).has(other) == old(self).has(other),
            forall|other: Seq<char>|
                #![trigger final(self).at(other)]
                #![trigger old(self).at(other)]
                other != key@ && old(self).has(other) ==> final(self).at(other) == old(self).at(
                    other,
                ),
    {
        let ghost before = *self;
        match self.find(key) {
            Some(i) => {
                let (_, value) = self.entries.remove(i);
                proof {
                    assert(self.entries@ =~= before.entries@.remove(i as int));
                    assert forall|a: int, b: int| 0 <= a < b < self.entries@.len() implies (
                    #[trigger] self.entries@[a]).0@ != (#[trigger] self.entries@[b]).0@ by {
                        let x = if a < i {
                            a
                        } else {
                            a + 1
                        };
                        let y = if b < i {
                            b
                        } else {
                            b + 1
                        };
                        assert(before.entries@[x].0@ != before.entries@[y].0@);
                    }
                    assert forall|k: int| !self.is_at(key@, k) by {
                        if self.is_at(key@, k) {
                            let x = if k < i {
                                k
                            } else {
                                k + 1
                            };
                            let lo = if x < i {
                                x
                            } else {
                                i as int
                            };
                            let hi = if x < i {
                                i as int
                            } else {
                                x
                            };
                            assert(before.entries@[lo].0@ != before.entries@[hi].0@);
                        }
                    }
                    assert forall|other: Seq<char>| other != key@ implies self.has(other)
                        == before.has(other) && (before.has(other) ==> self.at(other) == before.at(
                        other,
                    )) by {
                        if before.has(other) {
                            let k = choose|k: int| before.is_at(other, k);
                            before.entry_is_found(k);
                            let x = if k < i {
                                k
                            } else {
                                k - 1
                            };
                            assert(self.is_at(other, x));
                            self.entry_is_found(x);
                        }
                        if self.has(other) {
                            let k = choose|k: int| self.is_at(other, k);
                            let x = if k < i {
                                k
                            } else {
                                k + 1
                            };
                            assert(before.is_at(other, x));
                        }
                    }
                }
                Some(value)
            },
            None => None,
        }
    }

    /// A change of the value of entry `i` changes nothing else, and neither does
    /// one on top of an entry that was just added to `before`.
    pub proof fn changing_a_value(&self, i: int, before: &Self)
        requires
            self.wf(),
            0 <= i < self.entries@.len(),
            *before == *self || before.with(
                self.entries@[i].0@,
                self.entries@[i].1,
                self,
            ),
            before.wf(),
        ensures
            forall|value: V, after: Self|
                #![trigger before.with(self.entries@[i].0@, value, &after)]
                after.entries@ == self.entries@.update(i, (self.entries@[i].0, value))
                    ==> before.with(self.entries@[i].0@, value, &after),
    {
        let key = self.entries@[i].0@;
        assert forall|value: V, after: Self|
            #![trigger before.with(key, value, &after)]
            after.entries@ == self.entries@.update(
                i,
                (self.entries@[i].0, value),
            ) implies before.with(key, value, &after) by {
            assert(after.wf()) by {
                assert forall|a: int, b: int| 0 <= a < b < after.entries@.len() implies (
                #[trigger] after.entries@[a]).0@ != (#[trigger] after.entries@[b]).0@ by {
                    assert(self.entries@[a].0@ != self.entries@[b].0@);
                }
            }
            after.entry_is_found(i);
            assert forall|other: Seq<char>| other != key implies after.has(other) == self.has(other)
                && (self.has(other) ==> after.at(other) == self.at(other)) by {
                if self.has(other) {
                    let k = choose|k: int| self.is_at(other, k);
                    assert(after.is_at(other, k));
                    self.entry_is_found(k);
                    after.entry_is_found(k);
                }
                if after.has(other) {
                    let k = choose|k: int| after.is_at(other, k);
                    assert(self.is_at(other, k));
                }
            }
            assert forall|other: Seq<char>| other != key implies after.has(other) == before.has(
                other,
            ) && (before.has(other) ==> after.at(other) == before.at(other)) by {
                assert(self.has(other) == before.has(other));
                if before.has(other) {
                    assert(self.at(other) == before.at(other));
                }
            }
        }
    }

    /// The value of entry `i`, to be changed in place.
    pub fn value_mut(&mut self, i: usize) -> (r: &mut V)
        requires
            old(self).wf(),
            i < old(self).entries@.len(),
        ensures
            *r == old(self).entries@[i as int].1,
            final(self).wf(),
            final(self).entries@ == old(self).entries@.update(
                i as int,
                (old(self).entries@[i as int].0, *final(r)),
            ),
    {
        &mut self.entries[i].1
    }
}

} // verus!
