//! A table from names to values in which every name occurs once.

use vstd::prelude::*;

verus! {

/// One entry of a table.
pub struct Named<V> {
    name: String,
    value: V,
}

/// A table from names to values. A name occurs at most once; setting a
/// name that is there replaces its value.
pub struct NameTable<V> {
    entries: Vec<Named<V>>,
}

/// Whether no two entries bear the same name.
pub closed spec fn names_differ<V>(entries: Seq<Named<V>>) -> bool {
    forall|i: int, j: int|
        0 <= i < j < entries.len() ==> (#[trigger] entries[i]).name@ != (#[trigger] entries[j]).name@
}

/// Whether one of `entries` bears `name`.
pub closed spec fn holds<V>(entries: Seq<Named<V>>, name: Seq<char>) -> bool {
    exists|i: int| 0 <= i < entries.len() && (#[trigger] entries[i]).name@ == name
}

/// The place of an entry that bears `name`.
pub closed spec fn place_of<V>(entries: Seq<Named<V>>, name: Seq<char>) -> int {
    choose|i: int| 0 <= i < entries.len() && (#[trigger] entries[i]).name@ == name
}

impl<V> NameTable<V> {
    #[verifier::type_invariant]
    spec fn inv(&self) -> bool {
        names_differ(self.entries@)
    }
}

impl<V: Copy> NameTable<V> {
    /// The table as a map from names to values.
    pub closed spec fn view(&self) -> Map<Seq<char>, V> {
        Map::new(
            |name: Seq<char>| holds(self.entries@, name),
            |name: Seq<char>| self.entries@[place_of(self.entries@, name)].value,
        )
    }

    /// The number of names in the table.
    pub closed spec fn spec_len(&self) -> nat {
        self.entries@.len()
    }

    /// Creates a table without names.
    pub fn new() -> (table: Self)
        ensures
            table@ == Map::<Seq<char>, V>::empty(),
            table.spec_len() == 0,
    {
        let table = NameTable { entries: Vec::new() };
        proof {
            assert(table@ =~= Map::<Seq<char>, V>::empty());
        }
        table
    }

    /// The number of names in the table.
    pub fn len(&self) -> (n: usize)
        ensures
            n == self.spec_len(),
    {
        self.entries.len()
    }

    /// The place of the entry that bears `name`, if there is one.
    fn find(&self, name: &String) -> (r: Option<usize>)
        ensures
            names_differ(self.entries@),
            match r {
                Some(i) => i < self.entries@.len() && self.entries@[i as int].name@ == name@
                    && holds(self.entries@, name@) && place_of(self.entries@, name@) == i,
                None => !holds(self.entries@, name@),
            },
    {
        proof {
            use_type_invariant(self);
        }
        let mut i: usize = 0;
        while i < self.entries.len()
            invariant
                i <= self.entries.len(),
                names_differ(self.entries@),
                forall|k: int| 0 <= k < i ==> (#[trigger] self.entries@[k]).name@ != name@,
            decreases self.entries.len() - i,
        {
            if self.entries[i].name == *name {
                proof {
                    let p = place_of(self.entries@, name@);
                    assert(self.entries@[i as int].name@ == name@);
                    assert(holds(self.entries@, name@));
                    if p != i {
                        if p < i {
                            assert(self.entries@[p].name@ != self.entries@[i as int].name@);
                        } else {
                            assert(self.entries@[i as int].name@ != self.entries@[p].name@);
                        }
                    }
                }
                return Some(i);
            }
            i += 1;
        }
        None
    }

    /// The value under `name`, if the table has the name.
    pub fn get(&self, name: &str) -> (r: Option<V>)
        ensures
            r == (if self@.dom().contains(name@) {
                Some(self@[name@])
            } else {
                None
            }),
    {
        let key: String = name.to_owned();
        match self.find(&key) {
            Some(i) => Some(self.entries[i].value),
            None => None,
        }
    }

    /// Puts `value` under `name` and returns the value that was there
    /// before, if the table had the name.
    pub fn insert(&mut self, name: String, value: V) -> (r: Option<V>)
        ensures
            final(self)@ == old(self)@.insert(name@, value),
            r == (if old(self)@.dom().contains(name@) {
                Some(old(self)@[name@])
            } else {
                None
            }),
            final(self).spec_len() == old(self).spec_len() + (if r is Some {
                0nat
            } else {
                1nat
            }),
    {
        let ghost before = self.entries@;
        let ghost key = name@;
        match self.find(&name) {
            Some(i) => {
                let was: V = self.entries[i].value;
                let mut entries: Vec<Named<V>> = Vec::new();
                std::mem::swap(&mut self.entries, &mut entries);
                entries.set(i, Named { name, value });
                proof {
                    let after = entries@;
                    assert forall|a: int, b: int| 0 <= a < b < after.len() implies (
                    #[trigger] after[a]).name@ != (#[trigger] after[b]).name@ by {
                        assert(after[a].name@ == before[a].name@);
                        assert(after[b].name@ == before[b].name@);
                    }
                    assert forall|n: Seq<char>| holds(after, n) == holds(before, n) by {
                        if holds(before, n) {
                            let p = place_of(before, n);
                            assert(after[p].name@ == n);
                        }
                        if holds(after, n) {
                            let p = place_of(after, n);
                            assert(before[p].name@ == n);
                        }
                    }
                    assert forall|n: Seq<char>| holds(after, n) implies #[trigger] after[place_of(
                        after,
                        n,
                    )].value == (if n == key {
                        value
                    } else {
                        before[place_of(before, n)].value
                    }) by {
                        let p = place_of(after, n);
                        let q = place_of(before, n);
                        assert(before[p].name@ == n);
                        if p != q {
                            if p < q {
                                assert(before[p].name@ != before[q].name@);
                            } else {
                                assert(before[q].name@ != before[p].name@);
                            }
                        }
                        if n == key {
                            if p != i {
                                if p < i {
                                    assert(before[p].name@ != before[i as int].name@);
                                } else {
                                    assert(before[i as int].name@ != before[p].name@);
                                }
                            }
                        } else {
                            assert(p != i);
                        }
                    }
                }
                std::mem::swap(&mut self.entries, &mut entries);
                proof {
                    assert(self@ =~= old(self)@.insert(key, value));
                }
                Some(was)
            },
            None => {
                let mut entries: Vec<Named<V>> = Vec::new();
                std::mem::swap(&mut self.entries, &mut entries);
                entries.push(Named { name, value });
                proof {
                    let after = entries@;
                    let last = after.len() - 1;
                    assert forall|a: int, b: int| 0 <= a < b < after.len() implies (
                    #[trigger] after[a]).name@ != (#[trigger] after[b]).name@ by {
                        assert(after[a] == before[a]);
                        if b < last {
                            assert(after[b] == before[b]);
                        } else {
                            assert(before[a].name@ != key);
                        }
                    }
                    assert(after[last].name@ == key);
                    assert forall|n: Seq<char>| holds(after, n) == (n == key || holds(before, n)) by {
                        if holds(before, n) {
                            let p = place_of(before, n);
                            assert(after[p].name@ == n);
                        }
                        if holds(after, n) {
                            let p = place_of(after, n);
                            if p < last {
                                assert(before[p].name@ == n);
                            }
                        }
                    }
                    assert forall|n: Seq<char>| holds(after, n) implies #[trigger] after[place_of(
                        after,
                        n,
                    )].value == (if n == key {
                        value
                    } else {
                        before[place_of(before, n)].value
                    }) by {
                        let p = place_of(after, n);
                        if n == key {
                            if p < last {
                                assert(before[p].name@ == key);
                            }
                        } else {
                            let q = place_of(before, n);
                            assert(before[p].name@ == n);
                            if p != q {
                                if p < q {
                                    assert(before[p].name@ != before[q].name@);
                                } else {
                                    assert(before[q].name@ != before[p].name@);
                                }
                            }
                        }
                    }
                }
                std::mem::swap(&mut self.entries, &mut entries);
                proof {
                    assert(self@ =~= old(self)@.insert(key, value));
                }
                None
            },
        }
    }
}

} // verus!
