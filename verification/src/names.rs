//! A table of values under unique names.

use vstd::prelude::*;

verus! {

/// A table of values under unique names.
#[derive(Debug)]
pub struct NameTable<V> {
    pub entries: Vec<(String, V)>,
}

/// Whether an entry has this name.
pub open spec fn has_name<V>(entries: Seq<(String, V)>, name: Seq<char>) -> bool {
    exists|i: int| 0 <= i < entries.len() && (#[trigger] entries[i]).0@ == name
}

/// The place of the entry with this name.
pub open spec fn place_of<V>(entries: Seq<(String, V)>, name: Seq<char>) -> int {
    choose|i: int| 0 <= i < entries.len() && (#[trigger] entries[i]).0@ == name
}

impl<V> View for NameTable<V> {
    type V = Map<Seq<char>, V>;

    open spec fn view(&self) -> Map<Seq<char>, V> {
        Map::new(
            |name: Seq<char>| has_name(self.entries@, name),
            |name: Seq<char>| self.entries@[place_of(self.entries@, name)].1,
        )
    }
}

impl<V> NameTable<V> {
    /// No name occurs twice.
    pub open spec fn wf(&self) -> bool {
        forall|i: int, j: int|
            0 <= i < j < self.entries.len() ==> (#[trigger] self.entries@[i]).0@
                != (#[trigger] self.entries@[j]).0@
    }

    /// An entry is found under its name.
    pub proof fn lemma_entry(&self, i: int)
        requires
            self.wf(),
            0 <= i < self.entries.len(),
        ensures
            self@.contains_key(self.entries@[i].0@),
            self@[self.entries@[i].0@] == self.entries@[i].1,
            place_of(self.entries@, self.entries@[i].0@) == i,
    {
        let name = self.entries@[i].0@;
        assert(has_name(self.entries@, name));
        let k = place_of(self.entries@, name);
        assert(self.entries@[k].0@ == name);
        if k < i {
            assert(self.entries@[k].0@ != self.entries@[i].0@);
        } else if i < k {
            assert(self.entries@[i].0@ != self.entries@[k].0@);
        }
    }

    /// A name of the table is that of an entry.
    pub proof fn lemma_name(&self, name: Seq<char>)
        requires
            self@.contains_key(name),
        ensures
            0 <= place_of(self.entries@, name) < self.entries.len(),
            self.entries@[place_of(self.entries@, name)].0@ == name,
            self@[name] == self.entries@[place_of(self.entries@, name)].1,
    {
        assert(has_name(self.entries@, name));
    }

    /// An empty table.
    pub fn new() -> (table: Self)
        ensures
            table.wf(),
            table@ == Map::<Seq<char>, V>::empty(),
            table.entries@ == Seq::<(String, V)>::empty(),
    {
        let table = NameTable { entries: Vec::new() };
        assert(table@ =~= Map::<Seq<char>, V>::empty());
        table
    }

    /// The place of the entry with this name, if there is one.
    pub fn position(&self, name: &String) -> (at: Option<usize>)
        requires
            self.wf(),
        ensures
            match at {
                Some(at) => {
                    &&& at < self.entries.len()
                    &&& self.entries@[at as int].0@ == name@
                    &&& self@.contains_key(name@)
                    &&& self@[name@] == self.entries@[at as int].1
                },
                None => !self@.contains_key(name@),
            },
    {
        let mut at: usize = 0;
        while at < self.entries.len()
            invariant
                self.wf(),
                at <= self.entries.len(),
                forall|k: int| 0 <= k < at ==> (#[trigger] self.entries@[k]).0@ != name@,
            decreases self.entries.len() - at,
        {
            if self.entries[at].0 == *name {
                proof {
                    self.lemma_entry(at as int);
                }
                return Some(at);
            }
            at = at + 1;
        }
        None
    }

    /// The value under a name, if there is one.
    pub fn get(&self, name: &String) -> (value: Option<&V>)
        requires
            self.wf(),
        ensures
            match value {
                Some(value) => self@.contains_key(name@) && *value == self@[name@],
                None => !self@.contains_key(name@),
            },
    {
        match self.position(name) {
            Some(at) => Some(&self.entries[at].1),
            None => None,
        }
    }

    /// Replaces the value of the entry at a place.
    pub fn set_at(&mut self, at: usize, value: V) -> (previous: V)
        requires
            old(self).wf(),
            at < old(self).entries.len(),
        ensures
            final(self).wf(),
            previous == old(self).entries@[at as int].1,
            final(self).entries@ == old(self).entries@.update(
                at as int,
                (old(self).entries@[at as int].0, value),
            ),
            final(self)@ == old(self)@.insert(old(self).entries@[at as int].0@, value),
    {
        let ghost before = *self;
        let mut value = value;
        std::mem::swap(&mut self.entries[at].1, &mut value);
        proof {
            let after = *self;
            let name = before.entries@[at as int].0@;
            assert(after.entries@ =~= before.entries@.update(
                at as int,
                (before.entries@[at as int].0, after.entries@[at as int].1),
            ));
            before.lemma_entry(at as int);
            assert forall|n: Seq<char>| after@.contains_key(n) <==> before@.insert(
                name,
                after.entries@[at as int].1,
            ).contains_key(n) by {
                if after@.contains_key(n) {
                    after.lemma_name(n);
                    let k = place_of(after.entries@, n);
                    assert(before.entries@[k].0@ == n);
                    assert(has_name(before.entries@, n));
                }
                if before@.contains_key(n) {
                    before.lemma_name(n);
                    let k = place_of(before.entries@, n);
                    assert(after.entries@[k].0@ == n);
                    assert(has_name(after.entries@, n));
                }
            }
            assert forall|n: Seq<char>| after@.contains_key(n) implies after@[n] == before@.insert(
                name,
                after.entries@[at as int].1,
            )[n] by {
                after.lemma_name(n);
                let k = place_of(after.entries@, n);
                assert(before.entries@[k].0@ == n);
                before.lemma_entry(k);
            }
            assert(after@ =~= before@.insert(name, after.entries@[at as int].1));
        }
        value
    }

    /// Puts a value under a name; gives back the one that was there.
    pub fn insert(&mut self, name: String, value: V) -> (previous: Option<V>)
        requires
            old(self).wf(),
        ensures
            final(self).wf(),
            final(self)@ == old(self)@.insert(name@, value),
            match previous {
                Some(previous) => {
                    &&& old(self)@.contains_key(name@)
                    &&& previous == old(self)@[name@]
                    &&& final(self).entries.len() == old(self).entries.len()
                },
                None => {
                    &&& !old(self)@.contains_key(name@)
                    &&& final(self).entries.len() == old(self).entries.len() + 1
                },
            },
    {
        match self.position(&name) {
            Some(at) => Some(self.set_at(at, value)),
            None => {
                let ghost before = *self;
                let ghost added = value;
                self.entries.push((name, value));
                proof {
                    let after = *self;
                    assert forall|i: int, j: int| 0 <= i < j < after.entries.len() implies (
                    #[trigger] after.entries@[i]).0@ != (#[trigger] after.entries@[j]).0@ by {
                        if j == before.entries.len() {
                            assert(before.entries@[i] == after.entries@[i]);
                            before.lemma_entry(i);
                        } else {
                            assert(before.entries@[i] == after.entries@[i]);
                            assert(before.entries@[j] == after.entries@[j]);
                        }
                    }
                    assert(after.entries@[before.entries.len() as int].0@ == name@);
                    after.lemma_entry(before.entries.len() as int);
                    assert forall|n: Seq<char>| after@.contains_key(n) <==> before@.insert(
                        name@,
                        added,
                    ).contains_key(n) by {
                        if after@.contains_key(n) && n != name@ {
                            after.lemma_name(n);
                            let k = place_of(after.entries@, n);
                            assert(before.entries@[k].0@ == n);
                            assert(has_name(before.entries@, n));
                        }
                        if before@.contains_key(n) {
                            before.lemma_name(n);
                            let k = place_of(before.entries@, n);
                            assert(after.entries@[k].0@ == n);
                            assert(has_name(after.entries@, n));
                        }
                    }
                    assert forall|n: Seq<char>| after@.contains_key(n) implies after@[n]
                        == before@.insert(name@, added)[n] by {
                        if n != name@ {
                            after.lemma_name(n);
                            let k = place_of(after.entries@, n);
                            assert(before.entries@[k].0@ == n);
                            before.lemma_entry(k);
                        }
                    }
                    assert(after@ =~= before@.insert(name@, added));
                }
                None
            },
        }
    }

    /// Takes the value under a name out of the table.
    pub fn remove(&mut self, name: &String) -> (removed: Option<V>)
        requires
            old(self).wf(),
        ensures
            final(self).wf(),
            final(self)@ == old(self)@.remove(name@),
            match removed {
                Some(value) => {
                    &&& old(self)@.contains_key(name@)
                    &&& value == old(self)@[name@]
                    &&& final(self).entries.len() == old(self).entries.len() - 1
                },
                None => {
                    &&& !old(self)@.contains_key(name@)
                    &&& *final(self) == *old(self)
                },
            },
    {
        match self.position(name) {
            Some(at) => {
                let ghost before = *self;
                let (_, value) = self.entries.remove(at);
                proof {
                    let after = *self;
                    assert(after.entries@ =~= before.entries@.remove(at as int));
                    assert forall|i: int, j: int| 0 <= i < j < after.entries.len() implies (
                    #[trigger] after.entries@[i]).0@ != (#[trigger] after.entries@[j]).0@ by {
                        let i0 = if i < at {
                            i
                        } else {
                            i + 1
                        };
                        let j0 = if j < at {
                            j
                        } else {
                            j + 1
                        };
                        assert(before.entries@[i0].0@ != before.entries@[j0].0@);
                    }
                    assert forall|n: Seq<char>| after@.contains_key(n) <==> before@.remove(
                        name@,
                    ).contains_key(n) by {
                        if after@.contains_key(n) {
                            after.lemma_name(n);
                            let k = place_of(after.entries@, n);
                            let k0 = if k < at {
                                k
                            } else {
                                k + 1
                            };
                            assert(before.entries@[k0].0@ == n);
                            assert(has_name(before.entries@, n));
                            before.lemma_entry(k0);
                            before.lemma_entry(at as int);
                        }
                        if before@.contains_key(n) && n != name@ {
                            before.lemma_name(n);
                            let k0 = place_of(before.entries@, n);
                            let k = if k0 < at {
                                k0
                            } else {
                                k0 - 1
                            };
                            assert(after.entries@[k].0@ == n);
                            assert(has_name(after.entries@, n));
                        }
                    }
                    assert forall|n: Seq<char>| after@.contains_key(n) implies after@[n]
                        == before@.remove(name@)[n] by {
                        after.lemma_name(n);
                        let k = place_of(after.entries@, n);
                        let k0 = if k < at {
                            k
                        } else {
                            k + 1
                        };
                        assert(before.entries@[k0].0@ == n);
                        before.lemma_entry(k0);
                    }
                    assert(after@ =~= before@.remove(name@));
                }
                Some(value)
            },
            None => {
                assert(self@ =~= self@.remove(name@));
                None
            },
        }
    }

    /// Where every value was replaced by a function of its name and itself, the table is
    /// that function of the table.
    pub proof fn lemma_mapped(before: &NameTable<V>, after: &NameTable<V>, f: spec_fn(
        Seq<char>,
        V,
    ) -> V)
        requires
            before.wf(),
            after.entries.len() == before.entries.len(),
            forall|i: int|
                0 <= i < before.entries.len() ==> (#[trigger] after.entries@[i]).0
                    == before.entries@[i].0 && after.entries@[i].1 == f(
                    before.entries@[i].0@,
                    before.entries@[i].1,
                ),
        ensures
            after.wf(),
            after@ == Map::new(
                |name: Seq<char>| before@.contains_key(name),
                |name: Seq<char>| f(name, before@[name]),
            ),
    {
        assert forall|i: int, j: int| 0 <= i < j < after.entries.len() implies (
        #[trigger] after.entries@[i]).0@ != (#[trigger] after.entries@[j]).0@ by {
            assert(before.entries@[i].0@ != before.entries@[j].0@);
        }
        let mapped = Map::new(
            |name: Seq<char>| before@.contains_key(name),
            |name: Seq<char>| f(name, before@[name]),
        );
        assert forall|n: Seq<char>| after@.contains_key(n) <==> mapped.contains_key(n) by {
            if after@.contains_key(n) {
                after.lemma_name(n);
                let k = place_of(after.entries@, n);
                before.lemma_entry(k);
            }
            if before@.contains_key(n) {
                before.lemma_name(n);
                let k = place_of(before.entries@, n);
                assert(after.entries@[k].0 == before.entries@[k].0);
                after.lemma_entry(k);
            }
        }
        assert forall|n: Seq<char>| after@.contains_key(n) implies after@[n] == mapped[n] by {
            after.lemma_name(n);
            let k = place_of(after.entries@, n);
            before.lemma_entry(k);
        }
        assert(after@ =~= mapped);
    }

    /// A table in which the value of one entry was replaced.
    pub proof fn lemma_replaced(before: &NameTable<V>, after: &NameTable<V>, at: int)
        requires
            before.wf(),
            0 <= at < before.entries.len(),
            after.entries.len() == before.entries.len(),
            after.entries@[at].0 == before.entries@[at].0,
            forall|i: int|
                0 <= i < before.entries.len() && i != at ==> #[trigger] after.entries@[i]
                    == before.entries@[i],
        ensures
            after.wf(),
            after@ == before@.insert(before.entries@[at].0@, after.entries@[at].1),
    {
        let name = before.entries@[at].0@;
        let value = after.entries@[at].1;
        let f = |n: Seq<char>, v: V|
            if n == name {
                value
            } else {
                v
            };
        assert forall|i: int| 0 <= i < before.entries.len() implies (
        #[trigger] after.entries@[i]).0 == before.entries@[i].0 && after.entries@[i].1 == f(
            before.entries@[i].0@,
            before.entries@[i].1,
        ) by {
            if i < at {
                assert(before.entries@[i].0@ != before.entries@[at].0@);
            } else if at < i {
                assert(before.entries@[at].0@ != before.entries@[i].0@);
            }
        }
        NameTable::lemma_mapped(before, after, f);
        before.lemma_entry(at);
        assert(after@ =~= before@.insert(name, value));
    }

    /// The table holds as many names as entries.
    pub proof fn lemma_len(&self)
        requires
            self.wf(),
        ensures
            self@.dom().finite(),
            self@.dom().len() == self.entries.len(),
        decreases self.entries.len(),
    {
        let names = Seq::new(self.entries@.len(), |i: int| self.entries@[i].0@);
        assert(names.no_duplicates()) by {
            assert forall|i: int, j: int|
                0 <= i < names.len() && 0 <= j < names.len() && i != j implies names[i]
                != names[j] by {
                if i < j {
                    assert(self.entries@[i].0@ != self.entries@[j].0@);
                } else {
                    assert(self.entries@[j].0@ != self.entries@[i].0@);
                }
            }
        }
        names.unique_seq_to_set();
        assert forall|n: Seq<char>| names.to_set().contains(n) <==> self@.dom().contains(n) by {
            if names.contains(n) {
                let i = choose|i: int| 0 <= i < names.len() && names[i] == n;
                assert(self.entries@[i].0@ == n);
            }
            if self@.contains_key(n) {
                self.lemma_name(n);
                assert(names[place_of(self.entries@, n)] == n);
            }
        }
        assert(names.to_set() =~= self@.dom());
    }

    /// How many names the table holds.
    pub fn len(&self) -> (len: usize)
        requires
            self.wf(),
        ensures
            len == self.entries.len(),
            len == self@.dom().len(),
    {
        proof {
            self.lemma_len();
        }
        self.entries.len()
    }
}

} // verus!
