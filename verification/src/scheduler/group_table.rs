//! Every generation of every group.

use crate::scheduler::keys::KeyRegistryState;
use crate::scheduler::types::GroupState;
use vstd::prelude::*;

verus! {

/// One generation of a group. Its members are the registered runs of that generation.
#[derive(Debug)]
pub struct GroupInner {
    pub name: String,
    pub generation: u64,
    pub state: GroupState,
    pub paused: bool,
    pub keys: KeyRegistryState,
    pub shutdown_started: bool,
}

impl GroupInner {
    /// A group that takes no more runs, and is over if it has none.
    pub open spec fn closing(self, members: bool) -> GroupInner {
        GroupInner {
            state: if !members {
                GroupState::Terminated
            } else if self.state == GroupState::Open {
                GroupState::Closing
            } else {
                self.state
            },
            ..self
        }
    }

    /// A group of which a member ended: over if it was the last one of a group that
    /// takes no more.
    pub open spec fn left(self, members: bool) -> GroupInner {
        GroupInner {
            state: if !members && self.state == GroupState::Closing {
                GroupState::Terminated
            } else {
                self.state
            },
            ..self
        }
    }

    /// Takes no more runs.
    pub fn mark_closing(&mut self, members: bool)
        ensures
            *final(self) == old(self).closing(members),
    {
        if self.state == GroupState::Open {
            self.state = GroupState::Closing;
        }
        if !members {
            self.state = GroupState::Terminated;
        }
    }

    /// Takes no more runs because nobody holds the group; says whether its members are to
    /// be asked to stop.
    pub fn best_effort_close(&mut self, members: bool) -> (cancel: bool)
        ensures
            cancel == (old(self).state == GroupState::Open),
            *final(self) == if old(self).state == GroupState::Open {
                old(self).closing(members)
            } else {
                *old(self)
            },
    {
        if self.state != GroupState::Open {
            return false;
        }
        self.mark_closing(members);
        true
    }

    /// Records that a member ended.
    pub fn remove_member(&mut self, members: bool)
        ensures
            *final(self) == old(self).left(members),
    {
        if !members && self.state == GroupState::Closing {
            self.state = GroupState::Terminated;
        }
    }
}

/// Groups by their generations. One that another of the same name superseded stays as long
/// as there may be handles to it.
#[derive(Debug)]
pub struct GroupTable {
    pub entries: Vec<GroupInner>,
}

/// Whether an entry has this generation.
pub open spec fn has_generation(entries: Seq<GroupInner>, generation: u64) -> bool {
    exists|i: int| 0 <= i < entries.len() && (#[trigger] entries[i]).generation == generation
}

/// The place of the entry with this generation.
pub open spec fn generation_place(entries: Seq<GroupInner>, generation: u64) -> int {
    choose|i: int| 0 <= i < entries.len() && (#[trigger] entries[i]).generation == generation
}

impl View for GroupTable {
    type V = Map<u64, GroupInner>;

    open spec fn view(&self) -> Map<u64, GroupInner> {
        Map::new(
            |generation: u64| has_generation(self.entries@, generation),
            |generation: u64| self.entries@[generation_place(self.entries@, generation)],
        )
    }
}

impl GroupTable {
    /// No generation occurs twice.
    pub open spec fn wf(&self) -> bool {
        forall|i: int, j: int|
            0 <= i < j < self.entries.len() ==> (#[trigger] self.entries@[i]).generation != (
            #[trigger] self.entries@[j]).generation
    }

    /// An entry is found under its generation.
    pub proof fn lemma_entry(&self, i: int)
        requires
            self.wf(),
            0 <= i < self.entries.len(),
        ensures
            self@.contains_key(self.entries@[i].generation),
            self@[self.entries@[i].generation] == self.entries@[i],
    {
        let generation = self.entries@[i].generation;
        assert(has_generation(self.entries@, generation));
        let k = generation_place(self.entries@, generation);
        assert(self.entries@[k].generation == generation);
        if k < i {
            assert(self.entries@[k].generation != self.entries@[i].generation);
        } else if i < k {
            assert(self.entries@[i].generation != self.entries@[k].generation);
        }
    }

    /// A generation of the table is that of an entry.
    pub proof fn lemma_generation(&self, generation: u64)
        requires
            self@.contains_key(generation),
        ensures
            0 <= generation_place(self.entries@, generation) < self.entries.len(),
            self@[generation] == self.entries@[generation_place(self.entries@, generation)],
            self@[generation].generation == generation,
    {
        assert(has_generation(self.entries@, generation));
    }

    /// An empty table.
    pub fn new() -> (table: Self)
        ensures
            table.wf(),
            table@ == Map::<u64, GroupInner>::empty(),
    {
        let table = GroupTable { entries: Vec::new() };
        assert(table@ =~= Map::<u64, GroupInner>::empty());
        table
    }

    /// The place of a generation, if it is known.
    pub fn position(&self, generation: u64) -> (at: Option<usize>)
        requires
            self.wf(),
        ensures
            match at {
                Some(at) => {
                    &&& at < self.entries.len()
                    &&& self.entries@[at as int].generation == generation
                    &&& self@.contains_key(generation)
                    &&& self@[generation] == self.entries@[at as int]
                },
                None => !self@.contains_key(generation),
            },
    {
        let mut at: usize = 0;
        while at < self.entries.len()
            invariant
                self.wf(),
                at <= self.entries.len(),
                forall|k: int|
                    0 <= k < at ==> (#[trigger] self.entries@[k]).generation != generation,
            decreases self.entries.len() - at,
        {
            if self.entries[at].generation == generation {
                proof {
                    self.lemma_entry(at as int);
                }
                return Some(at);
            }
            at = at + 1;
        }
        None
    }

    /// Adds a generation.
    pub fn push(&mut self, group: GroupInner)
        requires
            old(self).wf(),
            !old(self)@.contains_key(group.generation),
        ensures
            final(self).wf(),
            final(self)@ == old(self)@.insert(group.generation, group),
    {
        let ghost before = *self;
        let ghost added = group;
        self.entries.push(group);
        proof {
            let after = *self;
            let last = before.entries.len() as int;
            assert forall|i: int, j: int| 0 <= i < j < after.entries.len() implies (
            #[trigger] after.entries@[i]).generation != (
            #[trigger] after.entries@[j]).generation by {
                assert(before.entries@[i] == after.entries@[i]);
                if j == last {
                    before.lemma_entry(i);
                } else {
                    assert(before.entries@[j] == after.entries@[j]);
                }
            }
            after.lemma_entry(last);
            assert forall|g: u64| after@.contains_key(g) <==> before@.insert(
                added.generation,
                added,
            ).contains_key(g) by {
                if after@.contains_key(g) && g != added.generation {
                    after.lemma_generation(g);
                    let k = generation_place(after.entries@, g);
                    assert(before.entries@[k] == after.entries@[k]);
                    before.lemma_entry(k);
                }
                if before@.contains_key(g) {
                    before.lemma_generation(g);
                    let k = generation_place(before.entries@, g);
                    assert(before.entries@[k] == after.entries@[k]);
                    after.lemma_entry(k);
                }
            }
            assert forall|g: u64| after@.contains_key(g) implies after@[g] == before@.insert(
                added.generation,
                added,
            )[g] by {
                if g != added.generation {
                    after.lemma_generation(g);
                    let k = generation_place(after.entries@, g);
                    assert(before.entries@[k] == after.entries@[k]);
                    before.lemma_entry(k);
                }
            }
            assert(after@ =~= before@.insert(added.generation, added));
        }
    }

    /// Takes a generation out of the table.
    pub fn remove(&mut self, generation: u64)
        requires
            old(self).wf(),
        ensures
            final(self).wf(),
            final(self)@ == old(self)@.remove(generation),
    {
        match self.position(generation) {
            Some(at) => {
                let ghost before = *self;
                self.entries.remove(at);
                proof {
                    let after = *self;
                    assert(after.entries@ =~= before.entries@.remove(at as int));
                    assert forall|i: int, j: int| 0 <= i < j < after.entries.len() implies (
                    #[trigger] after.entries@[i]).generation != (
                    #[trigger] after.entries@[j]).generation by {
                        let i0 = if i < at {
                            i
                        } else {
                            i + 1
                        };
                        let j0 = if j < at {
                            j
                        } else {
                            j + 1
                        };
                        assert(before.entries@[i0].generation != before.entries@[j0].generation);
                    }
                    assert forall|g: u64| after@.contains_key(g) <==> before@.remove(
                        generation,
                    ).contains_key(g) by {
                        if after@.contains_key(g) {
                            after.lemma_generation(g);
                            let k = generation_place(after.entries@, g);
                            let k0 = if k < at {
                                k
                            } else {
                                k + 1
                            };
                            assert(before.entries@[k0] == after.entries@[k]);
                            before.lemma_entry(k0);
                            if k0 < at {
                                assert(before.entries@[k0].generation
                                    != before.entries@[at as int].generation);
                            } else {
                                assert(before.entries@[at as int].generation
                                    != before.entries@[k0].generation);
                            }
                        }
                        if before@.contains_key(g) && g != generation {
                            before.lemma_generation(g);
                            let k0 = generation_place(before.entries@, g);
                            let k = if k0 < at {
                                k0
                            } else {
                                k0 - 1
                            };
                            assert(after.entries@[k] == before.entries@[k0]);
                            after.lemma_entry(k);
                        }
                    }
                    assert forall|g: u64| after@.contains_key(g) implies after@[g]
                        == before@.remove(generation)[g] by {
                        after.lemma_generation(g);
                        let k = generation_place(after.entries@, g);
                        let k0 = if k < at {
                            k
                        } else {
                            k + 1
                        };
                        assert(before.entries@[k0] == after.entries@[k]);
                        before.lemma_entry(k0);
                    }
                    assert(after@ =~= before@.remove(generation));
                }
            },
            None => {
                assert(self@ =~= self@.remove(generation));
            },
        }
    }

    /// Where every entry was replaced by a function of itself that keeps its generation,
    /// the table is that function of the table.
    pub proof fn lemma_mapped(
        before: &GroupTable,
        after: &GroupTable,
        f: spec_fn(GroupInner) -> GroupInner,
    )
        requires
            before.wf(),
            after.entries.len() == before.entries.len(),
            forall|i: int|
                0 <= i < before.entries.len() ==> #[trigger] after.entries@[i] == f(
                    before.entries@[i],
                ) && after.entries@[i].generation == before.entries@[i].generation,
        ensures
            after.wf(),
            after@ == before@.map_values(f),
    {
        assert forall|i: int, j: int| 0 <= i < j < after.entries.len() implies (
        #[trigger] after.entries@[i]).generation != (#[trigger] after.entries@[j]).generation by {
            assert(before.entries@[i].generation != before.entries@[j].generation);
        }
        let mapped = before@.map_values(f);
        assert forall|g: u64| after@.contains_key(g) <==> mapped.contains_key(g) by {
            if after@.contains_key(g) {
                after.lemma_generation(g);
                before.lemma_entry(generation_place(after.entries@, g));
            }
            if before@.contains_key(g) {
                before.lemma_generation(g);
                let k = generation_place(before.entries@, g);
                assert(after.entries@[k].generation == before.entries@[k].generation);
                after.lemma_entry(k);
            }
        }
        assert forall|g: u64| after@.contains_key(g) implies after@[g] == mapped[g] by {
            after.lemma_generation(g);
            before.lemma_entry(generation_place(after.entries@, g));
        }
        assert(after@ =~= mapped);
    }

    /// A table in which one entry was replaced.
    pub proof fn lemma_replaced(before: &GroupTable, after: &GroupTable, at: int)
        requires
            before.wf(),
            0 <= at < before.entries.len(),
            after.entries.len() == before.entries.len(),
            after.entries@[at].generation == before.entries@[at].generation,
            forall|i: int|
                0 <= i < before.entries.len() && i != at ==> #[trigger] after.entries@[i]
                    == before.entries@[i],
        ensures
            after.wf(),
            after@ == before@.insert(before.entries@[at].generation, after.entries@[at]),
    {
        let generation = before.entries@[at].generation;
        let value = after.entries@[at];
        let f = |group: GroupInner|
            if group.generation == generation {
                value
            } else {
                group
            };
        assert forall|i: int| 0 <= i < before.entries.len() implies #[trigger] after.entries@[i]
            == f(before.entries@[i]) && after.entries@[i].generation
            == before.entries@[i].generation by {
            if i < at {
                assert(before.entries@[i].generation != before.entries@[at].generation);
            } else if at < i {
                assert(before.entries@[at].generation != before.entries@[i].generation);
            }
        }
        GroupTable::lemma_mapped(before, after, f);
        before.lemma_entry(at);
        assert forall|g: u64| before@.contains_key(g) implies before@[g].generation == g by {
            before.lemma_generation(g);
        }
        assert(after@ =~= before@.insert(generation, value));
    }
}

/// A group that takes no more runs closes while it has members and is over once it has none;
/// the end of its last member ends it only if it takes no more.
pub proof fn lemma_when_groups_are_over(group: GroupInner)
    ensures
        group.closing(false).state == GroupState::Terminated,
        group.closing(true).state != GroupState::Open,
        group.state == GroupState::Open ==> group.closing(true).state == GroupState::Closing,
        group.state != GroupState::Open ==> group.closing(true).state == group.state,
        group.left(true).state == group.state,
        group.state == GroupState::Closing ==> group.left(false).state == GroupState::Terminated,
        group.state == GroupState::Open ==> group.left(false).state == GroupState::Open,
        group.state == GroupState::Terminated ==> group.left(false).state
            == GroupState::Terminated,
        group.closing(true).paused == group.paused && group.left(true).paused == group.paused,
        group.closing(true).generation == group.generation && group.left(true).generation
            == group.generation,
        group.closing(false).keys == group.keys && group.left(false).keys == group.keys,
{
}

} // verus!
