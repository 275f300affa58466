//! Records in the order of their identities.

use vstd::prelude::*;

verus! {

/// A record with an identity.
pub trait Identified {
    /// The identity.
    spec fn identity(&self) -> u128;

    /// The identity.
    fn read_identity(&self) -> (id: u128)
        ensures
            id == self.identity(),
    ;
}

/// Whether records are in ascending order.
pub open spec fn ascending<R: Identified>(records: Seq<R>) -> bool {
    forall|i: int, j: int|
        0 <= i <= j < records.len() ==> (#[trigger] records[i]).identity() <= (
        #[trigger] records[j]).identity()
}

/// Puts records in ascending order.
pub fn in_order<R: Identified>(records: Vec<R>) -> (sorted: Vec<R>)
    ensures
        ascending(sorted@),
        sorted@.to_multiset() == records@.to_multiset(),
        sorted.len() == records.len(),
{
    broadcast use vstd::seq_lib::group_to_multiset_ensures;

    let mut rest = records;
    let mut sorted: Vec<R> = Vec::new();
    assert(sorted@.to_multiset().add(rest@.to_multiset()) =~= records@.to_multiset());
    while rest.len() > 0
        invariant
            ascending(sorted@),
            sorted@.to_multiset().add(rest@.to_multiset()) == records@.to_multiset(),
            sorted.len() + rest.len() == records.len(),
        decreases rest.len(),
    {
        broadcast use vstd::seq_lib::group_to_multiset_ensures;

        let ghost remaining = rest@;
        let ghost before = sorted@;
        match rest.pop() {
            Some(record) => {
                let id: u128 = record.read_identity();
                let mut at: usize = 0;
                while at < sorted.len() && sorted[at].read_identity() < id
                    invariant
                        at <= sorted.len(),
                        sorted@ == before,
                        forall|k: int| 0 <= k < at ==> (#[trigger] before[k]).identity() < id,
                    decreases sorted.len() - at,
                {
                    at = at + 1;
                }
                let ghost taken = record;
                sorted.insert(at, record);
                proof {
                    assert(sorted@ =~= before.insert(at as int, taken));
                    assert(remaining =~= rest@.push(taken));
                    assert forall|i: int, j: int| 0 <= i <= j < sorted@.len() implies (
                    #[trigger] sorted@[i]).identity() <= (#[trigger] sorted@[j]).identity() by {
                        let i0 = if i < at {
                            i
                        } else {
                            i - 1
                        };
                        let j0 = if j < at {
                            j
                        } else {
                            j - 1
                        };
                        if i != at && j != at {
                            assert(before[i0].identity() <= before[j0].identity());
                        } else if i == at && j != at {
                            assert(before[at as int].identity() <= before[j0].identity());
                        }
                    }
                    assert(sorted@.to_multiset().add(rest@.to_multiset())
                        =~= before.to_multiset().add(remaining.to_multiset()));
                }
            },
            None => {},
        }
    }
    assert(sorted@.to_multiset() =~= records@.to_multiset());
    sorted
}

/// In ascending order no record comes before one with a smaller identity.
pub proof fn lemma_smaller_identities_come_first<R: Identified>(records: Seq<R>, i: int, j: int)
    requires
        ascending(records),
        0 <= i < records.len(),
        0 <= j < records.len(),
        records[i].identity() < records[j].identity(),
    ensures
        i < j,
{
}

} // verus!
