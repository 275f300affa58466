//! The queue of a lane: admission, waiting producers, dispatch and completion.
//!
//! A lane holds queued entries in the order of their admission, the entries that
//! run, and the tickets of producers that wait for room. Entries that share an
//! ordering key never run at the same time.

use crate::ids::ExecutionId;
use crate::lane::{LaneConfig, LaneStats, OrderingKey, Priority, SpawnError, SpawnOptions};
use crate::lane::HIGHEST_PRIORITY;
use crate::time::{Duration, Instant, MAX_NANOS};
use vstd::multiset::Multiset;
use vstd::prelude::*;

verus! {

/// Every dispatch whose count leaves this remainder takes the oldest ready entry.
const OLDEST_TURN: u64 = 7;

/// The period of turns of the oldest ready entry.
const TURN_PERIOD: u64 = 8;

/// A queued entry: its rank, its ordering key and when it was admitted.
#[verifier::ext_equal]
pub struct EntryView {
    pub id: ExecutionId,
    pub rank: u8,
    pub key: Option<Seq<u8>>,
    pub sequence: u64,
}

/// A running entry and its ordering key.
#[verifier::ext_equal]
pub struct RunningView {
    pub id: ExecutionId,
    pub key: Option<Seq<u8>>,
}

/// What a lane holds, and its limits.
#[verifier::ext_equal]
pub struct LaneView {
    pub capacity: nat,
    pub concurrency: nat,
    pub max_waiting: nat,
    pub max_keys: nat,
    pub closing: bool,
    pub unavailable: bool,
    pub queue: Seq<EntryView>,
    pub running: Seq<RunningView>,
    pub waiting: Seq<u64>,
    pub next_waiter: u64,
    pub next_sequence: u64,
    pub dispatch_count: u64,
}

/// The ordering keys of queued entries.
pub open spec fn queue_keys(queue: Seq<EntryView>) -> Seq<Option<Seq<u8>>> {
    queue.map_values(|entry: EntryView| entry.key)
}

/// The ordering keys of running entries.
pub open spec fn running_keys(running: Seq<RunningView>) -> Seq<Option<Seq<u8>>> {
    running.map_values(|entry: RunningView| entry.key)
}

/// The dispatch count after one more dispatch; it wraps.
pub open spec fn next_dispatch(count: u64) -> u64 {
    if count < u64::MAX {
        (count + 1) as u64
    } else {
        0
    }
}

impl LaneView {
    /// The ordering keys of all queued and running entries.
    pub open spec fn key_uses(self) -> Multiset<Option<Seq<u8>>> {
        queue_keys(self.queue).to_multiset().add(running_keys(self.running).to_multiset())
    }

    /// How many queued and running entries share `key`.
    pub open spec fn key_count(self, key: Seq<u8>) -> nat {
        self.key_uses().count(Some(key))
    }

    /// The ordering keys that some queued or running entry has.
    pub open spec fn keys_in_use(self) -> Set<Seq<u8>> {
        Set::new(|key: Seq<u8>| self.key_count(key) > 0)
    }

    /// Whether a running entry has `key`.
    pub open spec fn key_runs(self, key: Seq<u8>) -> bool {
        exists|r: int| 0 <= r < self.running.len() && (#[trigger] self.running[r]).key == Some(key)
    }

    /// Whether queued entry `i` may start: no running entry shares its key.
    pub open spec fn ready(self, i: int) -> bool {
        self.queue[i].key matches Some(key) ==> !self.key_runs(key)
    }

    /// Whether some queued entry may start.
    pub open spec fn any_ready(self) -> bool {
        exists|i: int| 0 <= i < self.queue.len() && #[trigger] self.ready(i)
    }

    /// Whether queued entry `i` starts before `j` when both may start.
    pub open spec fn precedes(self, i: int, j: int) -> bool {
        let a = self.queue[i];
        let b = self.queue[j];
        if self.dispatch_count % 8 == 7 {
            a.sequence < b.sequence
        } else {
            a.rank > b.rank || (a.rank == b.rank && a.sequence < b.sequence)
        }
    }

    /// Whether queued entry `i` is the next to start.
    pub open spec fn is_next(self, i: int) -> bool {
        &&& 0 <= i < self.queue.len()
        &&& self.ready(i)
        &&& forall|j: int|
            0 <= j < self.queue.len() && j != i && #[trigger] self.ready(j) ==> self.precedes(i, j)
    }

    /// The queued entry that starts next.
    pub open spec fn next_start(self) -> int {
        choose|i: int| self.is_next(i)
    }

    /// The lane after queued entry `i` started.
    pub open spec fn started(self, i: int) -> LaneView {
        LaneView {
            queue: self.queue.remove(i),
            running: self.running.push(
                RunningView { id: self.queue[i].id, key: self.queue[i].key },
            ),
            dispatch_count: next_dispatch(self.dispatch_count),
            ..self
        }
    }

    /// The lane after every start that its concurrency and its keys allow.
    pub open spec fn dispatched(self) -> LaneView
        decreases self.queue.len(),
    {
        if self.running.len() < self.concurrency && self.any_ready() && self.is_next(
            self.next_start(),
        ) {
            self.started(self.next_start()).dispatched()
        } else {
            self
        }
    }

    /// The entries that these starts take, in order.
    pub open spec fn dispatch_order(self) -> Seq<ExecutionId>
        decreases self.queue.len(),
    {
        if self.running.len() < self.concurrency && self.any_ready() && self.is_next(
            self.next_start(),
        ) {
            seq![self.queue[self.next_start()].id] + self.started(
                self.next_start(),
            ).dispatch_order()
        } else {
            Seq::empty()
        }
    }

    /// Whether `id` is queued or runs.
    pub open spec fn holds(self, id: ExecutionId) -> bool {
        ||| exists|i: int| 0 <= i < self.queue.len() && (#[trigger] self.queue[i]).id == id
        ||| exists|r: int| 0 <= r < self.running.len() && (#[trigger] self.running[r]).id == id
    }

    /// The invariant of a lane.
    ///
    /// Limits are kept; entries are queued in the order of their sequence numbers;
    /// no entry occurs twice; no two running entries share an ordering key; tickets
    /// of waiting producers ascend.
    pub open spec fn wf(self) -> bool {
        &&& self.queue.len() <= self.capacity
        &&& self.running.len() <= self.concurrency
        &&& self.waiting.len() <= self.max_waiting
        &&& forall|i: int|
            0 <= i < self.queue.len() ==> (#[trigger] self.queue[i]).sequence < self.next_sequence
                && self.queue[i].rank <= HIGHEST_PRIORITY
        &&& forall|i: int, j: int|
            0 <= i < j < self.queue.len() ==> (#[trigger] self.queue[i]).sequence < (
            #[trigger] self.queue[j]).sequence
        &&& forall|i: int, j: int|
            0 <= i < j < self.queue.len() ==> (#[trigger] self.queue[i]).id != (
            #[trigger] self.queue[j]).id
        &&& forall|r: int, s: int|
            0 <= r < s < self.running.len() ==> (#[trigger] self.running[r]).id != (
            #[trigger] self.running[s]).id
        &&& forall|i: int, r: int|
            0 <= i < self.queue.len() && 0 <= r < self.running.len() ==> (
            #[trigger] self.queue[i]).id != (#[trigger] self.running[r]).id
        &&& forall|r: int, s: int|
            0 <= r < s < self.running.len() && (#[trigger] self.running[r]).key is Some
                ==> self.running[r].key != (#[trigger] self.running[s]).key
        &&& forall|i: int|
            0 <= i < self.waiting.len() ==> (#[trigger] self.waiting[i]) < self.next_waiter
        &&& forall|i: int, j: int|
            0 <= i < j < self.waiting.len() ==> self.waiting[i] < self.waiting[j]
    }

    /// Whether a producer with this ticket, or with none, is first in line.
    pub open spec fn at_front(self, ticket: Option<u64>) -> bool {
        match ticket {
            Some(ticket) => self.waiting.len() > 0 && self.waiting[0] == ticket,
            None => self.waiting.len() == 0,
        }
    }

    /// Why the lane is not open for a producer with this ticket, if it is not.
    pub open spec fn closed_to(self, ticket: Option<u64>) -> Option<SpawnError> {
        if self.unavailable {
            Some(SpawnError::ExecutorUnavailable)
        } else if self.closing {
            Some(SpawnError::LaneClosing)
        } else if self.queue.len() >= self.capacity || !self.at_front(ticket) {
            Some(SpawnError::QueueFull)
        } else {
            None
        }
    }

    /// Why the lane refuses an entry with this key from this producer, if it does.
    pub open spec fn refusal(self, key: Option<Seq<u8>>, ticket: Option<u64>) -> Option<
        SpawnError,
    > {
        if self.closed_to(ticket) is Some {
            self.closed_to(ticket)
        } else if key is Some && self.key_count(key->0) >= usize::MAX {
            Some(SpawnError::SequenceExhausted)
        } else if key is Some && self.key_count(key->0) == 0 && self.keys_in_use().len()
            >= self.max_keys {
            Some(SpawnError::OrderingKeyLimitReached)
        } else if self.next_sequence == u64::MAX {
            Some(SpawnError::SequenceExhausted)
        } else {
            None
        }
    }

    /// How many of the first `n` queued entries of rank `rank` may start.
    pub open spec fn ready_count(self, rank: int, n: int) -> nat
        decreases n,
    {
        if n <= 0 {
            0
        } else {
            self.ready_count(rank, n - 1) + if self.ready(n - 1) && self.queue[n - 1].rank == rank {
                1nat
            } else {
                0
            }
        }
    }

    /// How many of the first `n` queued entries wait for a running entry of their key.
    pub open spec fn blocked_count(self, n: int) -> nat
        decreases n,
    {
        if n <= 0 {
            0
        } else {
            self.blocked_count(n - 1) + if self.ready(n - 1) {
                0nat
            } else {
                1
            }
        }
    }

    /// The first waiting producer.
    pub open spec fn first_waiter(self) -> Option<u64> {
        if self.waiting.len() > 0 {
            Some(self.waiting[0])
        } else {
            None
        }
    }
}

/// A queued entry.
pub struct QueueEntry {
    pub execution_id: ExecutionId,
    pub rank: u8,
    pub ordering_key: Option<OrderingKey>,
    pub sequence: u64,
}

impl View for QueueEntry {
    type V = EntryView;

    open spec fn view(&self) -> EntryView {
        EntryView {
            id: self.execution_id,
            rank: self.rank,
            key: crate::lane::key_view(self.ordering_key),
            sequence: self.sequence,
        }
    }
}

/// A running entry.
pub struct RunningEntry {
    pub execution_id: ExecutionId,
    pub ordering_key: Option<OrderingKey>,
}

impl View for RunningEntry {
    type V = RunningView;

    open spec fn view(&self) -> RunningView {
        RunningView {
            id: self.execution_id,
            key: crate::lane::key_view(self.ordering_key),
        }
    }
}

/// How many queued and running entries have a key.
struct KeyUse {
    key: OrderingKey,
    count: usize,
}

/// An entry that may start.
#[derive(Clone, Copy, Debug)]
pub struct ReadyCandidate {
    pub queue_index: usize,
    pub execution_id: ExecutionId,
    pub priority: Priority,
    pub sequence: u64,
}

/// Whether `a` starts before `b` at this dispatch count.
pub open spec fn candidate_precedes(
    dispatch_count: u64,
    a: ReadyCandidate,
    b: ReadyCandidate,
) -> bool {
    if dispatch_count % 8 == 7 {
        a.sequence < b.sequence
    } else {
        a.priority@ > b.priority@ || (a.priority@ == b.priority@ && a.sequence < b.sequence)
    }
}

/// Chooses among the entries that may start: on every eighth dispatch the oldest,
/// else the oldest of the highest priority; of equals the first.
pub fn select_ready_candidate(
    dispatch_count: u64,
    candidates: &Vec<ReadyCandidate>,
) -> (selected: Option<ReadyCandidate>)
    ensures
        selected is None <==> candidates.len() == 0,
        selected is Some ==> exists|k: int|
            {
                &&& 0 <= k < candidates.len()
                &&& #[trigger] candidates@[k] == selected->0
                &&& forall|j: int|
                    0 <= j < candidates.len() ==> !candidate_precedes(
                        dispatch_count,
                        #[trigger] candidates@[j],
                        selected->0,
                    )
                &&& forall|j: int|
                    0 <= j < k ==> candidate_precedes(
                        dispatch_count,
                        selected->0,
                        #[trigger] candidates@[j],
                    )
            },
{
    if candidates.len() == 0 {
        return None;
    }
    let oldest: bool = dispatch_count % TURN_PERIOD == OLDEST_TURN;
    let mut best: usize = 0;
    let mut at: usize = 1;
    while at < candidates.len()
        invariant
            oldest <==> dispatch_count % 8 == 7,
            best < at <= candidates.len(),
            forall|j: int|
                0 <= j < at ==> !candidate_precedes(
                    dispatch_count,
                    #[trigger] candidates@[j],
                    candidates@[best as int],
                ),
            forall|j: int|
                0 <= j < best ==> candidate_precedes(
                    dispatch_count,
                    candidates@[best as int],
                    #[trigger] candidates@[j],
                ),
        decreases candidates.len() - at,
    {
        let candidate = candidates[at];
        let current = candidates[best];
        let rank: u8 = candidate.priority.value();
        let current_rank: u8 = current.priority.value();
        let replace: bool = if oldest {
            candidate.sequence < current.sequence
        } else {
            rank > current_rank || (rank == current_rank && candidate.sequence < current.sequence)
        };
        if replace {
            best = at;
        }
        at = at + 1;
    }
    let selected = candidates[best];
    assert(candidates@[best as int] == selected);
    Some(selected)
}

/// Whether the table counts every ordering key of `uses` that occurs, and no other.
spec fn counts_keys(table: Seq<KeyUse>, uses: Multiset<Option<Seq<u8>>>) -> bool {
    &&& forall|r: int|
        0 <= r < table.len() ==> {
            &&& (#[trigger] table[r]).count == uses.count(Some(table[r].key@))
            &&& table[r].count > 0
        }
    &&& forall|r: int, s: int|
        0 <= r < s < table.len() ==> (#[trigger] table[r]).key@ != (#[trigger] table[s]).key@
    &&& forall|key: Seq<u8>|
        uses.count(Some(key)) > 0 ==> exists|r: int|
            0 <= r < table.len() && (#[trigger] table[r]).key@ == key
}

/// The table has one row for each key that occurs.
proof fn lemma_table_len(table: Seq<KeyUse>, uses: Multiset<Option<Seq<u8>>>)
    requires
        counts_keys(table, uses),
    ensures
        Set::new(|key: Seq<u8>| uses.count(Some(key)) > 0).len() == table.len(),
{
    let keys = table.map_values(|row: KeyUse| row.key@);
    assert(keys.no_duplicates()) by {
        assert forall|r: int, s: int|
            0 <= r < keys.len() && 0 <= s < keys.len() && r != s implies keys[r] != keys[s] by {
            if r < s {
                assert(table[r].key@ != table[s].key@);
            } else {
                assert(table[s].key@ != table[r].key@);
            }
        }
    }
    keys.unique_seq_to_set();
    let used = Set::new(|key: Seq<u8>| uses.count(Some(key)) > 0);
    assert forall|key: Seq<u8>| used.contains(key) implies keys.to_set().contains(key) by {
        let r = choose|r: int| 0 <= r < table.len() && (#[trigger] table[r]).key@ == key;
        assert(keys[r] == key);
    }
    assert forall|key: Seq<u8>| keys.to_set().contains(key) implies used.contains(key) by {
        let r = choose|r: int| 0 <= r < keys.len() && keys[r] == key;
        assert(table[r].key@ == key);
    }
    assert(used =~= keys.to_set());
}

/// Finds the row of a key.
fn find_key(table: &Vec<KeyUse>, key: &OrderingKey) -> (row: Option<usize>)
    ensures
        match row {
            Some(r) => r < table.len() && table@[r as int].key@ == key@,
            None => forall|r: int| 0 <= r < table.len() ==> (#[trigger] table@[r]).key@ != key@,
        },
{
    let mut r: usize = 0;
    while r < table.len()
        invariant
            r <= table.len(),
            forall|s: int| 0 <= s < r ==> (#[trigger] table@[s]).key@ != key@,
        decreases table.len() - r,
    {
        if table[r].key.same(key) {
            return Some(r);
        }
        r = r + 1;
    }
    None
}

/// Counts one more entry of a key.
fn increment_ordering_key_refcount(
    table: &mut Vec<KeyUse>,
    key: &OrderingKey,
    Ghost(uses): Ghost<Multiset<Option<Seq<u8>>>>,
)
    requires
        counts_keys(old(table)@, uses),
        uses.count(Some(key@)) < usize::MAX,
    ensures
        counts_keys(final(table)@, uses.insert(Some(key@))),
{
    let ghost before = table@;
    let ghost more = uses.insert(Some(key@));
    match find_key(table, key) {
        Some(r) => {
            let count: usize = table[r].count;
            table[r].count = count + 1;
            proof {
                assert forall|other: Seq<u8>| more.count(Some(other)) > 0 implies exists|s: int|
                    0 <= s < table@.len() && (#[trigger] table@[s]).key@ == other by {
                    if other == key@ {
                        assert(table@[r as int].key@ == other);
                    } else {
                        let s = choose|s: int|
                            0 <= s < before.len() && (#[trigger] before[s]).key@ == other;
                        assert(table@[s].key@ == other);
                    }
                }
                assert forall|s: int, t: int| 0 <= s < t < table@.len() implies (
                #[trigger] table@[s]).key@ != (#[trigger] table@[t]).key@ by {
                    assert(before[s].key@ != before[t].key@);
                }
            }
        },
        None => {
            table.push(KeyUse { key: key.clone(), count: 1 });
            proof {
                if uses.count(Some(key@)) > 0 {
                    let s = choose|s: int|
                        0 <= s < before.len() && (#[trigger] before[s]).key@ == key@;
                    assert(false);
                }
                assert forall|other: Seq<u8>| more.count(Some(other)) > 0 implies exists|s: int|
                    0 <= s < table@.len() && (#[trigger] table@[s]).key@ == other by {
                    if other == key@ {
                        assert(table@[before.len() as int].key@ == other);
                    } else {
                        let s = choose|s: int|
                            0 <= s < before.len() && (#[trigger] before[s]).key@ == other;
                        assert(table@[s].key@ == other);
                    }
                }
            }
        },
    }
}

/// Counts one entry of a key less; the last one removes its row.
fn decrement_ordering_key_refcount(
    table: &mut Vec<KeyUse>,
    key: &OrderingKey,
    Ghost(uses): Ghost<Multiset<Option<Seq<u8>>>>,
)
    requires
        counts_keys(old(table)@, uses),
        uses.count(Some(key@)) > 0,
    ensures
        counts_keys(final(table)@, uses.remove(Some(key@))),
{
    let ghost before = table@;
    let ghost fewer = uses.remove(Some(key@));
    match find_key(table, key) {
        Some(r) => {
            let count: usize = table[r].count;
            if count > 1 {
                table[r].count = count - 1;
                proof {
                    assert forall|other: Seq<u8>|
                        fewer.count(Some(other)) > 0 implies exists|s: int|
                        0 <= s < table@.len() && (#[trigger] table@[s]).key@ == other by {
                        let s = choose|s: int|
                            0 <= s < before.len() && (#[trigger] before[s]).key@ == other;
                        assert(table@[s].key@ == other);
                    }
                    assert forall|s: int, t: int| 0 <= s < t < table@.len() implies (
                    #[trigger] table@[s]).key@ != (#[trigger] table@[t]).key@ by {
                        assert(before[s].key@ != before[t].key@);
                    }
                }
            } else {
                table.remove(r);
                proof {
                    let after = table@;
                    assert(after == before.remove(r as int));
                    assert forall|s: int| 0 <= s < after.len() implies {
                        &&& (#[trigger] after[s]).count == fewer.count(Some(after[s].key@))
                        &&& after[s].count > 0
                    } by {
                        let s0 = if s < r {
                            s
                        } else {
                            s + 1
                        };
                        assert(after[s] == before[s0]);
                        if s0 < r {
                            assert(before[s0].key@ != before[r as int].key@);
                        } else {
                            assert(before[r as int].key@ != before[s0].key@);
                        }
                    }
                    assert forall|s: int, t: int| 0 <= s < t < after.len() implies (
                    #[trigger] after[s]).key@ != (#[trigger] after[t]).key@ by {
                        let s0 = if s < r {
                            s
                        } else {
                            s + 1
                        };
                        let t0 = if t < r {
                            t
                        } else {
                            t + 1
                        };
                        assert(after[s] == before[s0] && after[t] == before[t0]);
                    }
                    assert forall|other: Seq<u8>|
                        fewer.count(Some(other)) > 0 implies exists|s: int|
                        0 <= s < after.len() && (#[trigger] after[s]).key@ == other by {
                        let s = choose|s: int|
                            0 <= s < before.len() && (#[trigger] before[s]).key@ == other;
                        assert(other != key@);
                        if s < r {
                            assert(after[s].key@ == other);
                        } else {
                            assert(after[s - 1].key@ == other);
                        }
                    }
                }
            }
        },
        None => {
            proof {
                let s = choose|s: int| 0 <= s < before.len() && (#[trigger] before[s]).key@ == key@;
                assert(false);
            }
        },
    }
}

/// The views of queued entries.
pub open spec fn queue_view(queue: Seq<QueueEntry>) -> Seq<EntryView> {
    queue.map_values(|entry: QueueEntry| entry@)
}

/// The views of running entries.
pub open spec fn running_view(running: Seq<RunningEntry>) -> Seq<RunningView> {
    running.map_values(|entry: RunningEntry| entry@)
}

/// Key uses after an entry was queued.
proof fn lemma_uses_push(v: LaneView, entry: EntryView)
    ensures
        (LaneView { queue: v.queue.push(entry), ..v }).key_uses() =~= v.key_uses().insert(entry.key),
{
    broadcast use vstd::seq_lib::group_to_multiset_ensures;

    assert(queue_keys(v.queue.push(entry)) =~= queue_keys(v.queue).push(entry.key));
}

/// Key uses after a queued entry was taken out.
proof fn lemma_uses_remove(v: LaneView, i: int)
    requires
        0 <= i < v.queue.len(),
    ensures
        (LaneView { queue: v.queue.remove(i), ..v }).key_uses() =~= v.key_uses().remove(
            v.queue[i].key,
        ),
        v.key_uses().count(v.queue[i].key) > 0,
{
    broadcast use vstd::seq_lib::group_to_multiset_ensures;

    let keys = queue_keys(v.queue);
    assert(queue_keys(v.queue.remove(i)) =~= keys.remove(i));
    assert(keys[i] == v.queue[i].key);
    assert(keys.contains(keys[i]));
}

/// Key uses after a queued entry started.
proof fn lemma_uses_started(v: LaneView, i: int)
    requires
        0 <= i < v.queue.len(),
    ensures
        v.started(i).key_uses() =~= v.key_uses(),
{
    broadcast use vstd::seq_lib::group_to_multiset_ensures;

    let keys = queue_keys(v.queue);
    let running = running_keys(v.running);
    assert(queue_keys(v.queue.remove(i)) =~= keys.remove(i));
    assert(running_keys(v.started(i).running) =~= running.push(v.queue[i].key));
    assert(keys[i] == v.queue[i].key);
    assert(keys.contains(keys[i]));
}

/// Key uses after a running entry finished.
proof fn lemma_uses_finished(v: LaneView, r: int)
    requires
        0 <= r < v.running.len(),
    ensures
        (LaneView { running: v.running.remove(r), ..v }).key_uses() =~= v.key_uses().remove(
            v.running[r].key,
        ),
        v.key_uses().count(v.running[r].key) > 0,
{
    broadcast use vstd::seq_lib::group_to_multiset_ensures;

    let keys = running_keys(v.running);
    assert(running_keys(v.running.remove(r)) =~= keys.remove(r));
    assert(keys[r] == v.running[r].key);
    assert(keys.contains(keys[r]));
}

/// At most one entry is the next to start.
proof fn lemma_next_unique(v: LaneView, i: int)
    requires
        v.is_next(i),
    ensures
        v.next_start() == i,
        v.is_next(v.next_start()),
        v.any_ready(),
{
    let k = v.next_start();
    assert(v.is_next(k));
    if k != i {
        assert(v.precedes(i, k));
        assert(v.precedes(k, i));
    }
}

/// Starting the next entry keeps the invariant of a lane.
proof fn lemma_started_wf(v: LaneView, i: int)
    requires
        v.wf(),
        v.is_next(i),
        v.running.len() < v.concurrency,
    ensures
        v.started(i).wf(),
{
    let w = v.started(i);
    assert(forall|k: int| 0 <= k < i ==> w.queue[k] == v.queue[k]);
    assert(forall|k: int| i <= k < w.queue.len() ==> w.queue[k] == v.queue[k + 1]);
    assert(forall|r: int| 0 <= r < v.running.len() ==> w.running[r] == v.running[r]);
    assert(w.running[v.running.len() as int] == RunningView { id: v.queue[i].id, key: v.queue[i].key });
    assert forall|r: int, s: int|
        0 <= r < s < w.running.len() && (#[trigger] w.running[r]).key is Some implies w.running[r].key
        != (#[trigger] w.running[s]).key by {
        if s == v.running.len() && v.running[r].key == v.queue[i].key {
            assert(v.key_runs(v.queue[i].key->0));
            assert(v.ready(i));
        }
    }
}

/// What starting entries hands to the caller.
pub struct Startable {
    /// The entries to start, in order.
    pub starts: Vec<ExecutionId>,
    /// Whether the lane closes and holds nothing any more.
    pub should_exit: bool,
    /// The waiting producer to wake.
    pub wake: Option<u64>,
}

/// What a producer that stopped waiting hands to the caller.
#[derive(Clone, Copy, Debug)]
pub struct FinishedWaiter {
    /// Whether the ticket was waiting.
    pub removed: bool,
    /// The producer that is first in line now and must be woken.
    pub wake: Option<u64>,
    /// Whether observers of free capacity must be woken.
    pub notify_capacity: bool,
}

/// A lane without its runtime.
pub struct LaneMachine {
    capacity: usize,
    concurrency: usize,
    max_waiting_producers: usize,
    max_ordering_keys: usize,
    closing: bool,
    runtime_unavailable: bool,
    queue: Vec<QueueEntry>,
    running: Vec<RunningEntry>,
    waiting: Vec<u64>,
    next_waiter_sequence: u64,
    next_sequence: u64,
    dispatch_count: u64,
    key_uses: Vec<KeyUse>,
}

impl View for LaneMachine {
    type V = LaneView;

    closed spec fn view(&self) -> LaneView {
        LaneView {
            capacity: self.capacity as nat,
            concurrency: self.concurrency as nat,
            max_waiting: self.max_waiting_producers as nat,
            max_keys: self.max_ordering_keys as nat,
            closing: self.closing,
            unavailable: self.runtime_unavailable,
            queue: queue_view(self.queue@),
            running: running_view(self.running@),
            waiting: self.waiting@,
            next_waiter: self.next_waiter_sequence,
            next_sequence: self.next_sequence,
            dispatch_count: self.dispatch_count,
        }
    }
}

impl LaneMachine {
    /// The lane invariant, and that the private key table agrees with the entries.
    pub closed spec fn inv(&self) -> bool {
        &&& self@.wf()
        &&& counts_keys(self.key_uses@, self@.key_uses())
    }

    /// Every valid lane keeps the lane invariant.
    pub proof fn lemma_inv(&self)
        requires
            self.inv(),
        ensures
            self@.wf(),
    {
    }

    /// An empty lane.
    pub fn new(
        config: &LaneConfig,
        max_waiting_producers: usize,
        max_ordering_keys: usize,
    ) -> (lane: Self)
        ensures
            lane.inv(),
            lane@ == (LaneView {
                capacity: config.queue_limit() as nat,
                concurrency: config.running_limit() as nat,
                max_waiting: max_waiting_producers as nat,
                max_keys: max_ordering_keys as nat,
                closing: false,
                unavailable: false,
                queue: Seq::empty(),
                running: Seq::empty(),
                waiting: Seq::empty(),
                next_waiter: 0,
                next_sequence: 0,
                dispatch_count: 0,
            }),
    {
        let lane = LaneMachine {
            capacity: config.queue_capacity(),
            concurrency: config.max_concurrency(),
            max_waiting_producers,
            max_ordering_keys,
            closing: false,
            runtime_unavailable: false,
            queue: Vec::new(),
            running: Vec::new(),
            waiting: Vec::new(),
            next_waiter_sequence: 0,
            next_sequence: 0,
            dispatch_count: 0,
            key_uses: Vec::new(),
        };
        proof {
            broadcast use vstd::seq_lib::group_to_multiset_ensures;

            assert(lane@.queue =~= Seq::empty());
            assert(lane@.running =~= Seq::empty());
            assert(queue_keys(lane@.queue) =~= Seq::empty());
            assert(running_keys(lane@.running) =~= Seq::empty());
            assert(queue_keys(lane@.queue).to_multiset().len() == 0);
            assert(running_keys(lane@.running).to_multiset().len() == 0);
            assert forall|key: Seq<u8>| lane@.key_uses().count(Some(key)) == 0 by {
                assert(!queue_keys(lane@.queue).contains(Some(key)));
                assert(!running_keys(lane@.running).contains(Some(key)));
            }
        }
        lane
    }

    fn queue_index(&self, id: ExecutionId) -> (index: Option<usize>)
        ensures
            match index {
                Some(i) => i < self.queue.len() && self.queue@[i as int].execution_id == id,
                None => forall|i: int|
                    0 <= i < self.queue.len() ==> (#[trigger] self.queue@[i]).execution_id != id,
            },
    {
        let mut i: usize = 0;
        while i < self.queue.len()
            invariant
                i <= self.queue.len(),
                forall|k: int| 0 <= k < i ==> (#[trigger] self.queue@[k]).execution_id != id,
            decreases self.queue.len() - i,
        {
            if self.queue[i].execution_id == id {
                return Some(i);
            }
            i = i + 1;
        }
        None
    }

    fn running_index(&self, id: ExecutionId) -> (index: Option<usize>)
        ensures
            match index {
                Some(r) => r < self.running.len() && self.running@[r as int].execution_id == id,
                None => forall|r: int|
                    0 <= r < self.running.len() ==> (#[trigger] self.running@[r]).execution_id
                        != id,
            },
    {
        let mut r: usize = 0;
        while r < self.running.len()
            invariant
                r <= self.running.len(),
                forall|k: int| 0 <= k < r ==> (#[trigger] self.running@[k]).execution_id != id,
            decreases self.running.len() - r,
        {
            if self.running[r].execution_id == id {
                return Some(r);
            }
            r = r + 1;
        }
        None
    }

    /// Whether an execution is queued or runs.
    pub fn contains(&self, id: ExecutionId) -> (held: bool)
        ensures
            held <==> self@.holds(id),
    {
        match self.queue_index(id) {
            Some(i) => {
                assert(self@.queue[i as int].id == id);
                true
            },
            None => {
                let found = self.running_index(id);
                proof {
                    match found {
                        Some(r) => {
                            assert(self@.running[r as int].id == id);
                        },
                        None => {
                            assert forall|i: int| 0 <= i < self@.queue.len() implies (
                            #[trigger] self@.queue[i]).id != id by {
                                assert(self.queue@[i].execution_id != id);
                            }
                            assert forall|r: int| 0 <= r < self@.running.len() implies (
                            #[trigger] self@.running[r]).id != id by {
                                assert(self.running@[r].execution_id != id);
                            }
                        },
                    }
                }
                found.is_some()
            },
        }
    }

    fn open_for(&self, ticket: Option<u64>) -> (result: Result<(), SpawnError>)
        ensures
            match self@.closed_to(ticket) {
                Some(error) => result == Err::<(), SpawnError>(error),
                None => result is Ok,
            },
    {
        if self.runtime_unavailable {
            return Err(SpawnError::ExecutorUnavailable);
        }
        if self.closing {
            return Err(SpawnError::LaneClosing);
        }
        if self.queue.len() >= self.capacity {
            return Err(SpawnError::QueueFull);
        }
        match ticket {
            Some(ticket) => {
                if self.waiting.len() == 0 || self.waiting[0] != ticket {
                    return Err(SpawnError::QueueFull);
                }
            },
            None => {
                if self.waiting.len() > 0 {
                    return Err(SpawnError::QueueFull);
                }
            },
        }
        Ok(())
    }

    /// Whether a producer may try to submit: the executor takes work, and so does the
    /// lane.
    pub fn check_try_admission_for(
        &self,
        admission_open: bool,
        waiter_ticket: Option<u64>,
    ) -> (result: Result<(), SpawnError>)
        ensures
            !admission_open ==> result == Err::<(), SpawnError>(SpawnError::ExecutorShuttingDown),
            admission_open ==> match self@.closed_to(waiter_ticket) {
                Some(error) => result == Err::<(), SpawnError>(error),
                None => result is Ok,
            },
    {
        if !admission_open {
            return Err(SpawnError::ExecutorShuttingDown);
        }
        self.open_for(waiter_ticket)
    }

    /// Queues a prepared execution, unless the lane refuses it.
    pub fn insert_prepared(
        &mut self,
        execution_id: ExecutionId,
        options: &SpawnOptions,
        waiter_ticket: Option<u64>,
    ) -> (result: Result<(), SpawnError>)
        requires
            old(self).inv(),
            !old(self)@.holds(execution_id),
        ensures
            final(self).inv(),
            match old(self)@.refusal(options.key(), waiter_ticket) {
                Some(error) => result == Err::<(), SpawnError>(error) && final(self)@ == old(
                    self,
                )@,
                None => result is Ok && final(self)@ == (LaneView {
                    queue: old(self)@.queue.push(
                        EntryView {
                            id: execution_id,
                            rank: options.rank(),
                            key: options.key(),
                            sequence: old(self)@.next_sequence,
                        },
                    ),
                    next_sequence: (old(self)@.next_sequence + 1) as u64,
                    ..old(self)@
                }),
            },
    {
        match self.open_for(waiter_ticket) {
            Err(error) => {
                return Err(error);
            },
            Ok(_) => {},
        }
        let rank: u8 = options.configured_priority().value();
        let ordering_key: Option<OrderingKey> = match options.configured_ordering_key() {
            Some(key) => {
                match find_key(&self.key_uses, key) {
                    Some(row) => {
                        assert(self.key_uses@[row as int].count == self@.key_count(key@));
                        if self.key_uses[row].count == usize::MAX {
                            return Err(SpawnError::SequenceExhausted);
                        }
                    },
                    None => {
                        proof {
                            lemma_table_len(self.key_uses@, self@.key_uses());
                            assert(self@.keys_in_use() =~= Set::new(
                                |key: Seq<u8>| self@.key_uses().count(Some(key)) > 0,
                            ));
                            if self@.key_count(key@) > 0 {
                                let r = choose|r: int|
                                    0 <= r < self.key_uses@.len() && (
                                    #[trigger] self.key_uses@[r]).key@ == key@;
                                assert(false);
                            }
                        }
                        if self.key_uses.len() >= self.max_ordering_keys {
                            return Err(SpawnError::OrderingKeyLimitReached);
                        }
                    },
                }
                Some(key.clone())
            },
            None => None,
        };
        if self.next_sequence == u64::MAX {
            return Err(SpawnError::SequenceExhausted);
        }
        let sequence: u64 = self.next_sequence;
        let ghost v = self@;
        match &ordering_key {
            Some(key) => {
                increment_ordering_key_refcount(&mut self.key_uses, key, Ghost(v.key_uses()));
            },
            None => {},
        }
        self.next_sequence = sequence + 1;
        let entry = QueueEntry { execution_id, rank, ordering_key, sequence };
        let ghost entry_view = entry@;
        let ghost queue = self.queue@;
        self.queue.push(entry);
        proof {
            let w = self@;
            assert(w.queue =~= v.queue.push(entry_view));
            lemma_uses_push(v, entry_view);
            assert(w.key_uses() == (LaneView { queue: v.queue.push(entry_view), ..v }).key_uses());
            assert forall|i: int| 0 <= i < v.queue.len() implies (#[trigger] v.queue[i]).id
                != execution_id by {
                assert(v.queue[i].id != execution_id);
            }
            assert forall|i: int, r: int|
                0 <= i < w.queue.len() && 0 <= r < w.running.len() implies (
            #[trigger] w.queue[i]).id != (#[trigger] w.running[r]).id by {
                assert(w.running[r] == v.running[r]);
            }
        }
        Ok(())
    }

    /// Takes an execution out of the queue, if it is still there. The waiting
    /// producer that is first in line must be woken then.
    pub fn remove_queued(&mut self, execution_id: ExecutionId) -> (removed: Option<Option<u64>>)
        requires
            old(self).inv(),
        ensures
            final(self).inv(),
            match removed {
                Some(wake) => {
                    &&& wake == old(self)@.first_waiter()
                    &&& exists|i: int|
                        {
                            &&& 0 <= i < old(self)@.queue.len()
                            &&& (#[trigger] old(self)@.queue[i]).id == execution_id
                            &&& final(self)@ == (LaneView {
                                queue: old(self)@.queue.remove(i),
                                ..old(self)@
                            })
                        }
                },
                None => {
                    &&& final(self)@ == old(self)@
                    &&& forall|i: int|
                        0 <= i < old(self)@.queue.len() ==> (#[trigger] old(self)@.queue[i]).id
                            != execution_id
                },
            },
    {
        let ghost v = self@;
        let i: usize = match self.queue_index(execution_id) {
            Some(i) => i,
            None => {
                assert forall|i: int| 0 <= i < v.queue.len() implies (#[trigger] v.queue[i]).id
                    != execution_id by {
                    assert(self.queue@[i].execution_id != execution_id);
                }
                return None;
            },
        };
        assert(v.queue[i as int].id == execution_id);
        let entry = self.queue.remove(i);
        proof {
            lemma_uses_remove(v, i as int);
        }
        match &entry.ordering_key {
            Some(key) => {
                decrement_ordering_key_refcount(&mut self.key_uses, key, Ghost(v.key_uses()));
            },
            None => {},
        }
        proof {
            let w = self@;
            assert(w.queue =~= v.queue.remove(i as int));
            assert(w == LaneView { queue: v.queue.remove(i as int), ..v });
            assert(forall|k: int| 0 <= k < i ==> w.queue[k] == v.queue[k]);
            assert(forall|k: int| i <= k < w.queue.len() ==> w.queue[k] == v.queue[k + 1]);
        }
        let wake: Option<u64> = self.first_waiting();
        Some(wake)
    }

    fn first_waiting(&self) -> (ticket: Option<u64>)
        ensures
            ticket == self@.first_waiter(),
    {
        if self.waiting.len() > 0 {
            Some(self.waiting[0])
        } else {
            None
        }
    }

    fn key_is_running(&self, key: &OrderingKey) -> (runs: bool)
        ensures
            runs <==> self@.key_runs(key@),
    {
        let mut r: usize = 0;
        while r < self.running.len()
            invariant
                r <= self.running.len(),
                forall|s: int| 0 <= s < r ==> (#[trigger] self@.running[s]).key != Some(key@),
            decreases self.running.len() - r,
        {
            match &self.running[r].ordering_key {
                Some(other) => {
                    if other.same(key) {
                        assert(self@.running[r as int].key == Some(key@));
                        return true;
                    }
                },
                None => {},
            }
            assert(self@.running[r as int].key != Some(key@));
            r = r + 1;
        }
        false
    }

    fn is_ready(&self, i: usize) -> (ready: bool)
        requires
            i < self.queue.len(),
        ensures
            ready <==> self@.ready(i as int),
    {
        assert(self@.queue[i as int] == self.queue@[i as int]@);
        match &self.queue[i].ordering_key {
            Some(key) => !self.key_is_running(key),
            None => true,
        }
    }

    fn next_startable(&self) -> (index: Option<usize>)
        requires
            self@.wf(),
        ensures
            match index {
                Some(i) => self@.is_next(i as int),
                None => !self@.any_ready(),
            },
    {
        let mut candidates: Vec<ReadyCandidate> = Vec::new();
        let mut i: usize = 0;
        while i < self.queue.len()
            invariant
                self@.wf(),
                i <= self.queue.len(),
                forall|c: int|
                    0 <= c < candidates.len() ==> {
                        &&& (#[trigger] candidates@[c]).queue_index < i
                        &&& self@.ready(candidates@[c].queue_index as int)
                        &&& candidates@[c].priority@
                            == self@.queue[candidates@[c].queue_index as int].rank
                        &&& candidates@[c].sequence
                            == self@.queue[candidates@[c].queue_index as int].sequence
                    },
                forall|k: int|
                    0 <= k < i && #[trigger] self@.ready(k) ==> exists|c: int|
                        0 <= c < candidates.len() && (#[trigger] candidates@[c]).queue_index == k,
            decreases self.queue.len() - i,
        {
            let ghost before = candidates@;
            assert(self@.queue[i as int] == self.queue@[i as int]@);
            if self.is_ready(i) {
                match Priority::new(self.queue[i].rank) {
                    Ok(priority) => {
                        candidates.push(
                            ReadyCandidate {
                                queue_index: i,
                                execution_id: self.queue[i].execution_id,
                                priority,
                                sequence: self.queue[i].sequence,
                            },
                        );
                    },
                    Err(_) => {
                        assert(false);
                    },
                }
                proof {
                    assert(candidates@[before.len() as int].queue_index == i);
                    assert forall|k: int| 0 <= k < i + 1 && #[trigger] self@.ready(
                        k,
                    ) implies exists|c: int|
                        0 <= c < candidates.len() && (#[trigger] candidates@[c]).queue_index
                            == k by {
                        if k < i {
                            let c = choose|c: int|
                                0 <= c < before.len() && (#[trigger] before[c]).queue_index == k;
                            assert(candidates@[c].queue_index == k);
                        }
                    }
                }
            }
            i = i + 1;
        }
        match select_ready_candidate(self.dispatch_count, &candidates) {
            Some(selected) => {
                proof {
                    let v = self@;
                    let i = selected.queue_index as int;
                    let c = choose|c: int|
                        0 <= c < candidates.len() && #[trigger] candidates@[c] == selected;
                    assert(candidates@[c] == selected);
                    assert forall|j: int|
                        0 <= j < v.queue.len() && j != i && #[trigger] v.ready(
                            j,
                        ) implies v.precedes(i, j) by {
                        let d = choose|d: int|
                            0 <= d < candidates.len() && (#[trigger] candidates@[d]).queue_index
                                == j;
                        assert(!candidate_precedes(v.dispatch_count, candidates@[d], selected));
                        if i < j {
                            assert(v.queue[i].sequence < v.queue[j].sequence);
                        } else {
                            assert(v.queue[j].sequence < v.queue[i].sequence);
                        }
                    }
                }
                Some(selected.queue_index)
            },
            None => {
                assert forall|k: int| 0 <= k < self@.queue.len() implies !(
                #[trigger] self@.ready(k)) by {}
                None
            },
        }
    }

    /// Starts entries while concurrency and ordering keys allow it, each time the one
    /// that is next.
    pub fn take_startable(&mut self) -> (startable: Startable)
        requires
            old(self).inv(),
        ensures
            final(self).inv(),
            final(self)@ == old(self)@.dispatched(),
            startable.starts@ == old(self)@.dispatch_order(),
            startable.should_exit <==> {
                &&& final(self)@.closing
                &&& final(self)@.queue.len() == 0
                &&& final(self)@.running.len() == 0
            },
            startable.wake == if startable.starts.len() > 0 {
                final(self)@.first_waiter()
            } else {
                None
            },
    {
        let mut starts: Vec<ExecutionId> = Vec::new();
        let ghost first = self@;
        while self.running.len() < self.concurrency
            invariant_except_break
                self.inv(),
                self@.dispatched() == first.dispatched(),
                starts@ + self@.dispatch_order() == first.dispatch_order(),
            ensures
                self.inv(),
                self@ == first.dispatched(),
                starts@ == first.dispatch_order(),
            decreases self.queue.len(),
        {
            let ghost v = self@;
            let i: usize = match self.next_startable() {
                Some(i) => i,
                None => {
                    assert(starts@ + Seq::<ExecutionId>::empty() =~= starts@);
                    break;
                },
            };
            proof {
                lemma_next_unique(v, i as int);
                lemma_started_wf(v, i as int);
                lemma_uses_started(v, i as int);
            }
            let ghost entry_view = v.queue[i as int];
            assert(entry_view == self.queue@[i as int]@);
            let entry = self.queue.remove(i);
            self.running.push(
                RunningEntry { execution_id: entry.execution_id, ordering_key: entry.ordering_key },
            );
            self.dispatch_count = if self.dispatch_count < u64::MAX {
                self.dispatch_count + 1
            } else {
                0
            };
            let ghost before = starts@;
            starts.push(entry.execution_id);
            proof {
                let w = self@;
                assert(w.queue =~= v.queue.remove(i as int));
                assert(w.running =~= v.started(i as int).running);
                assert(w == v.started(i as int));
                assert(before + v.dispatch_order() =~= starts@ + w.dispatch_order());
            }
        }
        let should_exit: bool = self.closing && self.queue.len() == 0 && self.running.len() == 0;
        let wake: Option<u64> = if starts.len() > 0 {
            self.first_waiting()
        } else {
            None
        };
        Startable { starts, should_exit, wake }
    }

    /// Frees the place and the ordering key of an execution that ran.
    pub fn execution_finished(&mut self, execution_id: ExecutionId) -> (ran: bool)
        requires
            old(self).inv(),
        ensures
            final(self).inv(),
            ran ==> exists|r: int|
                {
                    &&& 0 <= r < old(self)@.running.len()
                    &&& (#[trigger] old(self)@.running[r]).id == execution_id
                    &&& final(self)@ == (LaneView {
                        running: old(self)@.running.remove(r),
                        ..old(self)@
                    })
                },
            !ran ==> {
                &&& final(self)@ == old(self)@
                &&& forall|r: int|
                    0 <= r < old(self)@.running.len() ==> (#[trigger] old(self)@.running[r]).id
                        != execution_id
            },
    {
        let ghost v = self@;
        let r: usize = match self.running_index(execution_id) {
            Some(r) => r,
            None => {
                assert forall|r: int| 0 <= r < v.running.len() implies (#[trigger] v.running[r]).id
                    != execution_id by {
                    assert(self.running@[r].execution_id != execution_id);
                }
                return false;
            },
        };
        assert(v.running[r as int].id == execution_id);
        let entry = self.running.remove(r);
        proof {
            lemma_uses_finished(v, r as int);
        }
        match &entry.ordering_key {
            Some(key) => {
                decrement_ordering_key_refcount(&mut self.key_uses, key, Ghost(v.key_uses()));
            },
            None => {},
        }
        proof {
            let w = self@;
            assert(w.running =~= v.running.remove(r as int));
            assert(w == LaneView { running: v.running.remove(r as int), ..v });
            assert(forall|k: int| 0 <= k < r ==> w.running[k] == v.running[k]);
            assert(forall|k: int| r <= k < w.running.len() ==> w.running[k] == v.running[k + 1]);
        }
        true
    }

    /// Closes the lane to new work. Returns every execution that it holds, the queued
    /// ones first, and the producers to wake.
    pub fn request_close(&mut self) -> (result: (Vec<ExecutionId>, Vec<u64>))
        requires
            old(self).inv(),
        ensures
            final(self).inv(),
            final(self)@ == (LaneView { closing: true, ..old(self)@ }),
            result.0@ == old(self)@.queue.map_values(|entry: EntryView| entry.id) + old(
                self,
            )@.running.map_values(|entry: RunningView| entry.id),
            result.1@ == old(self)@.waiting,
    {
        self.closing = true;
        let mut ids: Vec<ExecutionId> = self.queued_ids();
        let mut running: Vec<ExecutionId> = self.running_ids();
        ids.append(&mut running);
        (ids, self.waiting.clone())
    }

    /// The queued executions, oldest first.
    pub fn queued_ids(&self) -> (ids: Vec<ExecutionId>)
        ensures
            ids@ == self@.queue.map_values(|entry: EntryView| entry.id),
    {
        let mut ids: Vec<ExecutionId> = Vec::new();
        let mut i: usize = 0;
        while i < self.queue.len()
            invariant
                i <= self.queue.len(),
                ids.len() == i,
                forall|k: int| 0 <= k < i ==> #[trigger] ids@[k] == self@.queue[k].id,
            decreases self.queue.len() - i,
        {
            assert(self@.queue[i as int] == self.queue@[i as int]@);
            ids.push(self.queue[i].execution_id);
            i = i + 1;
        }
        assert(ids@ =~= self@.queue.map_values(|entry: EntryView| entry.id));
        ids
    }

    /// The running executions.
    pub fn running_ids(&self) -> (ids: Vec<ExecutionId>)
        ensures
            ids@ == self@.running.map_values(|entry: RunningView| entry.id),
    {
        let mut ids: Vec<ExecutionId> = Vec::new();
        let mut r: usize = 0;
        while r < self.running.len()
            invariant
                r <= self.running.len(),
                ids.len() == r,
                forall|k: int| 0 <= k < r ==> #[trigger] ids@[k] == self@.running[k].id,
            decreases self.running.len() - r,
        {
            assert(self@.running[r as int] == self.running@[r as int]@);
            ids.push(self.running[r].execution_id);
            r = r + 1;
        }
        assert(ids@ =~= self@.running.map_values(|entry: RunningView| entry.id));
        ids
    }

    /// Empties the lane for good because nothing dispatches it any more. Returns the
    /// executions that were queued, those that ran, and the producers to wake.
    pub fn dispatcher_stopped(&mut self) -> (result: (
        Vec<ExecutionId>,
        Vec<ExecutionId>,
        Vec<u64>,
    ))
        requires
            old(self).inv(),
        ensures
            final(self).inv(),
            final(self)@ == (LaneView {
                closing: true,
                unavailable: true,
                queue: Seq::empty(),
                running: Seq::empty(),
                ..old(self)@
            }),
            result.0@ == old(self)@.queue.map_values(|entry: EntryView| entry.id),
            result.1@ == old(self)@.running.map_values(|entry: RunningView| entry.id),
            result.2@ == old(self)@.waiting,
    {
        let queued: Vec<ExecutionId> = self.queued_ids();
        let running: Vec<ExecutionId> = self.running_ids();
        self.closing = true;
        self.runtime_unavailable = true;
        self.queue.clear();
        self.running.clear();
        self.key_uses.clear();
        proof {
            broadcast use vstd::seq_lib::group_to_multiset_ensures;

            assert(self@.queue =~= Seq::empty());
            assert(self@.running =~= Seq::empty());
            assert(queue_keys(self@.queue) =~= Seq::empty());
            assert(running_keys(self@.running) =~= Seq::empty());
            assert forall|key: Seq<u8>| self@.key_uses().count(Some(key)) == 0 by {
                assert(!queue_keys(self@.queue).contains(Some(key)));
                assert(!running_keys(self@.running).contains(Some(key)));
            }
        }
        (queued, running, self.waiting.clone())
    }

    /// Lets a producer wait in line, unless too many wait.
    pub fn add_waiter(&mut self) -> (result: Result<u64, SpawnError>)
        requires
            old(self).inv(),
        ensures
            final(self).inv(),
            match result {
                Ok(ticket) => {
                    &&& old(self)@.waiting.len() < old(self)@.max_waiting
                    &&& ticket == old(self)@.next_waiter
                    &&& ticket < u64::MAX
                    &&& final(self)@ == (LaneView {
                        waiting: old(self)@.waiting.push(ticket),
                        next_waiter: (ticket + 1) as u64,
                        ..old(self)@
                    })
                },
                Err(SpawnError::WaitingProducerLimitReached) => {
                    &&& old(self)@.waiting.len() >= old(self)@.max_waiting
                    &&& final(self)@ == old(self)@
                },
                Err(SpawnError::SequenceExhausted) => {
                    &&& old(self)@.waiting.len() < old(self)@.max_waiting
                    &&& old(self)@.next_waiter == u64::MAX
                    &&& final(self)@ == old(self)@
                },
                Err(_) => false,
            },
    {
        if self.waiting.len() >= self.max_waiting_producers {
            return Err(SpawnError::WaitingProducerLimitReached);
        }
        if self.next_waiter_sequence == u64::MAX {
            return Err(SpawnError::SequenceExhausted);
        }
        let ticket: u64 = self.next_waiter_sequence;
        self.next_waiter_sequence = ticket + 1;
        self.waiting.push(ticket);
        Ok(ticket)
    }

    /// Takes a producer out of line. If it was first, the next one is woken, or, if
    /// there is none and the queue has room, whoever watches for room.
    pub fn finish_waiter(&mut self, ticket: u64) -> (finished: FinishedWaiter)
        requires
            old(self).inv(),
        ensures
            final(self).inv(),
            finished.removed <==> old(self)@.waiting.contains(ticket),
            finished.removed ==> final(self)@ == (LaneView {
                waiting: old(self)@.waiting.remove(old(self)@.waiting.index_of(ticket)),
                ..old(self)@
            }),
            !finished.removed ==> final(self)@ == old(self)@,
            finished.wake == if old(self)@.first_waiter() == Some(ticket) {
                final(self)@.first_waiter()
            } else {
                None
            },
            finished.notify_capacity <==> {
                &&& old(self)@.first_waiter() == Some(ticket)
                &&& final(self)@.waiting.len() == 0
                &&& final(self)@.queue.len() < final(self)@.capacity
            },
    {
        let ghost v = self@;
        let was_front: bool = self.waiting.len() > 0 && self.waiting[0] == ticket;
        let mut at: usize = 0;
        while at < self.waiting.len() && self.waiting[at] != ticket
            invariant
                at <= self.waiting.len(),
                forall|k: int| 0 <= k < at ==> self.waiting@[k] != ticket,
            decreases self.waiting.len() - at,
        {
            at = at + 1;
        }
        let removed: bool = at < self.waiting.len();
        if removed {
            self.waiting.remove(at);
            proof {
                let w = self@;
                assert(v.waiting.contains(v.waiting[at as int]));
                let k = v.waiting.index_of(ticket);
                if k < at {
                    assert(v.waiting[k] != ticket);
                } else if at < k {
                    assert(v.waiting[at as int] < v.waiting[k]);
                }
                assert(w.waiting =~= v.waiting.remove(at as int));
                assert(forall|k: int| 0 <= k < at ==> w.waiting[k] == v.waiting[k]);
                assert(forall|k: int|
                    at <= k < w.waiting.len() ==> w.waiting[k] == v.waiting[k + 1]);
            }
        }
        let wake: Option<u64> = if was_front {
            self.first_waiting()
        } else {
            None
        };
        let notify_capacity: bool = was_front && self.waiting.len() == 0 && self.queue.len()
            < self.capacity;
        FinishedWaiter { removed, wake, notify_capacity }
    }

    /// Counts what the lane holds. Every queued entry is either blocked by a running
    /// entry of its ordering key, or counted under its priority.
    pub fn stats(&self) -> (stats: LaneStats)
        requires
            self.inv(),
        ensures
            stats.queued_live == self@.queue.len(),
            stats.running == self@.running.len(),
            stats.available_queue_capacity == self@.capacity - self@.queue.len(),
            stats.waiting_producers == self@.waiting.len(),
            stats.blocked_by_ordering_key == self@.blocked_count(self@.queue.len() as int),
            forall|rank: int|
                0 <= rank < 8 ==> #[trigger] stats.ready_by_priority@[rank] == self@.ready_count(
                    rank,
                    self@.queue.len() as int,
                ),
    {
        let mut ready: [usize; 8] = [0, 0, 0, 0, 0, 0, 0, 0];
        let mut blocked: usize = 0;
        let mut i: usize = 0;
        while i < self.queue.len()
            invariant
                self@.wf(),
                i <= self.queue.len(),
                blocked == self@.blocked_count(i as int),
                blocked <= i,
                forall|rank: int|
                    0 <= rank < 8 ==> {
                        &&& #[trigger] ready@[rank] == self@.ready_count(rank, i as int)
                        &&& ready@[rank] <= i
                    },
            decreases self.queue.len() - i,
        {
            assert(self@.queue[i as int] == self.queue@[i as int]@);
            let ghost before = ready@;
            if self.is_ready(i) {
                let rank: usize = self.queue[i].rank as usize;
                let count: usize = ready[rank];
                ready[rank] = count + 1;
                assert forall|other: int| 0 <= other < 8 implies {
                    &&& #[trigger] ready@[other] == self@.ready_count(other, i + 1)
                    &&& ready@[other] <= i + 1
                } by {
                    assert(before[other] == self@.ready_count(other, i as int));
                }
            } else {
                blocked = blocked + 1;
                assert forall|other: int| 0 <= other < 8 implies {
                    &&& #[trigger] ready@[other] == self@.ready_count(other, i + 1)
                    &&& ready@[other] <= i + 1
                } by {
                    assert(before[other] == self@.ready_count(other, i as int));
                }
            }
            i = i + 1;
        }
        LaneStats {
            queued_live: self.queue.len(),
            running: self.running.len(),
            available_queue_capacity: self.capacity - self.queue.len(),
            waiting_producers: self.waiting.len(),
            blocked_by_ordering_key: blocked,
            ready_by_priority: ready,
        }
    }
}

/// What a producer that waits for admission does next.
#[derive(Debug)]
pub enum AdmissionStep {
    /// The submission was admitted.
    Admitted,
    /// Get a ticket and try again.
    JoinLine,
    /// Wait until woken, then try again.
    Wait,
    /// Give up with this error.
    Fail(SpawnError),
}

/// Decides after one attempt: a full queue makes the producer wait in line, every
/// other refusal ends the attempts.
pub fn admission_step(has_ticket: bool, attempt: Result<(), SpawnError>) -> (step: AdmissionStep)
    ensures
        match attempt {
            Ok(_) => step is Admitted,
            Err(SpawnError::QueueFull) => if has_ticket {
                step is Wait
            } else {
                step is JoinLine
            },
            Err(error) => step == AdmissionStep::Fail(error),
        },
{
    match attempt {
        Ok(_) => AdmissionStep::Admitted,
        Err(SpawnError::QueueFull) => {
            if has_ticket {
                AdmissionStep::Wait
            } else {
                AdmissionStep::JoinLine
            }
        },
        Err(error) => AdmissionStep::Fail(error),
    }
}

/// Refuses a submission whose own deadline has come.
pub fn check_admission_deadline(deadline: Option<Instant>, now: Instant) -> (result: Result<
    (),
    SpawnError,
>)
    ensures
        match result {
            Ok(_) => deadline is Some ==> now@ < deadline->0@,
            Err(error) => {
                &&& error == SpawnError::AdmissionDeadlineExceeded
                &&& deadline is Some
                &&& deadline->0@ <= now@
            },
        },
{
    match deadline {
        Some(deadline) => {
            if now.as_nanos() >= deadline.as_nanos() {
                Err(SpawnError::AdmissionDeadlineExceeded)
            } else {
                Ok(())
            }
        },
        None => Ok(()),
    }
}

/// The point in time until which a submission may wait for admission.
pub fn admission_deadline(now: Instant, timeout: Duration) -> (result: Result<Instant, SpawnError>)
    ensures
        match result {
            Ok(deadline) => deadline@ == now@ + timeout@,
            Err(error) => {
                &&& error == SpawnError::AdmissionTimedOut
                &&& now@ + timeout@ > MAX_NANOS
            },
        },
{
    match now.checked_add(timeout) {
        Some(deadline) => Ok(deadline),
        None => Err(SpawnError::AdmissionTimedOut),
    }
}

spec fn ranked_count(v: LaneView, ranks: int, n: int) -> nat
    decreases ranks,
{
    if ranks <= 0 {
        0
    } else {
        ranked_count(v, ranks - 1, n) + v.ready_count(ranks - 1, n)
    }
}

proof fn lemma_ranked_step(v: LaneView, ranks: int, n: int)
    requires
        n > 0,
        0 <= ranks,
    ensures
        ranked_count(v, ranks, n) == ranked_count(v, ranks, n - 1) + if v.ready(n - 1) && v.queue[n
            - 1].rank < ranks {
            1nat
        } else {
            0
        },
    decreases ranks,
{
    if ranks > 0 {
        lemma_ranked_step(v, ranks - 1, n);
    }
}

proof fn lemma_classified(v: LaneView, n: int)
    requires
        v.wf(),
        0 <= n <= v.queue.len(),
    ensures
        ranked_count(v, 8, n) + v.blocked_count(n) == n,
    decreases n,
{
    if n > 0 {
        lemma_classified(v, n - 1);
        lemma_ranked_step(v, 8, n);
        assert(v.queue[n - 1].rank <= HIGHEST_PRIORITY);
    } else {
        reveal_with_fuel(ranked_count, 9);
    }
}

/// The statistics of a lane classify every queued entry exactly once: it is blocked
/// by its ordering key, or ready under its priority.
pub proof fn lemma_stats_classify(v: LaneView)
    requires
        v.wf(),
    ensures
        v.ready_count(0, v.queue.len() as int) + v.ready_count(1, v.queue.len() as int)
            + v.ready_count(2, v.queue.len() as int) + v.ready_count(3, v.queue.len() as int)
            + v.ready_count(4, v.queue.len() as int) + v.ready_count(5, v.queue.len() as int)
            + v.ready_count(6, v.queue.len() as int) + v.ready_count(7, v.queue.len() as int)
            + v.blocked_count(v.queue.len() as int) == v.queue.len(),
{
    lemma_classified(v, v.queue.len() as int);
    reveal_with_fuel(ranked_count, 9);
}

proof fn lemma_best_of_prefix(v: LaneView, n: int) -> (best: int)
    requires
        v.wf(),
        0 <= n <= v.queue.len(),
        exists|i: int| 0 <= i < n && #[trigger] v.ready(i),
    ensures
        0 <= best < n,
        v.ready(best),
        forall|j: int| 0 <= j < n && j != best && #[trigger] v.ready(j) ==> v.precedes(best, j),
    decreases n,
{
    if exists|i: int| 0 <= i < n - 1 && #[trigger] v.ready(i) {
        let best = lemma_best_of_prefix(v, n - 1);
        if v.ready(n - 1) {
            assert(v.queue[best].sequence < v.queue[n - 1].sequence);
            if v.precedes(best, n - 1) {
                best
            } else {
                assert forall|j: int|
                    0 <= j < n && j != n - 1 && #[trigger] v.ready(j) implies v.precedes(
                    n - 1,
                    j,
                ) by {
                    if j != best {
                        assert(v.precedes(best, j));
                    }
                }
                n - 1
            }
        } else {
            best
        }
    } else {
        n - 1
    }
}

/// If any entry may start, exactly one is the next to start.
pub proof fn lemma_next_start(v: LaneView)
    requires
        v.wf(),
        v.any_ready(),
    ensures
        v.is_next(v.next_start()),
        forall|i: int| v.is_next(i) ==> i == v.next_start(),
{
    let best = lemma_best_of_prefix(v, v.queue.len() as int);
    assert(v.is_next(best));
    assert forall|i: int| v.is_next(i) implies i == v.next_start() by {
        lemma_next_unique(v, i);
    }
}

/// Dispatch keeps the invariant and leaves nothing startable: either all places are
/// taken, or every queued entry waits for its ordering key.
pub proof fn lemma_dispatch_is_maximal(v: LaneView)
    requires
        v.wf(),
    ensures
        v.dispatched().wf(),
        v.dispatched().running.len() >= v.concurrency || !v.dispatched().any_ready(),
        v.dispatched().running.len() == v.running.len() + v.dispatch_order().len(),
        v.dispatched().queue.len() + v.dispatch_order().len() == v.queue.len(),
    decreases v.queue.len(),
{
    if v.running.len() < v.concurrency && v.any_ready() {
        lemma_next_start(v);
        let i = v.next_start();
        lemma_started_wf(v, i);
        lemma_dispatch_is_maximal(v.started(i));
    }
}

/// Two entries that share an ordering key never run at the same time.
pub proof fn lemma_keys_run_alone(v: LaneView, r: int, s: int)
    requires
        v.wf(),
        0 <= r < v.running.len(),
        0 <= s < v.running.len(),
        r != s,
        v.running[r].key is Some,
    ensures
        v.running[r].key != v.running[s].key,
{
    if r < s {
        assert(v.running[r].key != v.running[s].key);
    } else if v.running[s].key is Some {
        assert(v.running[s].key != v.running[r].key);
    }
}

/// Only the producer that waits longest is admitted while producers wait.
pub proof fn lemma_waiters_are_served_in_order(
    v: LaneView,
    key: Option<Seq<u8>>,
    ticket: Option<u64>,
)
    requires
        v.wf(),
        v.refusal(key, ticket) is None,
        v.waiting.len() > 0,
    ensures
        ticket is Some,
        v.waiting.contains(ticket->0),
        forall|i: int| 0 <= i < v.waiting.len() ==> ticket->0 <= #[trigger] v.waiting[i],
{
    assert(v.waiting[0] == ticket->0);
}

/// A lane that closes, or that lost its runtime, admits nothing.
pub proof fn lemma_closed_lane_admits_nothing(
    v: LaneView,
    key: Option<Seq<u8>>,
    ticket: Option<u64>,
)
    requires
        v.closing || v.unavailable,
    ensures
        v.refusal(key, ticket) is Some,
{
}

/// The dispatch count after `n` more dispatches.
pub open spec fn dispatch_after(count: u64, n: nat) -> u64
    decreases n,
{
    if n == 0 {
        count
    } else {
        next_dispatch(dispatch_after(count, (n - 1) as nat))
    }
}

/// On the turn of the oldest, the next to start is the ready entry that was admitted
/// first, whatever the priorities are.
pub proof fn lemma_oldest_turn(v: LaneView, i: int)
    requires
        v.wf(),
        v.dispatch_count % 8 == 7,
        0 <= i < v.queue.len(),
        v.ready(i),
        forall|j: int| 0 <= j < i ==> !#[trigger] v.ready(j),
    ensures
        v.next_start() == i,
{
    assert forall|j: int| 0 <= j < v.queue.len() && j != i && #[trigger] v.ready(
        j,
    ) implies v.precedes(i, j) by {
        assert(i < j);
        assert(v.queue[i].sequence < v.queue[j].sequence);
    }
    assert(v.is_next(i));
    lemma_next_unique(v, i);
}

/// No starvation: of any eight dispatches in a row, one takes the oldest ready entry.
///
/// `lanes` are the states of a lane at eight consecutive dispatches, with anything in
/// between that does not dispatch, and `at` tells where in each of them the oldest
/// ready entry is queued.
pub proof fn lemma_no_starvation(lanes: Seq<LaneView>, at: Seq<int>) -> (turn: int)
    requires
        lanes.len() == 8,
        at.len() == 8,
        forall|k: int| 0 <= k < 8 ==> (#[trigger] lanes[k]).wf(),
        forall|k: int|
            0 <= k < 8 ==> (#[trigger] lanes[k]).dispatch_count == dispatch_after(
                lanes[0].dispatch_count,
                k as nat,
            ),
        forall|k: int|
            0 <= k < 8 ==> {
                &&& 0 <= #[trigger] at[k] < lanes[k].queue.len()
                &&& lanes[k].ready(at[k])
                &&& forall|j: int| 0 <= j < at[k] ==> !#[trigger] lanes[k].ready(j)
            },
    ensures
        0 <= turn < 8,
        lanes[turn].next_start() == at[turn],
{
    let count = lanes[0].dispatch_count;
    let turn = 7 - count % 8;
    lemma_dispatch_after_mod(count, turn as nat);
    assert(lanes[turn as int].dispatch_count % 8 == 7);
    assert(0 <= at[turn as int] < lanes[turn as int].queue.len());
    lemma_oldest_turn(lanes[turn as int], at[turn as int]);
    turn as int
}

proof fn lemma_dispatch_after_mod(count: u64, n: nat)
    ensures
        dispatch_after(count, n) % 8 == (count + n) % 8,
    decreases n,
{
    if n > 0 {
        lemma_dispatch_after_mod(count, (n - 1) as nat);
    }
}

/// An entry waits only for a running entry of its own key: without a key, or beside running
/// entries that have none or another one, it may start.
pub proof fn lemma_other_keys_do_not_block(v: LaneView, i: int)
    requires
        0 <= i < v.queue.len(),
        v.queue[i].key is None || forall|r: int|
            0 <= r < v.running.len() ==> (#[trigger] v.running[r]).key != v.queue[i].key,
    ensures
        v.ready(i),
{
}

/// An entry does wait for a running entry of its own key.
pub proof fn lemma_own_key_blocks(v: LaneView, i: int, r: int)
    requires
        0 <= i < v.queue.len(),
        0 <= r < v.running.len(),
        v.queue[i].key is Some,
        v.running[r].key == v.queue[i].key,
    ensures
        !v.ready(i),
{
    assert(v.running[r].key == Some(v.queue[i].key->0));
}

/// After a dispatch that leaves places free, every entry that is still queued has the very
/// key of a running entry.
pub proof fn lemma_only_own_keys_hold_back(v: LaneView, i: int) -> (r: int)
    requires
        v.wf(),
        v.dispatched().running.len() < v.concurrency,
        0 <= i < v.dispatched().queue.len(),
    ensures
        0 <= r < v.dispatched().running.len(),
        v.dispatched().queue[i].key is Some,
        v.dispatched().running[r].key == v.dispatched().queue[i].key,
{
    lemma_dispatch_is_maximal(v);
    let w = v.dispatched();
    assert(!w.ready(i));
    if w.queue[i].key is None || forall|r: int|
        0 <= r < w.running.len() ==> (#[trigger] w.running[r]).key != w.queue[i].key {
        lemma_other_keys_do_not_block(w, i);
    }
    choose|r: int| 0 <= r < w.running.len() && (#[trigger] w.running[r]).key == w.queue[i].key
}

/// Whether queued entry `i` has no running entry of its own key beside it.
pub open spec fn unhindered(v: LaneView, i: int) -> bool {
    v.queue[i].key is None || forall|r: int|
        0 <= r < v.running.len() ==> (#[trigger] v.running[r]).key != v.queue[i].key
}

/// Of two entries that may start, the one of the higher priority starts first; of equal
/// priorities, the older one. Only on every eighth dispatch does age come before priority.
pub proof fn lemma_priority_decides(v: LaneView, i: int, j: int)
    requires
        v.wf(),
        v.running.len() < v.concurrency,
        0 <= i < v.queue.len(),
        0 <= j < v.queue.len(),
        i != j,
        unhindered(v, i),
        unhindered(v, j),
        if v.dispatch_count % 8 == 7 {
            v.queue[i].sequence < v.queue[j].sequence
        } else {
            v.queue[i].rank > v.queue[j].rank || (v.queue[i].rank == v.queue[j].rank
                && v.queue[i].sequence < v.queue[j].sequence)
        },
    ensures
        v.dispatch_order().len() > 0,
        v.dispatch_order()[0] != v.queue[j].id,
{
    lemma_other_keys_do_not_block(v, i);
    lemma_other_keys_do_not_block(v, j);
    lemma_next_start(v);
    let n = v.next_start();
    assert(v.is_next(n));
    if n == j {
        assert(v.precedes(j, i));
    } else {
        assert(v.queue[n].id != v.queue[j].id) by {
            if n < j {
            } else {
                assert(v.queue[j].id != v.queue[n].id);
            }
        }
    }
}

/// An entry starts only while a place is free, and only if no running entry has its key.
pub proof fn lemma_starts_are_allowed(v: LaneView) -> (i: int)
    requires
        v.wf(),
        v.dispatch_order().len() > 0,
    ensures
        v.running.len() < v.concurrency,
        0 <= i < v.queue.len(),
        v.dispatch_order()[0] == v.queue[i].id,
        forall|r: int|
            0 <= r < v.running.len() ==> v.queue[i].key is None || (#[trigger] v.running[r]).key
                != v.queue[i].key,
        v.dispatch_order() == seq![v.queue[i].id] + (LaneView {
            queue: v.queue.remove(i),
            running: v.running.push(RunningView { id: v.queue[i].id, key: v.queue[i].key }),
            dispatch_count: if v.dispatch_count < u64::MAX {
                (v.dispatch_count + 1) as u64
            } else {
                0
            },
            ..v
        }).dispatch_order(),
        v.dispatched() == (LaneView {
            queue: v.queue.remove(i),
            running: v.running.push(RunningView { id: v.queue[i].id, key: v.queue[i].key }),
            dispatch_count: if v.dispatch_count < u64::MAX {
                (v.dispatch_count + 1) as u64
            } else {
                0
            },
            ..v
        }).dispatched(),
{
    let i = v.next_start();
    assert(v.is_next(i));
    assert forall|r: int| 0 <= r < v.running.len() implies v.queue[i].key is None || (
    #[trigger] v.running[r]).key != v.queue[i].key by {
        if v.queue[i].key is Some && v.running[r].key == v.queue[i].key {
            lemma_own_key_blocks(v, i, r);
        }
    }
    i
}

/// A dispatch only moves entries from the queue to those that run, in the order that it
/// gives out; nothing else about the lane changes but the count of dispatches.
pub proof fn lemma_dispatch_moves_entries(v: LaneView)
    requires
        v.wf(),
    ensures
        v.dispatched().running.map_values(|entry: RunningView| entry.id)
            == v.running.map_values(|entry: RunningView| entry.id) + v.dispatch_order(),
        v.dispatched().capacity == v.capacity,
        v.dispatched().concurrency == v.concurrency,
        v.dispatched().max_waiting == v.max_waiting,
        v.dispatched().max_keys == v.max_keys,
        v.dispatched().closing == v.closing,
        v.dispatched().unavailable == v.unavailable,
        v.dispatched().waiting == v.waiting,
        v.dispatched().next_waiter == v.next_waiter,
        v.dispatched().next_sequence == v.next_sequence,
        v.dispatched().dispatch_count as int % 8 == (v.dispatch_count + v.dispatch_order().len())
            % 8,
    decreases v.queue.len(),
{
    let ids = |entry: RunningView| entry.id;
    if v.dispatch_order().len() > 0 {
        let i = lemma_starts_are_allowed(v);
        let w = LaneView {
            queue: v.queue.remove(i),
            running: v.running.push(RunningView { id: v.queue[i].id, key: v.queue[i].key }),
            dispatch_count: if v.dispatch_count < u64::MAX {
                (v.dispatch_count + 1) as u64
            } else {
                0
            },
            ..v
        };
        assert(v.running.len() < v.concurrency && v.any_ready() && v.is_next(v.next_start()));
        assert(v.queue[v.next_start()].id == v.queue[i].id);
        if i < v.next_start() {
            assert(v.queue[i].id != v.queue[v.next_start()].id);
        } else if v.next_start() < i {
            assert(v.queue[v.next_start()].id != v.queue[i].id);
        }
        lemma_started_wf(v, i);
        lemma_dispatch_moves_entries(w);
        assert(v.running.push(RunningView { id: v.queue[i].id, key: v.queue[i].key }).map_values(
            ids,
        ) =~= v.running.map_values(ids).push(v.queue[i].id));
        assert(v.dispatched().running.map_values(ids) =~= v.running.map_values(ids)
            + v.dispatch_order());
    } else {
        assert(v.dispatched() == v);
        assert(v.dispatched().running.map_values(ids) =~= v.running.map_values(ids)
            + v.dispatch_order());
    }
}

/// A key is in use exactly if a queued or a running entry has it.
pub proof fn lemma_keys_in_use(v: LaneView, key: Seq<u8>)
    ensures
        v.keys_in_use().contains(key) <==> ((exists|i: int|
            0 <= i < v.queue.len() && (#[trigger] v.queue[i]).key == Some(key)) || (exists|r: int|
            0 <= r < v.running.len() && (#[trigger] v.running[r]).key == Some(key))),
        v.keys_in_use().contains(key) <==> v.key_count(key) > 0,
{
    let queued = queue_keys(v.queue);
    let running = running_keys(v.running);
    queued.to_multiset_ensures();
    running.to_multiset_ensures();
    assert(queued.to_multiset().count(Some(key)) > 0 <==> queued.contains(Some(key)));
    assert(running.to_multiset().count(Some(key)) > 0 <==> running.contains(Some(key)));
    if queued.contains(Some(key)) {
        let i = choose|i: int| 0 <= i < queued.len() && queued[i] == Some(key);
        assert(v.queue[i].key == Some(key));
    }
    if running.contains(Some(key)) {
        let r = choose|r: int| 0 <= r < running.len() && running[r] == Some(key);
        assert(v.running[r].key == Some(key));
    }
    if exists|i: int| 0 <= i < v.queue.len() && (#[trigger] v.queue[i]).key == Some(key) {
        let i = choose|i: int| 0 <= i < v.queue.len() && (#[trigger] v.queue[i]).key == Some(key);
        assert(queued[i] == Some(key));
    }
    if exists|r: int| 0 <= r < v.running.len() && (#[trigger] v.running[r]).key == Some(key) {
        let r = choose|r: int|
            0 <= r < v.running.len() && (#[trigger] v.running[r]).key == Some(key);
        assert(running[r] == Some(key));
    }
}

/// An entry without a key is admitted exactly if the lane is open, the queue has room, the
/// producer is first in line, and there is a number left; the first of these that fails
/// says why it is not.
pub proof fn lemma_admission_without_key(v: LaneView, ticket: Option<u64>)
    ensures
        v.refusal(None, ticket) is None <==> {
            &&& !v.unavailable
            &&& !v.closing
            &&& v.queue.len() < v.capacity
            &&& match ticket {
                Some(ticket) => v.waiting.len() > 0 && v.waiting[0] == ticket,
                None => v.waiting.len() == 0,
            }
            &&& v.next_sequence < u64::MAX
        },
        v.unavailable ==> v.refusal(None, ticket) == Some(SpawnError::ExecutorUnavailable),
        !v.unavailable && v.closing ==> v.refusal(None, ticket) == Some(SpawnError::LaneClosing),
        !v.unavailable && !v.closing && v.queue.len() >= v.capacity ==> v.refusal(None, ticket)
            == Some(SpawnError::QueueFull),
        !v.unavailable && !v.closing && ticket is None && v.waiting.len() > 0 ==> v.refusal(
            None,
            ticket,
        ) == Some(SpawnError::QueueFull),
{
}

/// A key changes the admission of an entry only in this: a key that no queued or running
/// entry has is refused where as many keys are in use as the lane takes. A key that is in
/// use is taken, as long as its uses can be counted.
pub proof fn lemma_admission_with_key(v: LaneView, key: Seq<u8>, ticket: Option<u64>)
    ensures
        v.refusal(None, ticket) is Some && v.refusal(None, ticket) != Some(
            SpawnError::SequenceExhausted,
        ) ==> v.refusal(Some(key), ticket) == v.refusal(None, ticket),
        v.refusal(None, ticket) is None && v.keys_in_use().contains(key) && v.key_count(key)
            < usize::MAX ==> v.refusal(Some(key), ticket) is None,
        v.refusal(None, ticket) is None && !v.keys_in_use().contains(key)
            && v.keys_in_use().len() < v.max_keys ==> v.refusal(Some(key), ticket) is None,
        v.refusal(None, ticket) is None && !v.keys_in_use().contains(key)
            && v.keys_in_use().len() >= v.max_keys ==> v.refusal(Some(key), ticket) == Some(
            SpawnError::OrderingKeyLimitReached,
        ),
        v.refusal(Some(key), ticket) is None ==> v.refusal(None, ticket) is None,
{
    lemma_keys_in_use(v, key);
}

/// The statistics count an entry as held back exactly if a running entry has its key, and
/// else as one that may start, under its own priority.
pub proof fn lemma_stats_count_each_entry(v: LaneView, n: int, rank: int)
    requires
        0 <= n < v.queue.len(),
    ensures
        v.blocked_count(0) == 0,
        v.ready_count(rank, 0) == 0,
        v.blocked_count(n + 1) == v.blocked_count(n) + if unhindered(v, n) {
            0nat
        } else {
            1
        },
        v.ready_count(rank, n + 1) == v.ready_count(rank, n) + if unhindered(v, n)
            && v.queue[n].rank == rank {
            1nat
        } else {
            0
        },
{
    if unhindered(v, n) {
        lemma_other_keys_do_not_block(v, n);
    } else {
        let r = choose|r: int|
            0 <= r < v.running.len() && (#[trigger] v.running[r]).key == v.queue[n].key;
        lemma_own_key_blocks(v, n, r);
    }
}

/// Who waits longest is woken first, and nobody if nobody waits.
pub proof fn lemma_longest_wait_is_first(v: LaneView)
    requires
        v.wf(),
    ensures
        v.first_waiter() is None <==> v.waiting.len() == 0,
        forall|i: int|
            0 <= i < v.waiting.len() ==> v.first_waiter()->0 <= #[trigger] v.waiting[i],
        v.first_waiter() is Some ==> v.waiting.contains(v.first_waiter()->0),
{
    if v.waiting.len() > 0 {
        assert(v.waiting[0] == v.first_waiter()->0);
    }
}

/// Of two candidates the one of the higher priority comes first, and of equal priorities the
/// older one; on every eighth dispatch age alone counts.
pub proof fn lemma_candidates_by_priority_and_age(
    dispatch_count: u64,
    a: ReadyCandidate,
    b: ReadyCandidate,
)
    ensures
        dispatch_count % 8 != 7 && a.priority@ > b.priority@ ==> candidate_precedes(
            dispatch_count,
            a,
            b,
        ) && !candidate_precedes(dispatch_count, b, a),
        dispatch_count % 8 != 7 && a.priority@ == b.priority@ ==> (candidate_precedes(
            dispatch_count,
            a,
            b,
        ) <==> a.sequence < b.sequence),
        dispatch_count % 8 == 7 ==> (candidate_precedes(dispatch_count, a, b) <==> a.sequence
            < b.sequence),
{
}

/// A lane holds exactly the entries that are queued or run.
pub proof fn lemma_what_lanes_hold(v: LaneView, id: ExecutionId)
    ensures
        (forall|i: int| 0 <= i < v.queue.len() ==> (#[trigger] v.queue[i]).id != id) && (forall|
            r: int,
        |
            0 <= r < v.running.len() ==> (#[trigger] v.running[r]).id != id) <==> !v.holds(id),
{
}

} // verus!
