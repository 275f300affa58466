//! The executions that an executor knows: those that are not over, and a bounded
//! history of those that are.

use crate::error::{BeaverError, BeaverResult};
use crate::execution::{
    BatchCancelRecord, BatchCancelReport, CancelRequestOutcome, TaskExitSummary, TaskSelector,
};
use crate::ids::{ExecutionId, LaneId, ScopeId, TaskSpecId};
use crate::observation::{EventSubscribeError, ResourceLimits, TerminalRecord};
use crate::time::{Duration, Instant};
use vstd::prelude::*;
use vstd::string::StringExecFns;
use vstd::utf8::encode_utf8;

verus! {

/// An execution that is not over, as far as it can be selected by.
#[derive(Debug)]
pub struct ActiveExecution {
    pub execution_id: ExecutionId,
    pub task_spec_id: TaskSpecId,
    pub tag: Option<String>,
    pub lane_id: Option<LaneId>,
    pub scope_id: Option<ScopeId>,
}

/// An execution that is over, and when it was recorded.
#[derive(Debug)]
pub struct HistoryEntry {
    pub execution_id: ExecutionId,
    pub summary: TaskExitSummary,
    pub inserted: Instant,
}

/// Whether an execution is selected.
pub open spec fn selects(selector: TaskSelector<'_>, execution: ActiveExecution) -> bool {
    match selector {
        TaskSelector::Execution(id) => execution.execution_id == id,
        TaskSelector::Spec(id) => execution.task_spec_id == id,
        TaskSelector::Tag(tag) => execution.tag is Some && execution.tag->0@ == tag@,
        TaskSelector::Lane(id) => execution.lane_id == Some(id),
        TaskSelector::Scope(id) => execution.scope_id == Some(id),
    }
}

/// Whether a record is as old as it may get.
pub open spec fn is_expired(entry: HistoryEntry, ttl: Option<Duration>, now: Instant) -> bool {
    match ttl {
        Some(ttl) => ttl@ <= if entry.inserted@ <= now@ {
            (now@ - entry.inserted@) as nat
        } else {
            0
        },
        None => false,
    }
}

/// How many of the oldest records are expired without a gap.
pub open spec fn expired_count(
    history: Seq<HistoryEntry>,
    ttl: Option<Duration>,
    now: Instant,
) -> nat
    decreases history.len(),
{
    if history.len() > 0 && is_expired(history[0], ttl, now) {
        1 + expired_count(history.skip(1), ttl, now)
    } else {
        0
    }
}

/// The history without expired records at its old end.
pub open spec fn live_history(
    history: Seq<HistoryEntry>,
    ttl: Option<Duration>,
    now: Instant,
) -> Seq<HistoryEntry> {
    history.skip(expired_count(history, ttl, now) as int)
}

proof fn lemma_expired_count_bound(
    history: Seq<HistoryEntry>,
    ttl: Option<Duration>,
    now: Instant,
)
    ensures
        expired_count(history, ttl, now) <= history.len(),
    decreases history.len(),
{
    if history.len() > 0 && is_expired(history[0], ttl, now) {
        lemma_expired_count_bound(history.skip(1), ttl, now);
    }
}

/// The history after a record was added; a full history drops its oldest record.
pub open spec fn recorded(
    history: Seq<HistoryEntry>,
    capacity: usize,
    entry: HistoryEntry,
) -> Seq<HistoryEntry> {
    if capacity == 0 {
        history
    } else if history.len() == capacity {
        history.skip(1).push(entry)
    } else {
        history.push(entry)
    }
}

/// Whether identities ascend.
pub open spec fn ids_ascend(ids: Seq<ExecutionId>) -> bool {
    forall|i: int, j: int| 0 <= i < j < ids.len() ==> (#[trigger] ids[i]).0 < (#[trigger] ids[j]).0
}

/// The executions that an executor knows.
pub struct ExecutionRegistry {
    pub limits: ResourceLimits,
    pub active: Vec<ActiveExecution>,
    pub history: Vec<HistoryEntry>,
    pub subscribers: usize,
}

impl ExecutionRegistry {
    /// No execution occurs twice; limits are kept.
    pub open spec fn wf(&self) -> bool {
        &&& self.active.len() <= self.limits.max_active_executions
        &&& self.history.len() <= self.limits.terminal_history_capacity
        &&& self.subscribers <= self.limits.max_event_subscribers
        &&& forall|i: int, j: int|
            0 <= i < j < self.active.len() ==> (#[trigger] self.active@[i]).execution_id != (
            #[trigger] self.active@[j]).execution_id
    }

    /// Whether an execution is listed.
    pub open spec fn lists(&self, id: ExecutionId) -> bool {
        exists|i: int| 0 <= i < self.active.len() && (#[trigger] self.active@[i]).execution_id == id
    }

    /// An executor that knows nothing yet.
    pub fn new_with_limits(limits: ResourceLimits) -> (registry: Self)
        ensures
            registry.wf(),
            registry.limits == limits,
            registry.active@.len() == 0,
            registry.history@.len() == 0,
            registry.subscribers == 0,
    {
        ExecutionRegistry { limits, active: Vec::new(), history: Vec::new(), subscribers: 0 }
    }

    /// Where an execution is listed.
    fn active_index(&self, id: ExecutionId) -> (index: Option<usize>)
        ensures
            match index {
                Some(i) => i < self.active.len() && self.active@[i as int].execution_id == id,
                None => !self.lists(id),
            },
    {
        let mut i: usize = 0;
        while i < self.active.len()
            invariant
                i <= self.active.len(),
                forall|k: int| 0 <= k < i ==> (#[trigger] self.active@[k]).execution_id != id,
            decreases self.active.len() - i,
        {
            if self.active[i].execution_id == id {
                return Some(i);
            }
            i = i + 1;
        }
        None
    }

    /// Lists an execution, unless its tag is too long or too many are listed.
    pub fn register(&mut self, execution: ActiveExecution) -> (result: BeaverResult<()>)
        requires
            old(self).wf(),
            !old(self).lists(execution.execution_id),
        ensures
            final(self).wf(),
            final(self).limits == old(self).limits,
            final(self).history == old(self).history,
            final(self).subscribers == old(self).subscribers,
            ({
                let too_long = execution.tag is Some && encode_utf8(
                    execution.tag->0@,
                ).len() as usize > old(self).limits.max_tag_bytes;
                let full = old(self).active.len() >= old(self).limits.max_active_executions;
                match result {
                    Ok(_) => {
                        &&& !too_long
                        &&& !full
                        &&& final(self).active@ == old(self).active@.push(execution)
                    },
                    Err(BeaverError::ResourceLimitExceeded { resource }) => {
                        &&& too_long || full
                        &&& resource@ == if too_long {
                            "tag bytes"@
                        } else {
                            "active executions"@
                        }
                        &&& final(self).active == old(self).active
                    },
                    Err(_) => false,
                }
            }),
    {
        match &execution.tag {
            Some(tag) => {
                if tag.as_str().len() > self.limits.max_tag_bytes {
                    return Err(BeaverError::ResourceLimitExceeded { resource: "tag bytes" });
                }
            },
            None => {},
        }
        if self.active.len() >= self.limits.max_active_executions {
            return Err(BeaverError::ResourceLimitExceeded { resource: "active executions" });
        }
        self.active.push(execution);
        proof {
            let before = old(self).active@;
            assert forall|i: int, j: int| 0 <= i < j < self.active@.len() implies (
            #[trigger] self.active@[i]).execution_id != (
            #[trigger] self.active@[j]).execution_id by {
                assert(self.active@[i] == before[i]);
                if j < before.len() {
                    assert(self.active@[j] == before[j]);
                }
            }
        }
        Ok(())
    }

    /// Drops the records at the old end of the history that are expired.
    pub fn evict_expired(&mut self, now: Instant)
        requires
            old(self).wf(),
        ensures
            final(self).wf(),
            final(self).limits == old(self).limits,
            final(self).active == old(self).active,
            final(self).subscribers == old(self).subscribers,
            final(self).history@ == live_history(
                old(self).history@,
                old(self).limits.terminal_history_ttl,
                now,
            ),
    {
        let ttl: Duration = match self.limits.terminal_history_ttl {
            Some(ttl) => ttl,
            None => {
                assert(self.history@.skip(0) =~= self.history@);
                return ;
            },
        };
        let ghost all = self.history@;
        let ghost mut dropped: nat = 0;
        assert(all.skip(0) =~= all);
        while self.history.len() > 0 && now.saturating_duration_since(
            self.history[0].inserted,
        ).as_nanos() >= ttl.as_nanos()
            invariant
                self.limits == old(self).limits,
                self.limits.terminal_history_ttl == Some(ttl),
                self.active == old(self).active,
                self.subscribers == old(self).subscribers,
                dropped <= all.len(),
                self.history@ == all.skip(dropped as int),
                expired_count(all, Some(ttl), now) == dropped + expired_count(
                    self.history@,
                    Some(ttl),
                    now,
                ),
            decreases self.history.len(),
        {
            let ghost before = self.history@;
            self.history.remove(0);
            proof {
                assert(self.history@ =~= before.skip(1));
                dropped = dropped + 1;
                assert(before.skip(1) =~= all.skip(dropped as int));
            }
        }
    }

    /// Moves an execution that is over to the history.
    pub fn finish(&mut self, execution_id: ExecutionId, summary: TaskExitSummary, now: Instant)
        requires
            old(self).wf(),
        ensures
            final(self).wf(),
            final(self).limits == old(self).limits,
            final(self).subscribers == old(self).subscribers,
            !final(self).lists(execution_id),
            !old(self).lists(execution_id) ==> final(self).active@ == old(self).active@,
            old(self).lists(execution_id) ==> exists|i: int|
                {
                    &&& 0 <= i < old(self).active.len()
                    &&& (#[trigger] old(self).active@[i]).execution_id == execution_id
                    &&& final(self).active@ == old(self).active@.remove(i)
                },
            final(self).history@ == recorded(
                live_history(old(self).history@, old(self).limits.terminal_history_ttl, now),
                old(self).limits.terminal_history_capacity,
                HistoryEntry { execution_id, summary, inserted: now },
            ),
    {
        let ghost before = self.active@;
        match self.active_index(execution_id) {
            Some(i) => {
                self.active.remove(i);
                proof {
                    let after = self.active@;
                    assert(after =~= before.remove(i as int));
                    assert forall|k: int| 0 <= k < after.len() implies (
                    #[trigger] after[k]).execution_id != execution_id by {
                        if k < i {
                            assert(after[k] == before[k]);
                            assert(before[k].execution_id != before[i as int].execution_id);
                        } else {
                            assert(after[k] == before[k + 1]);
                            assert(before[i as int].execution_id != before[k + 1].execution_id);
                        }
                    }
                    assert forall|j: int, k: int| 0 <= j < k < after.len() implies (
                    #[trigger] after[j]).execution_id != (
                    #[trigger] after[k]).execution_id by {
                        let j0 = if j < i {
                            j
                        } else {
                            j + 1
                        };
                        let k0 = if k < i {
                            k
                        } else {
                            k + 1
                        };
                        assert(after[j] == before[j0] && after[k] == before[k0]);
                    }
                }
            },
            None => {},
        }
        self.evict_expired(now);
        if self.limits.terminal_history_capacity == 0 {
            return ;
        }
        if self.history.len() == self.limits.terminal_history_capacity {
            let ghost full = self.history@;
            self.history.remove(0);
            assert(self.history@ =~= full.skip(1));
        }
        self.history.push(HistoryEntry { execution_id, summary, inserted: now });
    }

    /// Counts one more subscriber, unless there are as many as may be.
    pub fn subscribe(&mut self) -> (result: Result<(), EventSubscribeError>)
        requires
            old(self).wf(),
        ensures
            final(self).wf(),
            match result {
                Ok(_) => {
                    &&& old(self).subscribers < old(self).limits.max_event_subscribers
                    &&& *final(self) == (ExecutionRegistry {
                        subscribers: (old(self).subscribers + 1) as usize,
                        ..*old(self)
                    })
                },
                Err(error) => {
                    &&& error == EventSubscribeError::SubscriberLimitReached
                    &&& old(self).subscribers >= old(self).limits.max_event_subscribers
                    &&& *final(self) == *old(self)
                },
            },
    {
        if self.subscribers >= self.limits.max_event_subscribers {
            return Err(EventSubscribeError::SubscriberLimitReached);
        }
        self.subscribers = self.subscribers + 1;
        Ok(())
    }

    /// Whether an event of an execution is worth a snapshot: somebody listens, or it is
    /// traced.
    pub fn should_capture_event_snapshot(&self, traced: bool) -> (capture: bool)
        ensures
            capture == (self.subscribers > 0 || traced),
    {
        self.subscribers > 0 || traced
    }

    /// Counts one subscriber less.
    pub fn unsubscribe(&mut self)
        requires
            old(self).wf(),
            old(self).subscribers > 0,
        ensures
            final(self).wf(),
            *final(self) == (ExecutionRegistry {
                subscribers: (old(self).subscribers - 1) as usize,
                ..*old(self)
            }),
    {
        self.subscribers = self.subscribers - 1;
    }

    /// How the executions ended that are in the history, oldest first.
    pub fn history(&mut self, now: Instant) -> (records: Vec<TerminalRecord>)
        requires
            old(self).wf(),
        ensures
            final(self).wf(),
            final(self).active == old(self).active,
            final(self).limits == old(self).limits,
            final(self).subscribers == old(self).subscribers,
            final(self).history@ == live_history(
                old(self).history@,
                old(self).limits.terminal_history_ttl,
                now,
            ),
            records@ == final(self).history@.map_values(
                |entry: HistoryEntry| (TerminalRecord {
                    execution_id: entry.execution_id,
                    summary: entry.summary,
                }),
            ),
    {
        self.evict_expired(now);
        let mut records: Vec<TerminalRecord> = Vec::new();
        let mut at: usize = 0;
        while at < self.history.len()
            invariant
                at <= self.history.len(),
                records.len() == at,
                forall|i: int|
                    0 <= i < at ==> #[trigger] records@[i] == (TerminalRecord {
                        execution_id: self.history@[i].execution_id,
                        summary: self.history@[i].summary,
                    }),
            decreases self.history.len() - at,
        {
            records.push(
                TerminalRecord {
                    execution_id: self.history[at].execution_id,
                    summary: self.history[at].summary.clone(),
                },
            );
            at = at + 1;
        }
        assert(records@ =~= self.history@.map_values(
            |entry: HistoryEntry| (TerminalRecord {
                execution_id: entry.execution_id,
                summary: entry.summary,
            }),
        ));
        records
    }

    /// How an execution ended, from its newest record.
    pub fn summary(&mut self, execution_id: ExecutionId, now: Instant) -> (summary: Option<
        TaskExitSummary,
    >)
        requires
            old(self).wf(),
        ensures
            final(self).wf(),
            final(self).active == old(self).active,
            final(self).limits == old(self).limits,
            final(self).subscribers == old(self).subscribers,
            final(self).history@ == live_history(
                old(self).history@,
                old(self).limits.terminal_history_ttl,
                now,
            ),
            match summary {
                Some(summary) => exists|i: int|
                    {
                        &&& 0 <= i < final(self).history.len()
                        &&& (#[trigger] final(self).history@[i]).execution_id == execution_id
                        &&& summary == final(self).history@[i].summary
                        &&& forall|j: int|
                            i < j < final(self).history.len() ==> (
                            #[trigger] final(self).history@[j]).execution_id != execution_id
                    },
                None => forall|i: int|
                    0 <= i < final(self).history.len() ==> (
                    #[trigger] final(self).history@[i]).execution_id != execution_id,
            },
    {
        self.evict_expired(now);
        let mut at: usize = self.history.len();
        while at > 0
            invariant
                self.wf(),
                self.active == old(self).active,
                self.limits == old(self).limits,
                self.subscribers == old(self).subscribers,
                self.history@ == live_history(
                    old(self).history@,
                    old(self).limits.terminal_history_ttl,
                    now,
                ),
                at <= self.history.len(),
                forall|j: int|
                    at <= j < self.history.len() ==> (#[trigger] self.history@[j]).execution_id
                        != execution_id,
            decreases at,
        {
            at = at - 1;
            if self.history[at].execution_id == execution_id {
                let summary = self.history[at].summary.clone();
                assert(self.history@[at as int].execution_id == execution_id);
                return Some(summary);
            }
        }
        None
    }

    fn is_selected(selector: &TaskSelector<'_>, execution: &ActiveExecution) -> (selected: bool)
        ensures
            selected <==> selects(*selector, *execution),
    {
        match selector {
            TaskSelector::Execution(id) => execution.execution_id == *id,
            TaskSelector::Spec(id) => execution.task_spec_id == *id,
            TaskSelector::Tag(tag) => {
                match &execution.tag {
                    Some(own) => *own == String::from_str(tag),
                    None => false,
                }
            },
            TaskSelector::Lane(id) => {
                match execution.lane_id {
                    Some(own) => own == *id,
                    None => false,
                }
            },
            TaskSelector::Scope(id) => {
                match execution.scope_id {
                    Some(own) => own == *id,
                    None => false,
                }
            },
        }
    }

    /// The listed executions that are selected, by identity.
    pub fn select_controls(&self, selector: &TaskSelector<'_>) -> (ids: Vec<ExecutionId>)
        requires
            self.wf(),
        ensures
            ids_ascend(ids@),
            forall|id: ExecutionId| #[trigger]
                ids@.contains(id) <==> exists|i: int|
                    0 <= i < self.active.len() && (#[trigger] self.active@[i]).execution_id == id
                        && selects(*selector, self.active@[i]),
    {
        let mut ids: Vec<ExecutionId> = Vec::new();
        let mut at: usize = 0;
        while at < self.active.len()
            invariant
                self.wf(),
                at <= self.active.len(),
                ids_ascend(ids@),
                forall|id: ExecutionId| #[trigger]
                    ids@.contains(id) <==> exists|i: int|
                        0 <= i < at && (#[trigger] self.active@[i]).execution_id == id && selects(
                            *selector,
                            self.active@[i],
                        ),
            decreases self.active.len() - at,
        {
            let ghost before = ids@;
            let id: ExecutionId = self.active[at].execution_id;
            let ghost current = self.active@[at as int];
            if Self::is_selected(selector, &self.active[at]) {
                proof {
                    if before.contains(id) {
                        let i = choose|i: int|
                            0 <= i < at && (#[trigger] self.active@[i]).execution_id == id
                                && selects(*selector, self.active@[i]);
                        assert(self.active@[i].execution_id
                            != self.active@[at as int].execution_id);
                    }
                }
                insert_id(&mut ids, id);
                assert forall|other: ExecutionId| #[trigger]
                    ids@.contains(other) <==> exists|i: int|
                        0 <= i < at + 1 && (#[trigger] self.active@[i]).execution_id == other
                            && selects(*selector, self.active@[i]) by {
                    if other == id {
                        assert(current.execution_id == other);
                    } else if before.contains(other) {
                        let i = choose|i: int|
                            0 <= i < at && (#[trigger] self.active@[i]).execution_id == other
                                && selects(*selector, self.active@[i]);
                        assert(self.active@[i].execution_id == other);
                    }
                }
            } else {
                assert forall|other: ExecutionId| #[trigger]
                    ids@.contains(other) <==> exists|i: int|
                        0 <= i < at + 1 && (#[trigger] self.active@[i]).execution_id == other
                            && selects(*selector, self.active@[i]) by {
                    if before.contains(other) {
                        let i = choose|i: int|
                            0 <= i < at && (#[trigger] self.active@[i]).execution_id == other
                                && selects(*selector, self.active@[i]);
                        assert(self.active@[i].execution_id == other);
                    }
                }
            }
            at = at + 1;
        }
        ids
    }
}

fn insert_id(ids: &mut Vec<ExecutionId>, id: ExecutionId)
    requires
        ids_ascend(old(ids)@),
        !old(ids)@.contains(id),
    ensures
        ids_ascend(final(ids)@),
        forall|other: ExecutionId| #[trigger]
            final(ids)@.contains(other) <==> old(ids)@.contains(other) || other == id,
{
    let ghost before = ids@;
    let mut low: usize = 0;
    let mut high: usize = ids.len();
    while low < high
        invariant
            ids@ == before,
            ids_ascend(before),
            !before.contains(id),
            low <= high <= ids.len(),
            forall|k: int| 0 <= k < low ==> (#[trigger] before[k]).0 < id.0,
            forall|k: int| high <= k < before.len() ==> id.0 < (#[trigger] before[k]).0,
        decreases high - low,
    {
        let middle: usize = low + (high - low) / 2;
        proof {
            assert(before[middle as int] != id) by {
                assert(before.contains(before[middle as int]));
            }
        }
        if ids[middle].0 < id.0 {
            low = middle + 1;
        } else {
            high = middle;
        }
    }
    ids.insert(low, id);
    proof {
        let after = ids@;
        assert(after[low as int] == id);
        assert forall|other: ExecutionId| #[trigger]
            after.contains(other) <==> before.contains(other) || other == id by {
            if after.contains(other) {
                let k = after.index_of(other);
                if k < low {
                    assert(before[k] == other);
                } else if k > low {
                    assert(before[k - 1] == other);
                }
            }
            if before.contains(other) {
                let k = before.index_of(other);
                if k < low {
                    assert(after[k] == other);
                } else {
                    assert(after[k + 1] == other);
                }
            }
        }
        assert forall|i: int, j: int| 0 <= i < j < after.len() implies (#[trigger] after[i]).0 < (
        #[trigger] after[j]).0 by {
            let i0 = if i <= low {
                i
            } else {
                i - 1
            };
            let j0 = if j <= low {
                j
            } else {
                j - 1
            };
            if i == low {
                assert(after[j] == before[j0]);
            } else if j == low {
                assert(after[i] == before[i0]);
            } else {
                assert(after[i] == before[i0] && after[j] == before[j0]);
            }
        }
    }
}

/// Reports the cancellation of several executions in the given order.
pub fn batch_report(ids: &Vec<ExecutionId>, outcomes: &Vec<CancelRequestOutcome>) -> (report:
    BatchCancelReport)
    requires
        ids.len() == outcomes.len(),
    ensures
        report.records.len() == ids.len(),
        forall|i: int|
            0 <= i < ids.len() ==> #[trigger] report.records@[i] == (BatchCancelRecord {
                execution_id: ids@[i],
                outcome: outcomes@[i],
            }),
{
    let mut records: Vec<BatchCancelRecord> = Vec::new();
    let mut at: usize = 0;
    while at < ids.len()
        invariant
            at <= ids.len(),
            ids.len() == outcomes.len(),
            records.len() == at,
            forall|i: int|
                0 <= i < at ==> #[trigger] records@[i] == (BatchCancelRecord {
                    execution_id: ids@[i],
                    outcome: outcomes@[i],
                }),
        decreases ids.len() - at,
    {
        records.push(BatchCancelRecord { execution_id: ids[at], outcome: outcomes[at] });
        at = at + 1;
    }
    BatchCancelReport { records }
}

/// If records were made in the order of time, none that remains is expired.
pub proof fn lemma_history_is_fresh(
    history: Seq<HistoryEntry>,
    ttl: Option<Duration>,
    now: Instant,
    i: int,
)
    requires
        forall|j: int, k: int|
            0 <= j < k < history.len() ==> (#[trigger] history[j]).inserted@ <= (
            #[trigger] history[k]).inserted@,
        0 <= i < live_history(history, ttl, now).len(),
    ensures
        !is_expired(live_history(history, ttl, now)[i], ttl, now),
    decreases history.len(),
{
    let n = expired_count(history, ttl, now) as int;
    lemma_expired_count_bound(history, ttl, now);
    if history.len() > 0 && is_expired(history[0], ttl, now) {
        let rest = history.skip(1);
        assert(forall|j: int| 0 <= j < rest.len() ==> rest[j] == history[j + 1]);
        lemma_expired_count_bound(rest, ttl, now);
        assert(rest.skip(n - 1) =~= history.skip(n));
        lemma_history_is_fresh(rest, ttl, now, i);
    } else {
        assert(history.skip(0) =~= history);
        if i > 0 {
            assert(history[0].inserted@ <= history[i].inserted@);
        }
    }
}

/// A record expires once it is as old as the limit says, and never without one.
pub proof fn lemma_when_records_expire(entry: HistoryEntry, ttl: Duration, now: Instant)
    ensures
        !is_expired(entry, None, now),
        ttl@ > 0 ==> (is_expired(entry, Some(ttl), now) <==> entry.inserted@ + ttl@ <= now@),
        ttl@ == 0 ==> is_expired(entry, Some(ttl), now),
{
}

/// If records were made in the order of time, exactly those that are younger than the limit
/// remain, in order, and the newest ones are the last to go.
pub proof fn lemma_young_records_remain(
    history: Seq<HistoryEntry>,
    ttl: Duration,
    now: Instant,
    i: int,
)
    requires
        forall|j: int, k: int|
            0 <= j < k < history.len() ==> (#[trigger] history[j]).inserted@ <= (
            #[trigger] history[k]).inserted@,
        ttl@ > 0,
        0 <= i < history.len(),
    ensures
        ({
            let live = live_history(history, Some(ttl), now);
            let gone = history.len() - live.len();
            &&& 0 <= gone
            &&& now@ < history[i].inserted@ + ttl@ <==> gone <= i
            &&& gone <= i ==> live[i - gone] == history[i]
        }),
        live_history(history, None, now) == history,
    decreases history.len(),
{
    let live = live_history(history, Some(ttl), now);
    let n = expired_count(history, Some(ttl), now) as int;
    lemma_expired_count_bound(history, Some(ttl), now);
    assert(history.skip(0) =~= history);
    if is_expired(history[0], Some(ttl), now) {
        let rest = history.skip(1);
        assert(forall|j: int| 0 <= j < rest.len() ==> rest[j] == history[j + 1]);
        lemma_expired_count_bound(rest, Some(ttl), now);
        assert(rest.skip(n - 1) =~= history.skip(n));
        if i > 0 {
            lemma_young_records_remain(rest, ttl, now, i - 1);
        }
    } else {
        if i > 0 {
            assert(history[0].inserted@ <= history[i].inserted@);
        }
    }
}

/// A record is added behind all others; of a full history the oldest record goes for it, and
/// a history without room takes none.
pub proof fn lemma_newest_record_is_last(
    history: Seq<HistoryEntry>,
    capacity: usize,
    entry: HistoryEntry,
)
    requires
        history.len() <= capacity,
    ensures
        ({
            let after = recorded(history, capacity, entry);
            &&& after.len() <= capacity
            &&& capacity > 0 ==> after.len() > 0 && after[after.len() - 1] == entry
            &&& history.len() < capacity ==> {
                &&& after.len() == history.len() + 1
                &&& forall|i: int| 0 <= i < history.len() ==> #[trigger] after[i] == history[i]
            }
            &&& history.len() == capacity && capacity > 0 ==> {
                &&& after.len() == capacity
                &&& forall|i: int| 0 <= i < capacity - 1 ==> #[trigger] after[i] == history[i + 1]
            }
            &&& capacity == 0 ==> after.len() == 0
        }),
{
}

/// An execution is selected by what it is: its identity, its definition, its tag, its lane or
/// its scope, and by nothing that it does not have.
pub proof fn lemma_selection_goes_by_what_is_named(
    execution: ActiveExecution,
    other: ActiveExecution,
    selector: TaskSelector<'_>,
)
    ensures
        selects(TaskSelector::Execution(execution.execution_id), other) <==> other.execution_id
            == execution.execution_id,
        selects(TaskSelector::Spec(execution.task_spec_id), other) <==> other.task_spec_id
            == execution.task_spec_id,
        selector matches TaskSelector::Tag(tag) ==> (selects(selector, other) <==> other.tag is Some
            && other.tag->0@ == tag@),
        selector matches TaskSelector::Lane(id) ==> (selects(selector, other) <==> other.lane_id
            == Some(id)),
        selector matches TaskSelector::Scope(id) ==> (selects(selector, other) <==> other.scope_id
            == Some(id)),
{
}

/// An executor lists exactly the executions that are not over.
pub proof fn lemma_what_is_listed(registry: ExecutionRegistry, id: ExecutionId)
    ensures
        (forall|i: int|
            0 <= i < registry.active.len() ==> (#[trigger] registry.active@[i]).execution_id != id)
            <==> !registry.lists(id),
{
}

/// Identities that ascend occur once, and a smaller one comes first.
pub proof fn lemma_smaller_executions_come_first(ids: Seq<ExecutionId>, i: int, j: int)
    requires
        ids_ascend(ids),
        0 <= i < ids.len(),
        0 <= j < ids.len(),
    ensures
        ids[i].0 < ids[j].0 <==> i < j,
        ids[i].0 == ids[j].0 <==> i == j,
{
}

} // verus!
