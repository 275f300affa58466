//! A bounded priority queue in front of a scheduler.
//!
//! Pending jobs are chosen by priority and age. A full queue rejects the newest
//! job, or evicts one by the configured policy. Jobs that were handed on are
//! bounded in number, and optionally in number per key.

use crate::scheduler::types::{EvictionPolicy, SubmissionFailure, TaskTerminal};
use crate::text;
use vstd::prelude::*;
use vstd::string::StringExecFns;

verus! {

/// The most pending jobs that a queue can be configured for.
pub const MAX_PENDING_CAPACITY: usize = 1_048_576;

/// What a full queue does with a new job.
#[derive(Clone, Copy, Debug, Eq, PartialEq, Structural)]
pub enum QueueOverflowPolicy {
    /// Rejects it.
    RejectNewest,
    /// Evicts the pending job that waits longest.
    EvictOldest,
    /// Evicts the longest waiting job of the lowest priority, if the new job has a
    /// strictly higher one.
    EvictLowestPriority,
    /// Replaces a pending job of the same key; other keys are rejected.
    CoalesceByKey,
}

/// Limits and policies of a dispatch queue.
#[derive(Clone, Copy, Debug, Eq, PartialEq, Structural)]
pub struct DispatchQueueConfig {
    pending_capacity: usize,
    concurrency: usize,
    overflow: QueueOverflowPolicy,
    key_concurrency: Option<usize>,
    aging_interval: usize,
}

/// What a configuration is rejected for, if it is.
pub open spec fn dispatch_config_error(
    pending_capacity: usize,
    concurrency: usize,
) -> Option<DispatchQueueConfigError> {
    if pending_capacity == 0 {
        Some(DispatchQueueConfigError::ZeroPendingCapacity)
    } else if pending_capacity > MAX_PENDING_CAPACITY {
        Some(
            DispatchQueueConfigError::PendingCapacityTooLarge {
                capacity: pending_capacity,
                maximum: MAX_PENDING_CAPACITY,
            },
        )
    } else if concurrency == 0 {
        Some(DispatchQueueConfigError::ZeroConcurrency)
    } else {
        None
    }
}

impl DispatchQueueConfig {
    #[verifier::type_invariant]
    spec fn in_range(self) -> bool {
        &&& 0 < self.pending_capacity <= MAX_PENDING_CAPACITY
        &&& 0 < self.concurrency
        &&& self.key_concurrency is Some ==> self.key_concurrency->0 > 0
        &&& 0 < self.aging_interval
    }

    /// How many jobs may be pending.
    pub closed spec fn capacity(self) -> usize {
        self.pending_capacity
    }

    /// How many jobs may be handed on.
    pub closed spec fn active_limit(self) -> usize {
        self.concurrency
    }

    /// What a full queue does.
    pub closed spec fn policy(self) -> QueueOverflowPolicy {
        self.overflow
    }

    /// How many jobs of one key may be handed on.
    pub closed spec fn key_limit(self) -> Option<usize> {
        self.key_concurrency
    }

    /// How many dispatches age a job by one point of priority.
    pub closed spec fn aging(self) -> usize {
        self.aging_interval
    }

    /// Configurations with equal settings are equal.
    pub proof fn lemma_ext(a: DispatchQueueConfig, b: DispatchQueueConfig)
        requires
            a.capacity() == b.capacity(),
            a.active_limit() == b.active_limit(),
            a.policy() == b.policy(),
            a.key_limit() == b.key_limit(),
            a.aging() == b.aging(),
        ensures
            a == b,
    {
    }

    /// A queue that rejects when it is full, has no limit per key, and ages jobs by
    /// one point with each dispatch.
    pub fn new(pending_capacity: usize, concurrency: usize) -> (result: Result<
        Self,
        DispatchQueueConfigError,
    >)
        ensures
            match dispatch_config_error(pending_capacity, concurrency) {
                Some(error) => result == Err::<Self, DispatchQueueConfigError>(error),
                None => {
                    &&& result is Ok
                    &&& result->Ok_0.capacity() == pending_capacity
                    &&& result->Ok_0.active_limit() == concurrency
                    &&& result->Ok_0.policy() == QueueOverflowPolicy::RejectNewest
                    &&& result->Ok_0.key_limit() is None
                    &&& result->Ok_0.aging() == 1
                },
            },
    {
        if pending_capacity == 0 {
            return Err(DispatchQueueConfigError::ZeroPendingCapacity);
        }
        if pending_capacity > MAX_PENDING_CAPACITY {
            return Err(
                DispatchQueueConfigError::PendingCapacityTooLarge {
                    capacity: pending_capacity,
                    maximum: MAX_PENDING_CAPACITY,
                },
            );
        }
        if concurrency == 0 {
            return Err(DispatchQueueConfigError::ZeroConcurrency);
        }
        Ok(
            DispatchQueueConfig {
                pending_capacity,
                concurrency,
                overflow: QueueOverflowPolicy::RejectNewest,
                key_concurrency: None,
                aging_interval: 1,
            },
        )
    }

    /// Sets what a full queue does.
    pub fn overflow(self, overflow: QueueOverflowPolicy) -> (config: Self)
        ensures
            config.capacity() == self.capacity(),
            config.active_limit() == self.active_limit(),
            config.policy() == overflow,
            config.key_limit() == self.key_limit(),
            config.aging() == self.aging(),
    {
        proof {
            use_type_invariant(&self);
        }
        DispatchQueueConfig { overflow, ..self }
    }

    /// Sets how many jobs of one key may be handed on; at least one.
    pub fn key_concurrency(self, concurrency: usize) -> (config: Self)
        requires
            concurrency > 0,
        ensures
            config.capacity() == self.capacity(),
            config.active_limit() == self.active_limit(),
            config.policy() == self.policy(),
            config.key_limit() == Some(concurrency),
            config.aging() == self.aging(),
    {
        proof {
            use_type_invariant(&self);
        }
        DispatchQueueConfig { key_concurrency: Some(concurrency), ..self }
    }

    /// Sets how many dispatches age a job by one point of priority; at least one.
    pub fn aging_interval(self, interval: usize) -> (config: Self)
        requires
            interval > 0,
        ensures
            config.capacity() == self.capacity(),
            config.active_limit() == self.active_limit(),
            config.policy() == self.policy(),
            config.key_limit() == self.key_limit(),
            config.aging() == interval,
    {
        proof {
            use_type_invariant(&self);
        }
        DispatchQueueConfig { aging_interval: interval, ..self }
    }

    /// How many jobs may be pending.
    pub fn pending_capacity(self) -> (capacity: usize)
        ensures
            capacity == self.capacity(),
            0 < capacity <= MAX_PENDING_CAPACITY,
    {
        proof {
            use_type_invariant(&self);
        }
        self.pending_capacity
    }

    /// How many jobs may be handed on.
    pub fn concurrency(self) -> (concurrency: usize)
        ensures
            concurrency == self.active_limit(),
            0 < concurrency,
    {
        proof {
            use_type_invariant(&self);
        }
        self.concurrency
    }

    /// What a full queue does.
    pub fn overflow_policy(self) -> (policy: QueueOverflowPolicy)
        ensures
            policy == self.policy(),
    {
        self.overflow
    }

    /// How many jobs of one key may be handed on.
    pub fn key_concurrency_limit(self) -> (limit: Option<usize>)
        ensures
            limit == self.key_limit(),
            limit is Some ==> limit->0 > 0,
    {
        proof {
            use_type_invariant(&self);
        }
        self.key_concurrency
    }

    fn aging_steps(self) -> (steps: u64)
        ensures
            steps == self.aging(),
            steps > 0,
    {
        proof {
            use_type_invariant(&self);
        }
        self.aging_interval as u64
    }
}

/// Why a dispatch queue configuration is invalid.
#[derive(Clone, Copy, Debug, Eq, PartialEq, Structural)]
pub enum DispatchQueueConfigError {
    /// No job could be pending.
    ZeroPendingCapacity,
    /// Too many jobs could be pending.
    PendingCapacityTooLarge { capacity: usize, maximum: usize },
    /// No job could be handed on.
    ZeroConcurrency,
}

impl DispatchQueueConfigError {
    /// Stable code for logs and metrics.
    pub fn code(self) -> (code: &'static str)
        ensures
            match self {
                DispatchQueueConfigError::ZeroPendingCapacity => code@ == "BB-DISPATCH-CONFIG-001"@,
                DispatchQueueConfigError::PendingCapacityTooLarge { .. } => code@
                    == "BB-DISPATCH-CONFIG-002"@,
                DispatchQueueConfigError::ZeroConcurrency => code@ == "BB-DISPATCH-CONFIG-003"@,
            },
    {
        match self {
            DispatchQueueConfigError::ZeroPendingCapacity => "BB-DISPATCH-CONFIG-001",
            DispatchQueueConfigError::PendingCapacityTooLarge { .. } => "BB-DISPATCH-CONFIG-002",
            DispatchQueueConfigError::ZeroConcurrency => "BB-DISPATCH-CONFIG-003",
        }
    }

    /// Human-readable description.
    pub fn message(&self) -> (message: String)
        ensures
            match *self {
                DispatchQueueConfigError::ZeroPendingCapacity => message@
                    == "dispatch pending capacity must be greater than zero"@,
                DispatchQueueConfigError::PendingCapacityTooLarge { capacity, maximum } => message@
                    == "dispatch pending capacity "@ + text::decimal(capacity as nat)
                    + " exceeds maximum "@ + text::decimal(maximum as nat),
                DispatchQueueConfigError::ZeroConcurrency => message@
                    == "dispatch concurrency must be greater than zero"@,
            },
    {
        match self {
            DispatchQueueConfigError::ZeroPendingCapacity => {
                String::from_str("dispatch pending capacity must be greater than zero")
            },
            DispatchQueueConfigError::PendingCapacityTooLarge { capacity, maximum } => {
                let mut message = String::from_str("dispatch pending capacity ");
                text::append_decimal(&mut message, *capacity as u64);
                message.append(" exceeds maximum ");
                text::append_decimal(&mut message, *maximum as u64);
                message
            },
            DispatchQueueConfigError::ZeroConcurrency => {
                String::from_str("dispatch concurrency must be greater than zero")
            },
        }
    }
}

/// Priority and key of one submission.
#[derive(Clone, Debug, Eq, PartialEq)]
pub struct DispatchOptions {
    priority: u8,
    key: Option<String>,
}

/// The text of an optional key.
pub open spec fn text_view(key: Option<String>) -> Option<Seq<char>> {
    match key {
        Some(key) => Some(key@),
        None => None,
    }
}

impl DispatchOptions {
    /// The base priority.
    pub closed spec fn rank(&self) -> u8 {
        self.priority
    }

    /// The key.
    pub closed spec fn key_text(&self) -> Option<Seq<char>> {
        text_view(self.key)
    }

    /// Sets the base priority; larger is more urgent.
    pub fn priority(self, priority: u8) -> (options: Self)
        ensures
            options.rank() == priority,
            options.key_text() == self.key_text(),
    {
        DispatchOptions { priority, key: self.key }
    }

    /// Sets the key.
    pub fn with_key(self, key: String) -> (options: Self)
        ensures
            options.rank() == self.rank(),
            options.key_text() == Some(key@),
    {
        DispatchOptions { priority: self.priority, key: Some(key) }
    }

    /// The base priority.
    pub fn priority_value(&self) -> (priority: u8)
        ensures
            priority == self.rank(),
    {
        self.priority
    }

    /// The key, if there is one.
    pub fn key(&self) -> (key: Option<&str>)
        ensures
            match key {
                Some(key) => self.key_text() == Some(key@),
                None => self.key_text() is None,
            },
    {
        match &self.key {
            Some(key) => Some(key.as_str()),
            None => None,
        }
    }
}

impl Default for DispatchOptions {
    /// The lowest priority and no key.
    fn default() -> (options: Self)
        ensures
            options.rank() == 0,
            options.key_text() is None,
    {
        DispatchOptions { priority: 0, key: None }
    }
}

/// A rejected submission, with its job.
#[non_exhaustive]
pub enum DispatchSubmitError<J> {
    /// The queue takes no more work.
    Closed(J),
    /// The queue is full and evicts nothing for this job.
    Full(J),
    /// Coalescing needs a key.
    KeyRequired(J),
    /// The jobs can no longer be numbered.
    SequenceExhausted(J),
    /// The queue is full although it holds nothing.
    InvariantViolation(J),
}

impl<J> DispatchSubmitError<J> {
    /// The job that was rejected.
    pub open spec fn job(self) -> J {
        match self {
            DispatchSubmitError::Closed(job) => job,
            DispatchSubmitError::Full(job) => job,
            DispatchSubmitError::KeyRequired(job) => job,
            DispatchSubmitError::SequenceExhausted(job) => job,
            DispatchSubmitError::InvariantViolation(job) => job,
        }
    }

    /// Gives the job back.
    pub fn into_job(self) -> (job: J)
        ensures
            job == self.job(),
    {
        match self {
            DispatchSubmitError::Closed(job) => job,
            DispatchSubmitError::Full(job) => job,
            DispatchSubmitError::KeyRequired(job) => job,
            DispatchSubmitError::SequenceExhausted(job) => job,
            DispatchSubmitError::InvariantViolation(job) => job,
        }
    }

    /// Stable code for logs and metrics.
    pub fn code(&self) -> (code: &'static str)
        ensures
            match *self {
                DispatchSubmitError::Closed(_) => code@ == "BB-DISPATCH-001"@,
                DispatchSubmitError::Full(_) => code@ == "BB-DISPATCH-002"@,
                DispatchSubmitError::KeyRequired(_) => code@ == "BB-DISPATCH-003"@,
                DispatchSubmitError::SequenceExhausted(_) => code@ == "BB-DISPATCH-004"@,
                DispatchSubmitError::InvariantViolation(_) => code@ == "BB-DISPATCH-006"@,
            },
    {
        match self {
            DispatchSubmitError::Closed(_) => "BB-DISPATCH-001",
            DispatchSubmitError::Full(_) => "BB-DISPATCH-002",
            DispatchSubmitError::KeyRequired(_) => "BB-DISPATCH-003",
            DispatchSubmitError::SequenceExhausted(_) => "BB-DISPATCH-004",
            DispatchSubmitError::InvariantViolation(_) => "BB-DISPATCH-006",
        }
    }

    /// Human-readable description.
    pub fn message(&self) -> (message: &'static str)
        ensures
            match *self {
                DispatchSubmitError::Closed(_) => message@ == "dispatch queue is closed"@,
                DispatchSubmitError::Full(_) => message@ == "dispatch pending queue is full"@,
                DispatchSubmitError::KeyRequired(_) => message@
                    == "coalesce-by-key requires a dispatch key"@,
                DispatchSubmitError::SequenceExhausted(_) => message@
                    == "dispatch sequence space is exhausted"@,
                DispatchSubmitError::InvariantViolation(_) => message@
                    == "dispatch queue internal state is inconsistent"@,
            },
    {
        match self {
            DispatchSubmitError::Closed(_) => "dispatch queue is closed",
            DispatchSubmitError::Full(_) => "dispatch pending queue is full",
            DispatchSubmitError::KeyRequired(_) => "coalesce-by-key requires a dispatch key",
            DispatchSubmitError::SequenceExhausted(_) => "dispatch sequence space is exhausted",
            DispatchSubmitError::InvariantViolation(_) => {
                "dispatch queue internal state is inconsistent"
            },
        }
    }
}

/// A pending job.
pub struct Pending<J> {
    pub job: J,
    pub options: DispatchOptions,
    pub ticket: u64,
    pub enqueued_epoch: u64,
}

/// A pending job: its number, when it came, its base priority and its key.
#[verifier::ext_equal]
pub struct PendingView<J> {
    pub job: J,
    pub rank: u8,
    pub key: Option<Seq<char>>,
    pub ticket: u64,
    pub epoch: u64,
}

impl<J> View for Pending<J> {
    type V = PendingView<J>;

    open spec fn view(&self) -> PendingView<J> {
        PendingView {
            job: self.job,
            rank: self.options.rank(),
            key: self.options.key_text(),
            ticket: self.ticket,
            epoch: self.enqueued_epoch,
        }
    }
}

/// What a dispatch queue holds; `active` lists the keys of the jobs handed on.
#[verifier::ext_equal]
pub struct DispatchView<J> {
    pub pending: Seq<PendingView<J>>,
    pub active: Seq<Option<Seq<char>>>,
    pub epoch: u64,
    pub next_ticket: u64,
    pub closed: bool,
}

/// How often `key` occurs among the keys of jobs handed on.
pub open spec fn key_activity(active: Seq<Option<Seq<char>>>, key: Seq<char>) -> nat
    decreases active.len(),
{
    if active.len() == 0 {
        0
    } else {
        key_activity(active.drop_last(), key) + if active.last() == Some(key) {
            1nat
        } else {
            0
        }
    }
}

proof fn lemma_activity_push(active: Seq<Option<Seq<char>>>, extra: Option<Seq<char>>, key: Seq<char>)
    ensures
        key_activity(active.push(extra), key) == key_activity(active, key) + if extra == Some(key) {
            1nat
        } else {
            0
        },
{
    assert(active.push(extra).drop_last() =~= active);
}

proof fn lemma_activity_remove(active: Seq<Option<Seq<char>>>, at: int, key: Seq<char>)
    requires
        0 <= at < active.len(),
    ensures
        key_activity(active, key) == key_activity(active.remove(at), key) + if active[at] == Some(
            key,
        ) {
            1nat
        } else {
            0
        },
    decreases active.len(),
{
    if at == active.len() - 1 {
        assert(active.remove(at) =~= active.drop_last());
    } else {
        lemma_activity_remove(active.drop_last(), at, key);
        assert(active.remove(at).drop_last() =~= active.drop_last().remove(at));
    }
}

/// The base priority of a pending job and one point for each full aging interval that
/// it waited, up to `u64::MAX`.
pub open spec fn effective_priority<J>(
    pending: PendingView<J>,
    epoch: u64,
    aging: usize,
) -> int {
    let waited = if pending.epoch <= epoch {
        epoch - pending.epoch
    } else {
        0
    };
    let priority = pending.rank + waited / (aging as int);
    if priority <= u64::MAX {
        priority
    } else {
        u64::MAX as int
    }
}

impl<J> DispatchView<J> {
    /// Whether pending job `i` may be handed on: its key is below its limit.
    pub open spec fn eligible(self, config: DispatchQueueConfig, i: int) -> bool {
        match (self.pending[i].key, config.key_limit()) {
            (Some(key), Some(limit)) => key_activity(self.active, key) < limit,
            _ => true,
        }
    }

    /// Whether pending job `i` is more urgent than `j`: by effective priority, then by
    /// waiting time.
    pub open spec fn more_urgent(self, config: DispatchQueueConfig, i: int, j: int) -> bool {
        let left = effective_priority(self.pending[i], self.epoch, config.aging());
        let right = effective_priority(self.pending[j], self.epoch, config.aging());
        left > right || (left == right && self.pending[i].ticket < self.pending[j].ticket)
    }

    /// Whether pending job `i` is the one to hand on; of equals it is the last.
    pub open spec fn is_selected(self, config: DispatchQueueConfig, i: int) -> bool {
        &&& 0 <= i < self.pending.len()
        &&& self.eligible(config, i)
        &&& forall|j: int|
            0 <= j < self.pending.len() && #[trigger] self.eligible(config, j)
                ==> !self.more_urgent(config, j, i)
        &&& forall|j: int|
            i < j < self.pending.len() && #[trigger] self.eligible(config, j)
                ==> self.more_urgent(config, i, j)
    }

    /// Whether some pending job may be handed on.
    pub open spec fn any_eligible(self, config: DispatchQueueConfig) -> bool {
        exists|i: int| 0 <= i < self.pending.len() && #[trigger] self.eligible(config, i)
    }

    /// The invariant of a dispatch queue under its configuration.
    ///
    /// Limits are kept, also per key; jobs are pending in the order of their numbers;
    /// coalescing keeps at most one pending job per key.
    pub open spec fn wf(self, config: DispatchQueueConfig) -> bool {
        &&& self.pending.len() <= config.capacity()
        &&& self.active.len() <= config.active_limit()
        &&& config.key_limit() matches Some(limit) ==> forall|key: Seq<char>| #[trigger]
            key_activity(self.active, key) <= limit
        &&& forall|i: int|
            0 <= i < self.pending.len() ==> {
                &&& (#[trigger] self.pending[i]).ticket <= self.next_ticket
                &&& self.pending[i].epoch <= self.epoch
            }
        &&& forall|i: int, j: int|
            0 <= i < j < self.pending.len() ==> (#[trigger] self.pending[i]).ticket < (
            #[trigger] self.pending[j]).ticket
        &&& config.policy() is CoalesceByKey ==> {
            &&& forall|i: int|
                0 <= i < self.pending.len() ==> (#[trigger] self.pending[i]).key is Some
            &&& forall|i: int, j: int|
                0 <= i < j < self.pending.len() ==> (#[trigger] self.pending[i]).key != (
                #[trigger] self.pending[j]).key
        }
        &&& self.closed ==> self.pending.len() == 0
    }

    /// Whether pending job `i` waits longest.
    pub open spec fn is_oldest(self, i: int) -> bool {
        &&& 0 <= i < self.pending.len()
        &&& forall|j: int|
            0 <= j < self.pending.len() ==> self.pending[i].ticket <= (
            #[trigger] self.pending[j]).ticket
    }

    /// Whether pending job `i` waits longest among those of the lowest priority.
    pub open spec fn is_lowest(self, i: int) -> bool {
        &&& 0 <= i < self.pending.len()
        &&& forall|j: int|
            0 <= j < self.pending.len() ==> {
                ||| self.pending[i].rank < (#[trigger] self.pending[j]).rank
                ||| {
                    &&& self.pending[i].rank == self.pending[j].rank
                    &&& self.pending[i].ticket <= self.pending[j].ticket
                }
            }
    }

    /// Whether a new job of this priority and key takes the place of pending job `i`,
    /// for the reason given.
    pub open spec fn evicts(
        self,
        config: DispatchQueueConfig,
        rank: u8,
        key: Option<Seq<char>>,
        i: int,
        policy: EvictionPolicy,
    ) -> bool {
        match config.policy() {
            QueueOverflowPolicy::RejectNewest => false,
            QueueOverflowPolicy::CoalesceByKey => {
                &&& policy is Coalesced
                &&& key is Some
                &&& 0 <= i < self.pending.len()
                &&& self.pending[i].key == key
            },
            QueueOverflowPolicy::EvictOldest => {
                &&& policy is Oldest
                &&& self.pending.len() >= config.capacity()
                &&& self.is_oldest(i)
            },
            QueueOverflowPolicy::EvictLowestPriority => {
                &&& policy is LowestPriority
                &&& self.pending.len() >= config.capacity()
                &&& self.is_lowest(i)
                &&& rank > self.pending[i].rank
            },
        }
    }

    /// Whether a new job of this priority and key evicts nothing and finds no room.
    pub open spec fn is_full_for(
        self,
        config: DispatchQueueConfig,
        rank: u8,
        key: Option<Seq<char>>,
    ) -> bool {
        &&& self.pending.len() >= config.capacity()
        &&& match config.policy() {
            QueueOverflowPolicy::RejectNewest => true,
            QueueOverflowPolicy::EvictOldest => false,
            QueueOverflowPolicy::EvictLowestPriority => exists|i: int|
                #![trigger self.is_lowest(i)]
                self.is_lowest(i) && rank <= self.pending[i].rank,
            QueueOverflowPolicy::CoalesceByKey => forall|i: int|
                0 <= i < self.pending.len() ==> (#[trigger] self.pending[i]).key != key,
        }
    }

    /// The queue after a job was appended.
    pub open spec fn appended(self, job: J, rank: u8, key: Option<Seq<char>>) -> DispatchView<J> {
        let ticket = (self.next_ticket + 1) as u64;
        DispatchView {
            pending: self.pending.push(
                PendingView { job, rank, key, ticket, epoch: self.epoch },
            ),
            next_ticket: ticket,
            ..self
        }
    }

    /// The queue without pending job `i`.
    pub open spec fn without(self, i: int) -> DispatchView<J> {
        DispatchView { pending: self.pending.remove(i), ..self }
    }

    /// The queue after pending job `i` was handed on.
    pub open spec fn handed_on(self, i: int) -> DispatchView<J> {
        DispatchView {
            pending: self.pending.remove(i),
            active: self.active.push(self.pending[i].key),
            epoch: if self.epoch < u64::MAX {
                (self.epoch + 1) as u64
            } else {
                u64::MAX
            },
            ..self
        }
    }
}

/// The views of pending jobs.
pub open spec fn pending_view<J>(pending: Seq<Pending<J>>) -> Seq<PendingView<J>> {
    pending.map_values(|entry: Pending<J>| entry@)
}

/// The texts of keys.
pub open spec fn keys_view(keys: Seq<Option<String>>) -> Seq<Option<Seq<char>>> {
    keys.map_values(|key: Option<String>| text_view(key))
}

/// A dispatch queue without its runtime.
pub struct DispatchState<J> {
    /// The pending jobs, oldest first.
    pub pending: Vec<Pending<J>>,
    /// The keys of the jobs that were handed on and are not over.
    pub active: Vec<Option<String>>,
    /// How many jobs were handed on.
    pub epoch: u64,
    /// The number of the last accepted job.
    pub next_ticket: u64,
    /// Whether the queue takes no more work.
    pub closed: bool,
}

impl<J> View for DispatchState<J> {
    type V = DispatchView<J>;

    open spec fn view(&self) -> DispatchView<J> {
        DispatchView {
            pending: pending_view(self.pending@),
            active: keys_view(self.active@),
            epoch: self.epoch,
            next_ticket: self.next_ticket,
            closed: self.closed,
        }
    }
}

fn same_key(a: &Option<String>, b: &Option<String>) -> (same: bool)
    ensures
        same <==> text_view(*a) == text_view(*b),
{
    match (a, b) {
        (Some(a), Some(b)) => *a == *b,
        (None, None) => true,
        _ => false,
    }
}

fn count_active(active: &Vec<Option<String>>, key: &String) -> (count: usize)
    ensures
        count == key_activity(keys_view(active@), key@),
        count <= active.len(),
{
    let mut count: usize = 0;
    let mut at: usize = 0;
    let ghost keys = keys_view(active@);
    while at < active.len()
        invariant
            keys == keys_view(active@),
            at <= active.len(),
            count <= at,
            count == key_activity(keys.take(at as int), key@),
        decreases active.len() - at,
    {
        proof {
            assert(keys.take(at + 1).drop_last() =~= keys.take(at as int));
            assert(keys.take(at + 1).last() == text_view(active@[at as int]));
        }
        match &active[at] {
            Some(other) => {
                if *other == *key {
                    count = count + 1;
                }
            },
            None => {},
        }
        at = at + 1;
    }
    assert(keys.take(active.len() as int) =~= keys);
    count
}

fn priority_of<J>(pending: &Pending<J>, epoch: u64, steps: u64) -> (priority: u64)
    requires
        steps > 0,
        steps <= usize::MAX,
    ensures
        priority == effective_priority(pending@, epoch, steps as usize),
{
    let waited: u64 = epoch.saturating_sub(pending.enqueued_epoch);
    let age: u64 = waited / steps;
    let rank: u64 = pending.options.priority_value() as u64;
    rank.saturating_add(age)
}

/// Chooses the pending job to hand on: among those whose key is below its limit the
/// one of the highest effective priority, of equal ones the longest waiting.
pub fn select_pending_index<J>(state: &DispatchState<J>, config: DispatchQueueConfig) -> (index:
    Option<usize>)
    ensures
        match index {
            Some(i) => state@.is_selected(config, i as int),
            None => !state@.any_eligible(config),
        },
{
    let steps: u64 = config.aging_steps();
    let limit: Option<usize> = config.key_concurrency_limit();
    let mut selected: Option<usize> = None;
    let mut at: usize = 0;
    while at < state.pending.len()
        invariant
            at <= state.pending.len(),
            steps == config.aging(),
            steps > 0,
            limit == config.key_limit(),
            match selected {
                Some(i) => {
                    &&& i < at
                    &&& state@.eligible(config, i as int)
                    &&& forall|j: int|
                        0 <= j < at && #[trigger] state@.eligible(config, j)
                            ==> !state@.more_urgent(config, j, i as int)
                    &&& forall|j: int|
                        i < j < at && #[trigger] state@.eligible(config, j) ==> state@.more_urgent(
                            config,
                            i as int,
                            j,
                        )
                },
                None => forall|j: int| 0 <= j < at ==> !#[trigger] state@.eligible(config, j),
            },
        decreases state.pending.len() - at,
    {
        assert(state@.pending[at as int] == state.pending@[at as int]@);
        let eligible: bool = match (&state.pending[at].options.key, limit) {
            (Some(key), Some(limit)) => count_active(&state.active, key) < limit,
            _ => true,
        };
        if eligible {
            let replace: bool = match selected {
                None => true,
                Some(current) => {
                    assert(state@.pending[current as int] == state.pending@[current as int]@);
                    let best: u64 = priority_of(&state.pending[current], state.epoch, steps);
                    let other: u64 = priority_of(&state.pending[at], state.epoch, steps);
                    let keeps: bool = best > other || (best == other
                        && state.pending[current].ticket < state.pending[at].ticket);
                    assert(keeps <==> state@.more_urgent(config, current as int, at as int));
                    !keeps
                },
            };
            if replace {
                selected = Some(at);
            }
        }
        at = at + 1;
    }
    selected
}

/// How a pending job ends without being handed on.
#[derive(Clone, Copy, Debug, Eq, PartialEq, Structural)]
pub enum PendingEnd {
    /// Another job took its place.
    Evicted { policy: EvictionPolicy },
    /// The scheduler takes no more work.
    SubmissionFailed { reason: SubmissionFailure },
    /// The queue was closed.
    ExecutorStopped,
}

impl PendingEnd {
    /// The result that the owner of the job receives.
    pub fn terminal<T, E>(self) -> (terminal: TaskTerminal<T, E>)
        ensures
            terminal == match self {
                PendingEnd::Evicted { policy } => TaskTerminal::<T, E>::Evicted { policy },
                PendingEnd::SubmissionFailed { reason } => TaskTerminal::SubmissionFailed {
                    reason,
                },
                PendingEnd::ExecutorStopped => TaskTerminal::ExecutorStopped,
            },
    {
        match self {
            PendingEnd::Evicted { policy } => TaskTerminal::Evicted { policy },
            PendingEnd::SubmissionFailed { reason } => TaskTerminal::SubmissionFailed { reason },
            PendingEnd::ExecutorStopped => TaskTerminal::ExecutorStopped,
        }
    }
}

/// The result that the owner of a job receives which was handed on: that of its run, or
/// why the scheduler did not take it.
pub fn dispatched_terminal<T, E>(submitted: Result<TaskTerminal<T, E>, SubmissionFailure>) -> (
terminal: TaskTerminal<T, E>)
    ensures
        terminal == match submitted {
            Ok(terminal) => terminal,
            Err(reason) => TaskTerminal::SubmissionFailed { reason },
        },
{
    match submitted {
        Ok(terminal) => terminal,
        Err(reason) => TaskTerminal::SubmissionFailed { reason },
    }
}

/// The result that the owner of a job receives; where none was published, the runtime
/// stopped.
pub fn received_terminal<T, E>(received: Option<TaskTerminal<T, E>>) -> (terminal: TaskTerminal<
    T,
    E,
>)
    ensures
        terminal == match received {
            Some(terminal) => terminal,
            None => TaskTerminal::ExecutorStopped,
        },
{
    match received {
        Some(terminal) => terminal,
        None => TaskTerminal::ExecutorStopped,
    }
}

/// Pending jobs, each with how it ends.
pub open spec fn ended<J>(pending: Seq<PendingView<J>>, end: PendingEnd) -> Seq<(J, PendingEnd)> {
    pending.map_values(|entry: PendingView<J>| (entry.job, end))
}

/// What became of a submission.
pub struct Submission<J> {
    /// The number of the accepted job, or the rejected job.
    pub result: Result<u64, DispatchSubmitError<J>>,
    /// The pending job that was evicted, and why.
    pub evicted: Option<(J, EvictionPolicy)>,
    /// Pending jobs that end because the scheduler takes no more work.
    pub closed: Vec<(J, PendingEnd)>,
}

proof fn lemma_without_wf<J>(v: DispatchView<J>, config: DispatchQueueConfig, i: int)
    requires
        v.wf(config),
        0 <= i < v.pending.len(),
    ensures
        v.without(i).wf(config),
{
    let w = v.without(i);
    assert(forall|k: int| 0 <= k < i ==> w.pending[k] == v.pending[k]);
    assert(forall|k: int| i <= k < w.pending.len() ==> w.pending[k] == v.pending[k + 1]);
}

proof fn lemma_appended_wf<J>(
    v: DispatchView<J>,
    config: DispatchQueueConfig,
    job: J,
    rank: u8,
    key: Option<Seq<char>>,
)
    requires
        v.wf(config),
        !v.closed,
        v.next_ticket < u64::MAX,
        v.pending.len() < config.capacity(),
        config.policy() is CoalesceByKey ==> key is Some && forall|i: int|
            0 <= i < v.pending.len() ==> (#[trigger] v.pending[i]).key != key,
    ensures
        v.appended(job, rank, key).wf(config),
{
    let w = v.appended(job, rank, key);
    assert(forall|k: int| 0 <= k < v.pending.len() ==> w.pending[k] == v.pending[k]);
}

impl<J> DispatchState<J> {
    /// An empty queue.
    pub fn new() -> (state: Self)
        ensures
            state@.pending.len() == 0,
            state@.active.len() == 0,
            state@.epoch == 0,
            state@.next_ticket == 0,
            !state@.closed,
            forall|config: DispatchQueueConfig| state@.wf(config),
    {
        DispatchState {
            pending: Vec::new(),
            active: Vec::new(),
            epoch: 0,
            next_ticket: 0,
            closed: false,
        }
    }

    fn find_pending_key(&self, key: &Option<String>) -> (index: Option<usize>)
        ensures
            match index {
                Some(i) => i < self.pending.len() && self@.pending[i as int].key == text_view(*key),
                None => forall|i: int|
                    0 <= i < self.pending.len() ==> (#[trigger] self@.pending[i]).key != text_view(
                        *key,
                    ),
            },
    {
        let mut at: usize = 0;
        while at < self.pending.len()
            invariant
                at <= self.pending.len(),
                forall|i: int|
                    0 <= i < at ==> (#[trigger] self@.pending[i]).key != text_view(*key),
            decreases self.pending.len() - at,
        {
            assert(self@.pending[at as int] == self.pending@[at as int]@);
            if same_key(&self.pending[at].options.key, key) {
                return Some(at);
            }
            at = at + 1;
        }
        None
    }

    fn oldest(&self) -> (index: usize)
        requires
            self.pending.len() > 0,
        ensures
            self@.is_oldest(index as int),
    {
        let mut best: usize = 0;
        let mut at: usize = 1;
        assert(self@.pending[0] == self.pending@[0]@);
        while at < self.pending.len()
            invariant
                best < at <= self.pending.len(),
                forall|j: int|
                    0 <= j < at ==> self@.pending[best as int].ticket <= (
                    #[trigger] self@.pending[j]).ticket,
            decreases self.pending.len() - at,
        {
            assert(self@.pending[at as int] == self.pending@[at as int]@);
            assert(self@.pending[best as int] == self.pending@[best as int]@);
            if self.pending[at].ticket < self.pending[best].ticket {
                best = at;
            }
            at = at + 1;
        }
        best
    }

    fn lowest(&self) -> (index: usize)
        requires
            self.pending.len() > 0,
        ensures
            self@.is_lowest(index as int),
    {
        let mut best: usize = 0;
        let mut at: usize = 1;
        assert(self@.pending[0] == self.pending@[0]@);
        while at < self.pending.len()
            invariant
                best < at <= self.pending.len(),
                forall|j: int|
                    0 <= j < at ==> {
                        ||| self@.pending[best as int].rank < (#[trigger] self@.pending[j]).rank
                        ||| {
                            &&& self@.pending[best as int].rank == self@.pending[j].rank
                            &&& self@.pending[best as int].ticket <= self@.pending[j].ticket
                        }
                    },
            decreases self.pending.len() - at,
        {
            assert(self@.pending[at as int] == self.pending@[at as int]@);
            assert(self@.pending[best as int] == self.pending@[best as int]@);
            let rank: u8 = self.pending[at].options.priority_value();
            let lowest: u8 = self.pending[best].options.priority_value();
            if rank < lowest || (rank == lowest && self.pending[at].ticket
                < self.pending[best].ticket) {
                best = at;
            }
            at = at + 1;
        }
        best
    }

    /// Adds a job without waiting for room.
    ///
    /// `failure` tells why the scheduler takes no more work, if it does not; the queue
    /// closes then. A rejected submission leaves the queue as it is.
    pub fn submit(
        &mut self,
        config: DispatchQueueConfig,
        failure: Option<SubmissionFailure>,
        job: J,
        options: DispatchOptions,
    ) -> (submission: Submission<J>)
        requires
            old(self)@.wf(config),
        ensures
            final(self)@.wf(config),
            failure matches Some(reason) ==> {
                &&& submission.result == Err::<u64, _>(DispatchSubmitError::Closed(job))
                &&& submission.evicted is None
                &&& submission.closed@ == ended(
                    old(self)@.pending,
                    PendingEnd::SubmissionFailed { reason },
                )
                &&& final(self)@ == (DispatchView {
                    closed: true,
                    pending: Seq::empty(),
                    ..old(self)@
                })
            },
            failure is None ==> submission.closed@ == Seq::<(J, PendingEnd)>::empty(),
            failure is None ==> match submission.result {
                Err(error) => {
                    &&& error.job() == job
                    &&& submission.evicted is None
                    &&& final(self)@ == old(self)@
                    &&& error is Closed <==> old(self)@.closed
                    &&& error is KeyRequired <==> {
                        &&& !old(self)@.closed
                        &&& config.policy() is CoalesceByKey
                        &&& options.key_text() is None
                    }
                    &&& error is Full <==> {
                        &&& !old(self)@.closed
                        &&& config.policy() is CoalesceByKey ==> options.key_text() is Some
                        &&& old(self)@.is_full_for(config, options.rank(), options.key_text())
                    }
                    &&& error is SequenceExhausted ==> old(self)@.next_ticket == u64::MAX
                    &&& !(error is InvariantViolation)
                },
                Ok(ticket) => {
                    let v = old(self)@;
                    &&& !v.closed
                    &&& v.next_ticket < u64::MAX
                    &&& !v.is_full_for(config, options.rank(), options.key_text())
                    &&& config.policy() is CoalesceByKey ==> options.key_text() is Some
                    &&& ticket == v.next_ticket + 1
                    &&& match submission.evicted {
                        Some((evicted, policy)) => exists|i: int|
                            {
                                &&& #[trigger] v.evicts(
                                    config,
                                    options.rank(),
                                    options.key_text(),
                                    i,
                                    policy,
                                )
                                &&& evicted == v.pending[i].job
                                &&& final(self)@ == v.without(i).appended(
                                    job,
                                    options.rank(),
                                    options.key_text(),
                                )
                            },
                        None => {
                            &&& v.pending.len() < config.capacity()
                            &&& config.policy() is CoalesceByKey ==> forall|i: int|
                                0 <= i < v.pending.len() ==> (#[trigger] v.pending[i]).key
                                    != options.key_text()
                            &&& final(self)@ == v.appended(
                                job,
                                options.rank(),
                                options.key_text(),
                            )
                        },
                    }
                },
            },
    {
        if let Some(reason) = failure {
            let ghost v = self@;
            let end = PendingEnd::SubmissionFailed { reason };
            proof {
                if v.closed {
                    assert(ended(v.pending, end) =~= Seq::<(J, PendingEnd)>::empty());
                    assert(v == DispatchView { closed: true, pending: Seq::empty(), ..v });
                }
            }
            let closed: Vec<(J, PendingEnd)> = self.close_with(end);
            return Submission {
                result: Err(DispatchSubmitError::Closed(job)),
                evicted: None,
                closed,
            };
        }
        if self.closed {
            return Submission {
                result: Err(DispatchSubmitError::Closed(job)),
                evicted: None,
                closed: Vec::new(),
            };
        }
        let ghost v = self@;
        let capacity: usize = config.pending_capacity();
        let mut evict: Option<(usize, EvictionPolicy)> = None;
        match config.overflow_policy() {
            QueueOverflowPolicy::CoalesceByKey => {
                if options.key.is_none() {
                    return Submission {
                        result: Err(DispatchSubmitError::KeyRequired(job)),
                        evicted: None,
                        closed: Vec::new(),
                    };
                }
                match self.find_pending_key(&options.key) {
                    Some(i) => {
                        evict = Some((i, EvictionPolicy::Coalesced));
                    },
                    None => {
                        if self.pending.len() >= capacity {
                            return Submission {
                                result: Err(DispatchSubmitError::Full(job)),
                                evicted: None,
                                closed: Vec::new(),
                            };
                        }
                    },
                }
            },
            policy => {
                if self.pending.len() >= capacity {
                    match policy {
                        QueueOverflowPolicy::EvictOldest => {
                            evict = Some((self.oldest(), EvictionPolicy::Oldest));
                        },
                        QueueOverflowPolicy::EvictLowestPriority => {
                            let lowest: usize = self.lowest();
                            assert(v.pending[lowest as int] == self.pending@[lowest as int]@);
                            if options.priority_value()
                                <= self.pending[lowest].options.priority_value() {
                                return Submission {
                                    result: Err(DispatchSubmitError::Full(job)),
                                    evicted: None,
                                    closed: Vec::new(),
                                };
                            }
                            proof {
                                assert forall|i: int| #[trigger] v.is_lowest(
                                    i,
                                ) implies v.pending[i].rank < options.rank() by {
                                    assert(v.pending[i].rank <= v.pending[lowest as int].rank);
                                }
                            }
                            evict = Some((lowest, EvictionPolicy::LowestPriority));
                        },
                        _ => {
                            return Submission {
                                result: Err(DispatchSubmitError::Full(job)),
                                evicted: None,
                                closed: Vec::new(),
                            };
                        },
                    }
                }
            },
        }
        if self.next_ticket == u64::MAX {
            return Submission {
                result: Err(DispatchSubmitError::SequenceExhausted(job)),
                evicted: None,
                closed: Vec::new(),
            };
        }
        let ghost rank = options.rank();
        let ghost key = options.key_text();
        let ticket: u64 = self.next_ticket + 1;
        let enqueued_epoch: u64 = self.epoch;
        let evicted: Option<(J, EvictionPolicy)> = match evict {
            Some((i, policy)) => {
                proof {
                    assert(v.evicts(config, rank, key, i as int, policy));
                    assert(v.pending[i as int] == self.pending@[i as int]@);
                    lemma_without_wf(v, config, i as int);
                }
                let entry = self.pending.remove(i);
                proof {
                    assert(self@.pending =~= v.pending.remove(i as int));
                    let w = v.without(i as int);
                    assert(self@ == w);
                    if config.policy() is CoalesceByKey {
                        assert forall|k: int| 0 <= k < w.pending.len() implies (
                        #[trigger] w.pending[k]).key != key by {
                            if k < i {
                                assert(w.pending[k] == v.pending[k]);
                                assert(v.pending[k].key != v.pending[i as int].key);
                            } else {
                                assert(w.pending[k] == v.pending[k + 1]);
                                assert(v.pending[i as int].key != v.pending[k + 1].key);
                            }
                        }
                    }
                }
                Some((entry.job, policy))
            },
            None => None,
        };
        let ghost before = self@;
        proof {
            lemma_appended_wf(before, config, job, rank, key);
        }
        self.next_ticket = ticket;
        self.pending.push(Pending { job, options, ticket, enqueued_epoch });
        assert(self@.pending =~= before.appended(job, rank, key).pending);
        Submission { result: Ok(ticket), evicted, closed: Vec::new() }
    }

    /// Stops taking work. Returns the pending jobs, which end as stopped.
    pub fn close(&mut self) -> (jobs: Vec<(J, PendingEnd)>)
        ensures
            old(self)@.closed ==> jobs@ == Seq::<(J, PendingEnd)>::empty() && final(self)@ == old(
                self,
            )@,
            !old(self)@.closed ==> {
                &&& jobs@ == ended(old(self)@.pending, PendingEnd::ExecutorStopped)
                &&& final(self)@ == (DispatchView {
                    closed: true,
                    pending: Seq::empty(),
                    ..old(self)@
                })
            },
    {
        self.close_with(PendingEnd::ExecutorStopped)
    }

    fn close_with(&mut self, end: PendingEnd) -> (jobs: Vec<(J, PendingEnd)>)
        ensures
            old(self)@.closed ==> jobs@ == Seq::<(J, PendingEnd)>::empty() && final(self)@ == old(
                self,
            )@,
            !old(self)@.closed ==> {
                &&& jobs@ == ended(old(self)@.pending, end)
                &&& final(self)@ == (DispatchView {
                    closed: true,
                    pending: Seq::empty(),
                    ..old(self)@
                })
            },
    {
        if self.closed {
            return Vec::new();
        }
        let ghost v = self@;
        self.closed = true;
        let mut jobs: Vec<(J, PendingEnd)> = Vec::new();
        while self.pending.len() > 0
            invariant
                self.closed,
                self@.active == v.active,
                self@.epoch == v.epoch,
                self@.next_ticket == v.next_ticket,
                jobs.len() + self.pending.len() == v.pending.len(),
                self@.pending =~= v.pending.skip(jobs.len() as int),
                forall|i: int|
                    0 <= i < jobs.len() ==> #[trigger] jobs@[i] == (v.pending[i].job, end),
            decreases self.pending.len(),
        {
            let ghost count = jobs.len() as int;
            let ghost before = self.pending@;
            let ghost shown = self@.pending;
            assert(shown[0] == v.pending[count]);
            let entry = self.pending.remove(0);
            jobs.push((entry.job, end));
            proof {
                assert(self.pending@ =~= before.remove(0));
                assert forall|k: int| 0 <= k < self@.pending.len() implies (
                #[trigger] self@.pending[k]) == v.pending.skip(count + 1)[k] by {
                    assert(shown[k + 1] == v.pending[count + 1 + k]);
                    assert(self@.pending[k] == before[k + 1]@);
                }
                assert(self@.pending =~= v.pending.skip(count + 1));
            }
        }
        assert(jobs@ =~= ended(v.pending, end));
        jobs
    }

    /// Hands the selected job on, unless the queue is closed, as many jobs are handed
    /// on as may be, or no pending job is eligible.
    pub fn take_next(&mut self, config: DispatchQueueConfig) -> (taken: Option<Pending<J>>)
        requires
            old(self)@.wf(config),
        ensures
            final(self)@.wf(config),
            match taken {
                Some(pending) => {
                    &&& !old(self)@.closed
                    &&& old(self)@.active.len() < config.active_limit()
                    &&& exists|i: int|
                        {
                            &&& #[trigger] old(self)@.is_selected(config, i)
                            &&& pending@ == old(self)@.pending[i]
                            &&& final(self)@ == old(self)@.handed_on(i)
                        }
                },
                None => {
                    &&& final(self)@ == old(self)@
                    &&& {
                        ||| old(self)@.closed
                        ||| old(self)@.active.len() >= config.active_limit()
                        ||| !old(self)@.any_eligible(config)
                    }
                },
            },
    {
        if self.closed || self.active.len() >= config.concurrency() {
            return None;
        }
        let ghost v = self@;
        let i: usize = match select_pending_index(self, config) {
            Some(i) => i,
            None => {
                return None;
            },
        };
        assert(v.pending[i as int] == self.pending@[i as int]@);
        let pending = self.pending.remove(i);
        let key: Option<String> = match &pending.options.key {
            Some(key) => Some(key.clone()),
            None => None,
        };
        self.active.push(key);
        self.epoch = self.epoch.saturating_add(1);
        proof {
            let w = self@;
            assert(w.pending =~= v.pending.remove(i as int));
            assert(w.active =~= v.active.push(v.pending[i as int].key));
            assert(w == v.handed_on(i as int));
            lemma_without_wf(v, config, i as int);
            if config.key_limit() is Some {
                assert forall|key: Seq<char>| #[trigger] key_activity(w.active, key)
                    <= config.key_limit()->0 by {
                    lemma_activity_push(v.active, v.pending[i as int].key, key);
                    assert(key_activity(v.active, key) <= config.key_limit()->0);
                }
            }
            assert forall|k: int| 0 <= k < w.pending.len() implies {
                &&& (#[trigger] w.pending[k]).ticket <= w.next_ticket
                &&& w.pending[k].epoch <= w.epoch
            } by {
                assert(v.without(i as int).pending[k] == w.pending[k]);
            }
        }
        Some(pending)
    }

    /// Frees the place of a job that was handed on under `key` and is over.
    pub fn complete(&mut self, config: DispatchQueueConfig, key: &Option<String>)
        requires
            old(self)@.wf(config),
            old(self)@.active.contains(text_view(*key)),
        ensures
            final(self)@.wf(config),
            exists|at: int|
                {
                    &&& 0 <= at < old(self)@.active.len()
                    &&& #[trigger] old(self)@.active[at] == text_view(*key)
                    &&& final(self)@ == (DispatchView {
                        active: old(self)@.active.remove(at),
                        ..old(self)@
                    })
                },
    {
        let ghost v = self@;
        let mut at: usize = 0;
        while at < self.active.len() && !same_key(&self.active[at], key)
            invariant
                self@ == v,
                v.active.contains(text_view(*key)),
                at <= self.active.len(),
                forall|i: int| 0 <= i < at ==> #[trigger] v.active[i] != text_view(*key),
            decreases self.active.len() - at,
        {
            assert(v.active[at as int] == text_view(self.active@[at as int]));
            at = at + 1;
        }
        proof {
            let i = v.active.index_of(text_view(*key));
            assert(v.active[i] == text_view(*key));
            assert(v.active[at as int] == text_view(self.active@[at as int]));
        }
        self.active.remove(at);
        proof {
            let w = self@;
            assert(w.active =~= v.active.remove(at as int));
            if config.key_limit() is Some {
                assert forall|key: Seq<char>| #[trigger] key_activity(w.active, key)
                    <= config.key_limit()->0 by {
                    lemma_activity_remove(v.active, at as int, key);
                    assert(key_activity(v.active, key) <= config.key_limit()->0);
                }
            }
        }
    }

    /// How many jobs are pending.
    pub fn pending_count(&self) -> (count: usize)
        ensures
            count == self@.pending.len(),
    {
        self.pending.len()
    }

    /// How many jobs were handed on and are not over.
    pub fn active_count(&self) -> (count: usize)
        ensures
            count == self@.active.len(),
    {
        self.active.len()
    }

    /// Whether the queue is closed and everything that it handed on is over.
    pub fn closed_and_idle(&self) -> (idle: bool)
        ensures
            idle <==> self@.closed && self@.active.len() == 0,
    {
        self.closed && self.active.len() == 0
    }
}

/// Aging beats priority: a job whose wait exceeds that of another by the difference of
/// their priorities, in aging intervals, is the more urgent one.
pub proof fn lemma_aging_beats_priority<J>(
    v: DispatchView<J>,
    config: DispatchQueueConfig,
    old_job: int,
    new_job: int,
)
    requires
        v.wf(config),
        config.aging() > 0,
        0 <= old_job < new_job < v.pending.len(),
        v.pending[new_job].epoch - v.pending[old_job].epoch >= (v.pending[new_job].rank
            - v.pending[old_job].rank) * config.aging(),
    ensures
        v.more_urgent(config, old_job, new_job),
{
    let a = v.pending[old_job];
    let b = v.pending[new_job];
    let aging = config.aging() as int;
    assert(a.ticket < b.ticket);
    let wa = v.epoch - a.epoch;
    let wb = v.epoch - b.epoch;
    let d = b.rank - a.rank;
    assert(wa / aging >= wb / aging + d) by (nonlinear_arith)
        requires
            aging > 0,
            wa - wb >= d * aging,
            wa >= 0,
            wb >= 0,
    ;
}

/// A pending job is at least as urgent as any that comes once it waited 255 aging
/// intervals, whatever the priorities are.
pub proof fn lemma_no_job_starves<J>(
    v: DispatchView<J>,
    config: DispatchQueueConfig,
    old_job: int,
    new_job: int,
)
    requires
        v.wf(config),
        config.aging() > 0,
        0 <= old_job < new_job < v.pending.len(),
        v.pending[new_job].epoch >= v.pending[old_job].epoch + 255 * config.aging(),
    ensures
        v.more_urgent(config, old_job, new_job),
{
    let d = v.pending[new_job].rank - v.pending[old_job].rank;
    let aging = config.aging() as int;
    assert(d * aging <= 255 * aging) by (nonlinear_arith)
        requires
            d <= 255,
            aging > 0,
    ;
    lemma_aging_beats_priority(v, config, old_job, new_job);
}

/// Eviction never drops a job that was handed on, and replaces exactly one pending
/// job by the new one.
pub proof fn lemma_eviction_keeps_count<J>(
    v: DispatchView<J>,
    config: DispatchQueueConfig,
    rank: u8,
    key: Option<Seq<char>>,
    i: int,
    policy: EvictionPolicy,
    job: J,
)
    requires
        v.evicts(config, rank, key, i, policy),
    ensures
        v.without(i).appended(job, rank, key).pending.len() == v.pending.len(),
        v.without(i).appended(job, rank, key).active == v.active,
{
}

/// How often a key is active is how often it occurs among the jobs handed on.
pub proof fn lemma_activity_counts_occurrences(active: Seq<Option<Seq<char>>>, key: Seq<char>)
    ensures
        key_activity(active, key) == active.to_multiset().count(Some(key)),
    decreases active.len(),
{
    broadcast use vstd::seq_lib::group_to_multiset_ensures;

    if active.len() > 0 {
        lemma_activity_counts_occurrences(active.drop_last(), key);
        assert(active =~= active.drop_last().push(active.last()));
    }
}

/// A job may be handed on exactly if its key is not at its limit: a job without a key, or
/// a queue without such a limit, is never held back.
pub proof fn lemma_only_own_key_holds_back<J>(
    v: DispatchView<J>,
    config: DispatchQueueConfig,
    i: int,
)
    requires
        0 <= i < v.pending.len(),
    ensures
        v.pending[i].key is None ==> v.eligible(config, i),
        config.key_limit() is None ==> v.eligible(config, i),
        v.pending[i].key is Some && config.key_limit() is Some ==> (v.eligible(config, i)
            <==> v.active.to_multiset().count(v.pending[i].key) < config.key_limit()->0),
{
    if v.pending[i].key is Some {
        lemma_activity_counts_occurrences(v.active, v.pending[i].key->0);
    }
}

/// Waiting less than one aging interval changes nothing, and each full interval adds one
/// point to the priority of a job.
pub proof fn lemma_each_interval_adds_a_point<J>(
    pending: PendingView<J>,
    epoch: u64,
    later: u64,
    aging: usize,
)
    requires
        aging > 0,
        pending.epoch <= epoch,
    ensures
        epoch - pending.epoch < aging ==> effective_priority(pending, epoch, aging)
            == pending.rank,
        later == epoch + aging && effective_priority(pending, epoch, aging) < u64::MAX
            ==> effective_priority(pending, later, aging) == effective_priority(
            pending,
            epoch,
            aging,
        ) + 1,
{
    let waited = epoch - pending.epoch;
    let a = aging as int;
    if waited < a {
        assert(waited / a == 0) by (nonlinear_arith)
            requires
                0 <= waited < a,
        ;
    }
    assert((waited + a) / a == waited / a + 1) by (nonlinear_arith)
        requires
            a > 0,
            waited >= 0,
    ;
}

/// Of two jobs that came at the same time and may be handed on, the one of the lower
/// priority is not chosen; of equal priorities, the later one is not.
pub proof fn lemma_larger_priority_is_first<J>(
    v: DispatchView<J>,
    config: DispatchQueueConfig,
    i: int,
    j: int,
)
    requires
        config.aging() > 0,
        0 <= i < v.pending.len(),
        0 <= j < v.pending.len(),
        v.eligible(config, i),
        v.pending[i].epoch == v.pending[j].epoch,
        v.pending[i].epoch <= v.epoch,
        v.epoch - v.pending[i].epoch <= u64::MAX - 255,
        v.pending[i].rank > v.pending[j].rank || (v.pending[i].rank == v.pending[j].rank
            && v.pending[i].ticket < v.pending[j].ticket),
    ensures
        !v.is_selected(config, j),
{
    let waited = v.epoch - v.pending[i].epoch;
    let a = config.aging() as int;
    assert(waited / a <= waited) by (nonlinear_arith)
        requires
            waited >= 0,
            a > 0,
    ;
    assert(v.more_urgent(config, i, j));
}

/// The job that is chosen may be handed on, and no other that may be has a larger priority
/// after aging, or an equal one and came earlier.
pub proof fn lemma_chosen_is_most_urgent<J>(
    v: DispatchView<J>,
    config: DispatchQueueConfig,
    i: int,
    j: int,
)
    requires
        v.wf(config),
        v.is_selected(config, i),
        0 <= j < v.pending.len(),
        j != i,
        v.pending[j].key is None || config.key_limit() is None
            || v.active.to_multiset().count(v.pending[j].key) < config.key_limit()->0,
    ensures
        ({
            let chosen = effective_priority(v.pending[i], v.epoch, config.aging());
            let other = effective_priority(v.pending[j], v.epoch, config.aging());
            chosen > other || (chosen == other && v.pending[i].ticket < v.pending[j].ticket)
        }),
        v.pending[i].key is None || config.key_limit() is None
            || v.active.to_multiset().count(v.pending[i].key) < config.key_limit()->0,
{
    lemma_only_own_key_holds_back(v, config, i);
    lemma_only_own_key_holds_back(v, config, j);
    assert(!v.more_urgent(config, j, i));
    if i < j {
        assert(v.pending[i].ticket < v.pending[j].ticket);
    } else {
        assert(v.pending[j].ticket < v.pending[i].ticket);
    }
}

/// What is evicted: nothing where the newest is rejected; else, for a full queue, the job
/// that waits longest, or the one that waits longest at the lowest priority, and that only
/// for a job of a higher one; or, full or not, the job of the same key.
pub proof fn lemma_eviction_follows_the_policy<J>(
    v: DispatchView<J>,
    config: DispatchQueueConfig,
    rank: u8,
    key: Option<Seq<char>>,
    i: int,
    policy: EvictionPolicy,
    j: int,
)
    requires
        v.evicts(config, rank, key, i, policy),
        0 <= j < v.pending.len(),
    ensures
        0 <= i < v.pending.len(),
        !(config.policy() is RejectNewest),
        config.policy() is EvictOldest <==> policy is Oldest,
        config.policy() is EvictLowestPriority <==> policy is LowestPriority,
        config.policy() is CoalesceByKey <==> policy is Coalesced,
        policy is Oldest || policy is LowestPriority ==> v.pending.len() >= config.capacity(),
        policy is Oldest ==> v.pending[i].ticket <= v.pending[j].ticket,
        policy is LowestPriority ==> v.pending[i].rank < rank && v.pending[i].rank
            <= v.pending[j].rank,
        policy is LowestPriority && v.pending[i].rank == v.pending[j].rank
            ==> v.pending[i].ticket <= v.pending[j].ticket,
        policy is Coalesced ==> key is Some && v.pending[i].key == key,
{
}

proof fn lemma_lowest_of_prefix<J>(v: DispatchView<J>, n: int) -> (low: int)
    requires
        0 < n <= v.pending.len(),
    ensures
        0 <= low < n,
        forall|j: int|
            0 <= j < n ==> {
                ||| v.pending[low].rank < (#[trigger] v.pending[j]).rank
                ||| {
                    &&& v.pending[low].rank == v.pending[j].rank
                    &&& v.pending[low].ticket <= v.pending[j].ticket
                }
            },
    decreases n,
{
    if n == 1 {
        0
    } else {
        let low = lemma_lowest_of_prefix(v, n - 1);
        let a = v.pending[low];
        let b = v.pending[n - 1];
        if a.rank < b.rank || (a.rank == b.rank && a.ticket <= b.ticket) {
            low
        } else {
            n - 1
        }
    }
}

/// A job finds no room exactly if the queue is full and there is nothing that it evicts.
pub proof fn lemma_full_means_nothing_to_evict<J>(
    v: DispatchView<J>,
    config: DispatchQueueConfig,
    rank: u8,
    key: Option<Seq<char>>,
)
    requires
        v.wf(config),
        config.policy() is CoalesceByKey ==> key is Some,
        config.capacity() > 0,
    ensures
        v.is_full_for(config, rank, key) <==> v.pending.len() >= config.capacity() && !exists|
            i: int,
            policy: EvictionPolicy,
        | #[trigger]
            v.evicts(config, rank, key, i, policy),
        v.pending.len() < config.capacity() ==> !v.is_full_for(config, rank, key),
{
    if v.pending.len() >= config.capacity() {
        match config.policy() {
            QueueOverflowPolicy::EvictOldest => {
                assert forall|j: int| 0 <= j < v.pending.len() implies v.pending[0].ticket <= (
                #[trigger] v.pending[j]).ticket by {
                    if j > 0 {
                        assert(v.pending[0].ticket < v.pending[j].ticket);
                    }
                }
                assert(v.is_oldest(0));
                assert(v.evicts(config, rank, key, 0, EvictionPolicy::Oldest));
            },
            QueueOverflowPolicy::EvictLowestPriority => {
                let low = lemma_lowest_of_prefix(v, v.pending.len() as int);
                assert(v.is_lowest(low));
                if rank > v.pending[low].rank {
                    assert(v.evicts(config, rank, key, low, EvictionPolicy::LowestPriority));
                    assert forall|i: int| #[trigger] v.is_lowest(i) implies rank
                        > v.pending[i].rank by {
                        assert(v.pending[i].rank <= v.pending[low].rank);
                    }
                } else {
                    assert forall|i: int, policy: EvictionPolicy| !#[trigger] v.evicts(
                        config,
                        rank,
                        key,
                        i,
                        policy,
                    ) by {
                        if v.evicts(config, rank, key, i, policy) {
                            assert(v.pending[low].rank <= v.pending[i].rank);
                        }
                    }
                }
            },
            QueueOverflowPolicy::CoalesceByKey => {
                if exists|i: int| 0 <= i < v.pending.len() && (#[trigger] v.pending[i]).key == key {
                    let i = choose|i: int|
                        0 <= i < v.pending.len() && (#[trigger] v.pending[i]).key == key;
                    assert(v.evicts(config, rank, key, i, EvictionPolicy::Coalesced));
                }
            },
            QueueOverflowPolicy::RejectNewest => {},
        }
    }
}

/// A job that is taken comes after all that are pending, with the next number and at the
/// current time; those stay as they are.
pub proof fn lemma_new_job_is_last<J>(
    v: DispatchView<J>,
    job: J,
    rank: u8,
    key: Option<Seq<char>>,
)
    requires
        v.next_ticket < u64::MAX,
    ensures
        ({
            let w = v.appended(job, rank, key);
            let last = w.pending.last();
            &&& w.pending.len() == v.pending.len() + 1
            &&& last.job == job
            &&& last.rank == rank
            &&& last.key == key
            &&& last.ticket == v.next_ticket + 1
            &&& last.epoch == v.epoch
            &&& w.next_ticket == last.ticket
            &&& w.pending.drop_last() == v.pending
            &&& w.active == v.active
            &&& w.epoch == v.epoch
            &&& w.closed == v.closed
        }),
{
    assert(v.appended(job, rank, key).pending.drop_last() =~= v.pending);
}

/// A job that is handed on is no longer pending, its key is active once more, and one more
/// dispatch is counted; the other jobs keep their places.
pub proof fn lemma_handing_on_counts<J>(v: DispatchView<J>, i: int, key: Seq<char>)
    requires
        0 <= i < v.pending.len(),
    ensures
        ({
            let w = v.handed_on(i);
            &&& w.pending == v.pending.take(i) + v.pending.skip(i + 1)
            &&& w.active.len() == v.active.len() + 1
            &&& w.active.to_multiset().count(Some(key)) == v.active.to_multiset().count(Some(key))
                + if v.pending[i].key == Some(key) {
                1nat
            } else {
                0
            }
            &&& v.epoch < u64::MAX ==> w.epoch == v.epoch + 1
            &&& v.epoch == u64::MAX ==> w.epoch == v.epoch
            &&& w.next_ticket == v.next_ticket
            &&& w.closed == v.closed
        }),
{
    broadcast use vstd::seq_lib::group_to_multiset_ensures;

    assert(v.handed_on(i).pending =~= v.pending.take(i) + v.pending.skip(i + 1));
}

/// A configuration is taken exactly if it holds between one and 1048576 pending jobs and
/// hands on at least one.
pub proof fn lemma_which_configurations_are_valid(pending_capacity: usize, concurrency: usize)
    ensures
        dispatch_config_error(pending_capacity, concurrency) is None <==> 1 <= pending_capacity
            <= 1_048_576 && concurrency >= 1,
        pending_capacity == 0 ==> dispatch_config_error(pending_capacity, concurrency) == Some(
            DispatchQueueConfigError::ZeroPendingCapacity,
        ),
        1 <= pending_capacity <= 1_048_576 && concurrency == 0 ==> dispatch_config_error(
            pending_capacity,
            concurrency,
        ) == Some(DispatchQueueConfigError::ZeroConcurrency),
{
}

/// A queue that is closed gives out every pending job in order, each with how it ends; a job
/// that is rejected comes back; and a key is its text.
pub proof fn lemma_jobs_are_given_out<J>(
    pending: Seq<PendingView<J>>,
    end: PendingEnd,
    job: J,
    key: Option<String>,
)
    ensures
        ended(pending, end).len() == pending.len(),
        forall|i: int|
            0 <= i < pending.len() ==> #[trigger] ended(pending, end)[i] == (pending[i].job, end),
        DispatchSubmitError::Closed(job).job() == job,
        DispatchSubmitError::Full(job).job() == job,
        DispatchSubmitError::KeyRequired(job).job() == job,
        DispatchSubmitError::SequenceExhausted(job).job() == job,
        key is None <==> text_view(key) is None,
        key matches Some(text) ==> text_view(key) == Some(text@),
{
}

/// The job that leaves a queue is the one that was meant: those before it keep their place,
/// and those after it move up by one.
pub proof fn lemma_others_keep_their_order<J>(v: DispatchView<J>, i: int, k: int)
    requires
        0 <= i < v.pending.len(),
        0 <= k < v.pending.len() - 1,
    ensures
        v.without(i).pending.len() == v.pending.len() - 1,
        v.without(i).pending[k] == v.pending[if k < i {
            k
        } else {
            k + 1
        }],
        v.handed_on(i).pending == v.without(i).pending,
        v.without(i).active == v.active,
        v.without(i).epoch == v.epoch,
        v.without(i).next_ticket == v.next_ticket,
        v.without(i).closed == v.closed,
{
}

/// A job can be handed on as soon as any pending job has no key, or a key without a limit or
/// below it, wherever it stands; and only then.
pub proof fn lemma_any_job_will_do<J>(v: DispatchView<J>, config: DispatchQueueConfig, i: int)
    requires
        0 <= i < v.pending.len(),
    ensures
        v.pending[i].key is None || config.key_limit() is None ==> v.any_eligible(config),
        v.pending[i].key is Some && config.key_limit() is Some && key_activity(
            v.active,
            v.pending[i].key->0,
        ) < config.key_limit()->0 ==> v.any_eligible(config),
        (forall|j: int|
            0 <= j < v.pending.len() ==> (#[trigger] v.pending[j]).key is Some
                && config.key_limit() is Some && key_activity(v.active, v.pending[j].key->0)
                >= config.key_limit()->0) ==> !v.any_eligible(config),
{
    if v.pending[i].key is None || config.key_limit() is None {
        assert(v.eligible(config, i));
    }
    if v.pending[i].key is Some && config.key_limit() is Some && key_activity(
        v.active,
        v.pending[i].key->0,
    ) < config.key_limit()->0 {
        assert(v.eligible(config, i));
    }
    if forall|j: int|
        0 <= j < v.pending.len() ==> (#[trigger] v.pending[j]).key is Some && config.key_limit()
            is Some && key_activity(v.active, v.pending[j].key->0) >= config.key_limit()->0 {
        assert forall|j: int| 0 <= j < v.pending.len() implies !#[trigger] v.eligible(
            config,
            j,
        ) by {
            assert(v.pending[j].key is Some);
        }
    }
}

} // verus!
