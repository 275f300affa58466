//! Lane configuration, scheduling metadata and admission errors.

use crate::error::{BeaverError, BeaverResult};
use crate::text;
use vstd::prelude::*;
use vstd::string::StringExecFns;

verus! {

/// The highest priority.
pub const HIGHEST_PRIORITY: u8 = 7;

/// The longest ordering key in bytes.
pub const MAX_ORDERING_KEY_BYTES: usize = 256;

/// Rank by which a lane chooses among ready work.
///
/// It affects the choice of what starts next and nothing else. Every eighth
/// dispatch takes the oldest ready entry instead, so that a stream of urgent work
/// cannot starve older work.
#[derive(Clone, Copy, Debug, Eq, Ord, PartialEq, PartialOrd, Structural)]
pub struct Priority {
    rank: u8,
}

impl View for Priority {
    type V = u8;

    closed spec fn view(&self) -> u8 {
        self.rank
    }
}

impl Priority {
    #[verifier::type_invariant]
    spec fn in_range(self) -> bool {
        self.rank <= HIGHEST_PRIORITY
    }

    /// Priorities of equal rank are equal.
    pub proof fn lemma_ext(a: Priority, b: Priority)
        requires
            a@ == b@,
        ensures
            a == b,
    {
    }

    /// The lowest priority, 0.
    pub fn lowest() -> (priority: Self)
        ensures
            priority@ == 0,
    {
        Priority { rank: 0 }
    }

    /// The usual priority, 3.
    pub fn normal() -> (priority: Self)
        ensures
            priority@ == 3,
    {
        Priority { rank: 3 }
    }

    /// The highest priority, 7.
    pub fn highest() -> (priority: Self)
        ensures
            priority@ == HIGHEST_PRIORITY,
    {
        Priority { rank: HIGHEST_PRIORITY }
    }

    /// The priority of the given rank, if there is one.
    pub fn new(value: u8) -> (result: Result<Self, InvalidPriority>)
        ensures
            match result {
                Ok(priority) => value <= HIGHEST_PRIORITY && priority@ == value,
                Err(error) => value > HIGHEST_PRIORITY && error.value == value,
            },
    {
        if value <= HIGHEST_PRIORITY {
            Ok(Priority { rank: value })
        } else {
            Err(InvalidPriority { value })
        }
    }

    /// The rank, from 0 to 7.
    pub fn value(self) -> (value: u8)
        ensures
            value == self@,
            value <= HIGHEST_PRIORITY,
    {
        proof {
            use_type_invariant(&self);
        }
        self.rank
    }
}

impl Default for Priority {
    /// The lowest priority.
    fn default() -> (priority: Self)
        ensures
            priority@ == 0,
    {
        Priority::lowest()
    }
}

/// A rank outside 0 to 7.
#[derive(Clone, Copy, Debug, Eq, PartialEq, Structural)]
pub struct InvalidPriority {
    pub value: u8,
}

impl InvalidPriority {
    /// Human-readable description.
    pub fn message(&self) -> (message: String)
        ensures
            message@ == "priority "@ + text::decimal(self.value as nat)
                + " is outside the supported 0..=7 range"@,
    {
        let mut message = String::from_str("priority ");
        text::append_decimal(&mut message, self.value as u64);
        message.append(" is outside the supported 0..=7 range");
        message
    }
}

/// Bytes that entries share which must not run at the same time.
#[derive(Debug)]
pub struct OrderingKey {
    bytes: Vec<u8>,
}

impl View for OrderingKey {
    type V = Seq<u8>;

    closed spec fn view(&self) -> Seq<u8> {
        self.bytes@
    }
}

impl OrderingKey {
    #[verifier::type_invariant]
    spec fn bounded(self) -> bool {
        self.bytes.len() <= MAX_ORDERING_KEY_BYTES
    }

    /// The key of the given bytes, unless there are too many.
    pub fn new(bytes: Vec<u8>) -> (result: Result<Self, InvalidOrderingKey>)
        ensures
            match result {
                Ok(key) => bytes.len() <= MAX_ORDERING_KEY_BYTES && key@ == bytes@,
                Err(error) => {
                    &&& bytes.len() > MAX_ORDERING_KEY_BYTES
                    &&& error.length == bytes.len()
                    &&& error.maximum == MAX_ORDERING_KEY_BYTES
                },
            },
    {
        if bytes.len() > MAX_ORDERING_KEY_BYTES {
            return Err(
                InvalidOrderingKey { length: bytes.len(), maximum: MAX_ORDERING_KEY_BYTES },
            );
        }
        Ok(OrderingKey { bytes })
    }

    /// The bytes of the key.
    pub fn as_bytes(&self) -> (bytes: &[u8])
        ensures
            bytes@ == self@,
            bytes@.len() <= MAX_ORDERING_KEY_BYTES,
    {
        proof {
            use_type_invariant(self);
        }
        self.bytes.as_slice()
    }

    /// Whether two keys have the same bytes.
    pub fn same(&self, other: &OrderingKey) -> (same: bool)
        ensures
            same <==> self@ == other@,
    {
        let count: usize = self.bytes.len();
        if count != other.bytes.len() {
            return false;
        }
        let mut at: usize = 0;
        while at < count
            invariant
                at <= count,
                count == self.bytes.len(),
                count == other.bytes.len(),
                forall|i: int| 0 <= i < at ==> self.bytes@[i] == other.bytes@[i],
            decreases count - at,
        {
            if self.bytes[at] != other.bytes[at] {
                assert(self@[at as int] != other@[at as int]);
                return false;
            }
            at = at + 1;
        }
        assert(self@ =~= other@);
        true
    }
}

impl Clone for OrderingKey {
    fn clone(&self) -> (copy: Self)
        ensures
            copy@ == self@,
    {
        proof {
            use_type_invariant(self);
        }
        let bytes = self.bytes.clone();
        assert(bytes@ =~= self.bytes@);
        OrderingKey { bytes }
    }
}

/// The bytes of an optional key.
pub open spec fn key_view(key: Option<OrderingKey>) -> Option<Seq<u8>> {
    match key {
        Some(key) => Some(key@),
        None => None,
    }
}

/// A key of too many bytes.
#[derive(Clone, Copy, Debug, Eq, PartialEq, Structural)]
pub struct InvalidOrderingKey {
    pub length: usize,
    pub maximum: usize,
}

impl InvalidOrderingKey {
    /// Human-readable description.
    pub fn message(&self) -> (message: String)
        ensures
            message@ == "ordering key is "@ + text::decimal(self.length as nat)
                + " bytes; maximum is "@ + text::decimal(self.maximum as nat) + " bytes"@,
    {
        let mut message = String::from_str("ordering key is ");
        text::append_decimal(&mut message, self.length as u64);
        message.append(" bytes; maximum is ");
        text::append_decimal(&mut message, self.maximum as u64);
        message.append(" bytes");
        message
    }
}

/// Scheduling metadata of one submission.
#[derive(Debug)]
pub struct SpawnOptions {
    priority: Priority,
    ordering_key: Option<OrderingKey>,
}

impl SpawnOptions {
    /// The rank of the configured priority.
    pub closed spec fn rank(&self) -> u8 {
        self.priority@
    }

    /// The bytes of the configured ordering key.
    pub closed spec fn key(&self) -> Option<Seq<u8>> {
        key_view(self.ordering_key)
    }

    /// The usual priority and no ordering key.
    pub fn new() -> (options: Self)
        ensures
            options.rank() == 3,
            options.key() is None,
    {
        SpawnOptions { priority: Priority::normal(), ordering_key: None }
    }

    /// Sets the priority.
    pub fn priority(self, priority: Priority) -> (options: Self)
        ensures
            options.rank() == priority@,
            options.key() == self.key(),
    {
        SpawnOptions { priority, ordering_key: self.ordering_key }
    }

    /// Sets the ordering key.
    pub fn ordering_key(self, ordering_key: OrderingKey) -> (options: Self)
        ensures
            options.rank() == self.rank(),
            options.key() == Some(ordering_key@),
    {
        SpawnOptions { priority: self.priority, ordering_key: Some(ordering_key) }
    }

    /// The configured priority.
    pub fn configured_priority(&self) -> (priority: Priority)
        ensures
            priority@ == self.rank(),
    {
        self.priority
    }

    /// The configured ordering key.
    pub fn configured_ordering_key(&self) -> (key: Option<&OrderingKey>)
        ensures
            match key {
                Some(key) => self.key() == Some(key@),
                None => self.key() is None,
            },
    {
        match &self.ordering_key {
            Some(key) => Some(key),
            None => None,
        }
    }
}

impl Default for SpawnOptions {
    fn default() -> (options: Self)
        ensures
            options.rank() == 3,
            options.key() is None,
    {
        SpawnOptions::new()
    }
}

impl Clone for SpawnOptions {
    fn clone(&self) -> (copy: Self)
        ensures
            copy.rank() == self.rank(),
            copy.key() == self.key(),
    {
        let ordering_key = match &self.ordering_key {
            Some(key) => Some(key.clone()),
            None => None,
        };
        SpawnOptions { priority: self.priority, ordering_key }
    }
}

/// Who ends a lane.
#[derive(Clone, Copy, Debug, Eq, PartialEq, Structural)]
#[non_exhaustive]
pub enum LaneLifetime {
    /// The executor that owns it.
    Executor,
    /// An explicit close.
    Explicit,
}

/// Immutable configuration of a lane.
#[derive(Clone, Debug, Eq, PartialEq)]
pub struct LaneConfig {
    name: String,
    capacity: usize,
    concurrency: usize,
    lifetime: LaneLifetime,
}

impl LaneConfig {
    /// The name of the lane.
    pub closed spec fn lane_name(&self) -> Seq<char> {
        self.name@
    }

    /// How many entries may be queued.
    pub closed spec fn queue_limit(&self) -> usize {
        self.capacity
    }

    /// How many entries may run.
    pub closed spec fn running_limit(&self) -> usize {
        self.concurrency
    }

    /// Who ends the lane.
    pub closed spec fn ownership(&self) -> LaneLifetime {
        self.lifetime
    }

    /// A lane of 256 queued entries and one running entry that ends with its executor.
    pub fn new(name: String) -> (config: Self)
        ensures
            config.lane_name() == name@,
            config.queue_limit() == 256,
            config.running_limit() == 1,
            config.ownership() == LaneLifetime::Executor,
    {
        LaneConfig { name, capacity: 256, concurrency: 1, lifetime: LaneLifetime::Executor }
    }

    /// Sets how many entries may be queued.
    pub fn capacity(self, capacity: usize) -> (config: Self)
        ensures
            config.lane_name() == self.lane_name(),
            config.queue_limit() == capacity,
            config.running_limit() == self.running_limit(),
            config.ownership() == self.ownership(),
    {
        LaneConfig { capacity, ..self }
    }

    /// Sets how many entries may run.
    pub fn concurrency(self, concurrency: usize) -> (config: Self)
        ensures
            config.lane_name() == self.lane_name(),
            config.queue_limit() == self.queue_limit(),
            config.running_limit() == concurrency,
            config.ownership() == self.ownership(),
    {
        LaneConfig { concurrency, ..self }
    }

    /// Sets who ends the lane.
    pub fn lifetime(self, lifetime: LaneLifetime) -> (config: Self)
        ensures
            config.lane_name() == self.lane_name(),
            config.queue_limit() == self.queue_limit(),
            config.running_limit() == self.running_limit(),
            config.ownership() == lifetime,
    {
        LaneConfig { lifetime, ..self }
    }

    /// The name of the lane.
    pub fn name(&self) -> (name: &str)
        ensures
            name@ == self.lane_name(),
    {
        self.name.as_str()
    }

    /// How many entries may be queued.
    pub fn queue_capacity(&self) -> (capacity: usize)
        ensures
            capacity == self.queue_limit(),
    {
        self.capacity
    }

    /// How many entries may run.
    pub fn max_concurrency(&self) -> (concurrency: usize)
        ensures
            concurrency == self.running_limit(),
    {
        self.concurrency
    }

    /// Who ends the lane.
    pub fn lane_lifetime(&self) -> (lifetime: LaneLifetime)
        ensures
            lifetime == self.ownership(),
    {
        self.lifetime
    }

    /// Rejects a lane that could queue nothing, then one that could run nothing.
    pub fn validate(&self) -> (result: BeaverResult<()>)
        ensures
            match result {
                Ok(_) => self.queue_limit() > 0 && self.running_limit() > 0,
                Err(BeaverError::InvalidLaneCapacity) => self.queue_limit() == 0,
                Err(BeaverError::InvalidLaneConcurrency) => {
                    self.queue_limit() > 0 && self.running_limit() == 0
                },
                Err(_) => false,
            },
    {
        if self.capacity == 0 {
            return Err(BeaverError::InvalidLaneCapacity);
        }
        if self.concurrency == 0 {
            return Err(BeaverError::InvalidLaneConcurrency);
        }
        Ok(())
    }

    /// Whether two configurations agree in every field.
    pub fn same(&self, other: &LaneConfig) -> (same: bool)
        ensures
            same <==> {
                &&& self.lane_name() == other.lane_name()
                &&& self.queue_limit() == other.queue_limit()
                &&& self.running_limit() == other.running_limit()
                &&& self.ownership() == other.ownership()
            },
    {
        self.name == other.name && self.capacity == other.capacity && self.concurrency
            == other.concurrency && self.lifetime == other.lifetime
    }
}

/// Why a lane did not admit a submission.
#[derive(Debug)]
#[non_exhaustive]
pub enum SpawnError {
    /// The queue is full, or other producers wait ahead.
    QueueFull,
    /// The lane takes no more work.
    LaneClosing,
    /// The runtime of the lane is gone.
    ExecutorUnavailable,
    /// The executor shuts down.
    ExecutorShuttingDown,
    /// The submission was not admitted in time.
    AdmissionTimedOut,
    /// The deadline of the retried work passed before admission.
    AdmissionDeadlineExceeded,
    /// The runtime has no timer.
    TimerUnavailable,
    /// As many producers wait as may wait.
    WaitingProducerLimitReached,
    /// As many distinct ordering keys are in use as may be.
    OrderingKeyLimitReached,
    /// A sequence counter is used up.
    SequenceExhausted,
    /// Another error of the executor.
    Internal(BeaverError),
}

impl SpawnError {
    /// Human-readable description.
    pub fn message(&self) -> (message: String)
        ensures
            match *self {
                SpawnError::QueueFull => message@ == "lane queue is full"@,
                SpawnError::LaneClosing => message@ == "lane is closing"@,
                SpawnError::ExecutorUnavailable => message@ == "lane runtime is unavailable"@,
                SpawnError::ExecutorShuttingDown => message@ == "executor is shutting down"@,
                SpawnError::AdmissionTimedOut => message@ == "lane admission timed out"@,
                SpawnError::AdmissionDeadlineExceeded => message@
                    == "retry deadline elapsed before admission"@,
                SpawnError::TimerUnavailable => message@ == "Tokio time driver is unavailable"@,
                SpawnError::WaitingProducerLimitReached => message@
                    == "lane waiting-producer limit reached"@,
                SpawnError::OrderingKeyLimitReached => message@
                    == "lane ordering-key limit reached"@,
                SpawnError::SequenceExhausted => message@ == "lane admission sequence exhausted"@,
                SpawnError::Internal(error) => message@ == "lane admission failed: "@
                    + error.description(),
            },
    {
        match self {
            SpawnError::QueueFull => String::from_str("lane queue is full"),
            SpawnError::LaneClosing => String::from_str("lane is closing"),
            SpawnError::ExecutorUnavailable => String::from_str("lane runtime is unavailable"),
            SpawnError::ExecutorShuttingDown => String::from_str("executor is shutting down"),
            SpawnError::AdmissionTimedOut => String::from_str("lane admission timed out"),
            SpawnError::AdmissionDeadlineExceeded => {
                String::from_str("retry deadline elapsed before admission")
            },
            SpawnError::TimerUnavailable => String::from_str("Tokio time driver is unavailable"),
            SpawnError::WaitingProducerLimitReached => {
                String::from_str("lane waiting-producer limit reached")
            },
            SpawnError::OrderingKeyLimitReached => {
                String::from_str("lane ordering-key limit reached")
            },
            SpawnError::SequenceExhausted => String::from_str("lane admission sequence exhausted"),
            SpawnError::Internal(error) => {
                text::join2("lane admission failed: ", error.message().as_str())
            },
        }
    }
}

/// The admission error that an executor error becomes.
pub open spec fn spawn_error_of(error: BeaverError) -> SpawnError {
    match error {
        BeaverError::ExecutorShuttingDown => SpawnError::ExecutorShuttingDown,
        other => SpawnError::Internal(other),
    }
}

impl vstd::std_specs::convert::FromSpecImpl<BeaverError> for SpawnError {
    open spec fn obeys_from_spec() -> bool {
        true
    }

    open spec fn from_spec(error: BeaverError) -> SpawnError {
        spawn_error_of(error)
    }
}

impl From<BeaverError> for SpawnError {
    fn from(error: BeaverError) -> (converted: SpawnError) {
        match error {
            BeaverError::ExecutorShuttingDown => SpawnError::ExecutorShuttingDown,
            other => SpawnError::Internal(other),
        }
    }
}

/// Occupancy of a lane.
#[derive(Clone, Copy, Debug, Eq, PartialEq)]
pub struct LaneStats {
    pub queued_live: usize,
    pub running: usize,
    pub available_queue_capacity: usize,
    pub waiting_producers: usize,
    pub blocked_by_ordering_key: usize,
    pub ready_by_priority: [usize; 8],
}

/// An executor that shuts down refuses as such; any other error of it is passed on whole.
pub proof fn lemma_admission_errors_keep_their_cause(error: BeaverError)
    ensures
        error is ExecutorShuttingDown ==> spawn_error_of(error) is ExecutorShuttingDown,
        !(error is ExecutorShuttingDown) ==> spawn_error_of(error) == SpawnError::Internal(error),
{
}

/// A key is compared by its bytes, and the lack of one by nothing.
pub proof fn lemma_keys_are_their_bytes(key: Option<OrderingKey>)
    ensures
        key is None <==> key_view(key) is None,
        key matches Some(own) ==> key_view(key) == Some(own@),
{
}

} // verus!
