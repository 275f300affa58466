//! Limits of an executor and what can be observed of it.

use crate::execution::{TaskExitSummary, TaskSnapshot};
use crate::ids::{ExecutionId, LaneId};
use crate::lane::LaneStats;
use crate::text;
use crate::time::Duration;
use vstd::prelude::*;
use vstd::string::StringExecFns;

verus! {

/// How much an executor may hold. It is fixed when the executor is built.
#[derive(Clone, Copy, Debug, Eq, PartialEq, Structural)]
pub struct ResourceLimits {
    pub max_active_executions: usize,
    pub max_lanes: usize,
    pub max_scopes: usize,
    pub max_slots: usize,
    pub max_event_subscribers: usize,
    pub max_children_per_execution: usize,
    pub max_waiting_producers_per_lane: usize,
    pub max_ordering_keys_per_lane: usize,
    pub terminal_history_capacity: usize,
    pub terminal_history_ttl: Option<Duration>,
    pub event_capacity: usize,
    pub max_tag_bytes: usize,
}

impl Default for ResourceLimits {
    fn default() -> (limits: Self)
        ensures
            limits.is_default(),
            limits.first_zero() is None,
    {
        ResourceLimits {
            max_active_executions: 100_000,
            max_lanes: 1_024,
            max_scopes: 4_096,
            max_slots: 4_096,
            max_event_subscribers: 64,
            max_children_per_execution: 1_024,
            max_waiting_producers_per_lane: 4_096,
            max_ordering_keys_per_lane: 65_536,
            terminal_history_capacity: 1_024,
            terminal_history_ttl: Some(Duration::from_secs(3_600)),
            event_capacity: 1_024,
            max_tag_bytes: 256,
        }
    }
}

impl ResourceLimits {
    /// The limits of an executor that sets none.
    pub open spec fn is_default(&self) -> bool {
        &&& self.max_active_executions == 100_000
        &&& self.max_lanes == 1_024
        &&& self.max_scopes == 4_096
        &&& self.max_slots == 4_096
        &&& self.max_event_subscribers == 64
        &&& self.max_children_per_execution == 1_024
        &&& self.max_waiting_producers_per_lane == 4_096
        &&& self.max_ordering_keys_per_lane == 65_536
        &&& self.terminal_history_capacity == 1_024
        &&& self.terminal_history_ttl is Some
        &&& self.terminal_history_ttl->0@ == 3_600_000_000_000
        &&& self.event_capacity == 1_024
        &&& self.max_tag_bytes == 256
    }

    /// The name of the first limit that must not be zero and is.
    pub open spec fn first_zero(&self) -> Option<Seq<char>> {
        if self.max_active_executions == 0 {
            Some("max_active_executions"@)
        } else if self.max_lanes == 0 {
            Some("max_lanes"@)
        } else if self.max_scopes == 0 {
            Some("max_scopes"@)
        } else if self.max_slots == 0 {
            Some("max_slots"@)
        } else if self.max_event_subscribers == 0 {
            Some("max_event_subscribers"@)
        } else if self.max_children_per_execution == 0 {
            Some("max_children_per_execution"@)
        } else if self.max_waiting_producers_per_lane == 0 {
            Some("max_waiting_producers_per_lane"@)
        } else if self.max_ordering_keys_per_lane == 0 {
            Some("max_ordering_keys_per_lane"@)
        } else if self.event_capacity == 0 {
            Some("event_capacity"@)
        } else if self.max_tag_bytes == 0 {
            Some("max_tag_bytes"@)
        } else {
            None
        }
    }

    /// Rejects the first limit that must not be zero and is. Only the history may be
    /// switched off.
    pub fn validate(&self) -> (result: Result<(), InvalidResourceLimits>)
        ensures
            match result {
                Ok(_) => self.first_zero() is None,
                Err(error) => self.first_zero() == Some(error.field@),
            },
    {
        let field: &'static str = if self.max_active_executions == 0 {
            "max_active_executions"
        } else if self.max_lanes == 0 {
            "max_lanes"
        } else if self.max_scopes == 0 {
            "max_scopes"
        } else if self.max_slots == 0 {
            "max_slots"
        } else if self.max_event_subscribers == 0 {
            "max_event_subscribers"
        } else if self.max_children_per_execution == 0 {
            "max_children_per_execution"
        } else if self.max_waiting_producers_per_lane == 0 {
            "max_waiting_producers_per_lane"
        } else if self.max_ordering_keys_per_lane == 0 {
            "max_ordering_keys_per_lane"
        } else if self.event_capacity == 0 {
            "event_capacity"
        } else if self.max_tag_bytes == 0 {
            "max_tag_bytes"
        } else {
            return Ok(());
        };
        Err(InvalidResourceLimits { field })
    }
}

/// A limit is zero that must not be.
#[derive(Clone, Copy, Debug, Eq, PartialEq)]
pub struct InvalidResourceLimits {
    pub field: &'static str,
}

impl InvalidResourceLimits {
    /// Human-readable description.
    pub fn message(&self) -> (message: String)
        ensures
            message@ == "resource limit '"@ + self.field@ + "' must be non-zero"@,
    {
        text::join3("resource limit '", self.field, "' must be non-zero")
    }
}

/// Something that happened to an execution.
#[derive(Debug)]
#[non_exhaustive]
pub enum TaskEvent {
    Admitted(TaskSnapshot),
    StateChanged(TaskSnapshot),
    Terminal { execution_id: ExecutionId, summary: TaskExitSummary },
}

/// Why no event was received.
#[derive(Clone, Copy, Debug, Eq, PartialEq, Structural)]
#[non_exhaustive]
pub enum EventRecvError {
    /// There will be no more events.
    Closed,
    /// Events were dropped because they were not received in time.
    Lagged { skipped: u64 },
}

impl EventRecvError {
    /// Human-readable description.
    pub fn message(&self) -> (message: String)
        ensures
            match *self {
                EventRecvError::Closed => message@ == "task event stream is closed"@,
                EventRecvError::Lagged { skipped } => message@ == "task event stream lagged by "@
                    + text::decimal(skipped as nat) + " events"@,
            },
    {
        match self {
            EventRecvError::Closed => String::from_str("task event stream is closed"),
            EventRecvError::Lagged { skipped } => {
                let mut message = String::from_str("task event stream lagged by ");
                text::append_decimal(&mut message, *skipped);
                message.append(" events");
                message
            },
        }
    }
}

/// Why events cannot be subscribed to.
#[derive(Clone, Copy, Debug, Eq, PartialEq, Structural)]
pub enum EventSubscribeError {
    SubscriberLimitReached,
}

impl EventSubscribeError {
    /// Human-readable description.
    pub fn message(&self) -> (message: &'static str)
        ensures
            message@ == "task event subscriber limit reached"@,
    {
        "task event subscriber limit reached"
    }
}

/// How an execution ended.
#[derive(Debug)]
pub struct TerminalRecord {
    pub execution_id: ExecutionId,
    pub summary: TaskExitSummary,
}

/// Occupancy of a lane.
#[derive(Debug)]
pub struct LaneSnapshot {
    pub lane_id: LaneId,
    pub name: String,
    pub stats: LaneStats,
}

/// What an executor holds.
#[derive(Debug)]
pub struct ExecutorSnapshot {
    pub active: Vec<TaskSnapshot>,
    pub terminal_history: Vec<TerminalRecord>,
    pub lanes: Vec<LaneSnapshot>,
    pub scope_count: usize,
    pub slot_count: usize,
    pub event_subscribers: usize,
}

/// Limits are accepted exactly if none is zero but for those of the history, and a limit that
/// is rejected is named.
pub proof fn lemma_which_limits_are_valid(limits: ResourceLimits)
    ensures
        limits.first_zero() is None <==> {
            &&& limits.max_active_executions > 0
            &&& limits.max_lanes > 0
            &&& limits.max_scopes > 0
            &&& limits.max_slots > 0
            &&& limits.max_event_subscribers > 0
            &&& limits.max_children_per_execution > 0
            &&& limits.max_waiting_producers_per_lane > 0
            &&& limits.max_ordering_keys_per_lane > 0
            &&& limits.event_capacity > 0
            &&& limits.max_tag_bytes > 0
        },
        limits.max_active_executions == 0 ==> limits.first_zero() == Some(
            "max_active_executions"@,
        ),
        limits.is_default() ==> limits.first_zero() is None,
        limits.is_default() ==> {
            &&& limits.max_active_executions == 100_000
            &&& limits.max_lanes == 1_024
            &&& limits.max_scopes == 4_096
            &&& limits.max_slots == 4_096
            &&& limits.max_event_subscribers == 64
            &&& limits.max_children_per_execution == 1_024
            &&& limits.max_waiting_producers_per_lane == 4_096
            &&& limits.max_ordering_keys_per_lane == 65_536
            &&& limits.terminal_history_capacity == 1_024
            &&& limits.terminal_history_ttl matches Some(ttl) && ttl@ == 3_600_000_000_000
            &&& limits.event_capacity == 1_024
            &&& limits.max_tag_bytes == 256
        },
{
}

} // verus!
