//! Decision core of an execution SDK for finite tasks, typed retries, recurring
//! jobs, supervised shutdown and bounded scheduling.
//!
//! Every decision that does not need a runtime lives here as a function or a
//! state machine on plain values, with its contract proved by Verus. The async
//! shell that spawns tasks, sleeps and wakes waiters drives these machines and
//! performs the actions that they return.

pub mod beaver;
pub mod dam;
pub mod dispatch;
pub mod error;
pub mod execution;
pub mod execution_core;
pub mod fixed_count_task;
pub mod ids;
pub mod lane;
pub mod lane_machine;
pub mod listener;
pub mod names;
pub mod observation;
pub mod observe;
pub mod order;
pub mod periodic_task;
pub mod permits;
pub mod range_interval_task;
pub mod recurring;
pub mod registry;
pub mod retry;
pub mod schedule;
pub mod scheduler;
pub mod shutdown;
pub mod supervisor;
pub mod task;
pub mod text;
pub mod time;
