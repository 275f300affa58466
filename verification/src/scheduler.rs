//! The scheduler: named lanes, keyed and grouped runs, schedules and shutdown.

pub mod commands;
pub mod execute;
pub mod group_table;
pub mod groups;
pub mod jobs;
pub mod keyed;
pub mod keys;
pub mod lifecycle;
pub mod replace;
pub mod report;
pub mod run;
pub mod runs;
pub mod state;
pub mod types;
pub mod waits;
