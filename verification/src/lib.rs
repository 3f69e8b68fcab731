//! Verified core of the workflow runner: run, lease, recovery and monitor
//! state, their durable encodings and digests, and the decisions taken on them.

pub mod text;
pub mod digest;
pub mod persistence;
pub mod time;
pub mod monitor;
pub mod commands;
pub mod reports;
