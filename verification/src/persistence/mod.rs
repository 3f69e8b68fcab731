//! Durable state of runs, leases and recovery, and the decisions on it.

pub mod launch_provenance;
pub mod recovery_operations;
pub mod effect_intents;
pub mod leases;
pub mod run_metadata;
pub mod checkpoint;
pub mod run_store;
pub mod legacy_migration_state;
pub mod recovery_epoch;
pub mod capsule_store;
pub mod attempts;
pub mod artifacts;
pub mod rows;
