//! Outcomes of the atomic launch persistence (initial run row plus the
//! immutable execution capsule in one transaction).

use vstd::prelude::*;
use crate::text::{owned, push_str};

verus! {

/// Typed outcome of a successful atomic launch persistence.
#[derive(Debug, Clone, PartialEq, Eq)]
pub enum LaunchPersistenceOutcome {
    /// Both the initial run row and the capsule were persisted.
    Persisted,
}

/// Typed errors of the atomic launch persistence.
#[derive(Debug, Clone, PartialEq, Eq)]
pub enum LaunchPersistenceError {
    /// A run row already exists for the run id.
    RunCollision(String),
    /// A capsule already exists for the run id.
    CapsuleCollision(String),
    /// Any other database failure; the transaction was rolled back.
    Database { run_id: String, message: String },
}

impl LaunchPersistenceError {
    /// The diagnostic text of the error.
    pub fn to_string(&self) -> (r: String)
        ensures
            match self {
                LaunchPersistenceError::RunCollision(id) => r@ == "launch collision: a run record already exists for run_id '"@ + id@
                    + "'; refusing to overwrite the existing launch record"@,
                LaunchPersistenceError::CapsuleCollision(id) => r@
                    == "launch collision: an execution capsule already exists for run_id '"@ + id@
                    + "'; refusing to overwrite the immutable capsule"@,
                LaunchPersistenceError::Database { run_id, message } => r@
                    == "atomic launch persistence failed for run_id '"@ + run_id@ + "': "@ + message@,
            },
    {
        match self {
            LaunchPersistenceError::RunCollision(id) => {
                let mut s = owned("launch collision: a run record already exists for run_id '");
                push_str(&mut s, id.as_str());
                push_str(&mut s, "'; refusing to overwrite the existing launch record");
                s
            },
            LaunchPersistenceError::CapsuleCollision(id) => {
                let mut s = owned("launch collision: an execution capsule already exists for run_id '");
                push_str(&mut s, id.as_str());
                push_str(&mut s, "'; refusing to overwrite the immutable capsule");
                s
            },
            LaunchPersistenceError::Database { run_id, message } => {
                let mut s = owned("atomic launch persistence failed for run_id '");
                push_str(&mut s, run_id.as_str());
                push_str(&mut s, "': ");
                push_str(&mut s, message.as_str());
                s
            },
        }
    }
}

} // verus!
