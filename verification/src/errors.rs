//! The error taxonomy of the store: invalid parameters, a missing record,
//! and a failed write.

use vstd::prelude::*;

verus! {

/// Every failure the store reports to a caller.
#[derive(Clone, Copy, Debug, PartialEq, Eq, Structural)]
pub enum WorkspaceError {
    /// A required parameter field was empty or malformed.
    ValidationError,
    /// No record with the requested id is visible.
    NotFound,
    /// The backend refused the write, e.g. a uniqueness violation on the id.
    PersistenceError,
}

impl WorkspaceError {
    /// A short human-readable description of the error.
    pub fn description(&self) -> (r: &'static str)
        ensures
            r@ == match self {
                WorkspaceError::ValidationError => "invalid parameters"@,
                WorkspaceError::NotFound => "app not found"@,
                WorkspaceError::PersistenceError => "persistence failure"@,
            },
    {
        match self {
            WorkspaceError::ValidationError => "invalid parameters",
            WorkspaceError::NotFound => "app not found",
            WorkspaceError::PersistenceError => "persistence failure",
        }
    }
}

} // verus!
