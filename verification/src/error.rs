//! The errors that the persistence layer hands to its callers.

use crate::store::Fault;
use vstd::prelude::*;

verus! {

/// What went wrong, by kind: a caller picks its reply from the variant alone.
#[derive(Debug, PartialEq, Eq)]
pub enum DrawDBError {
    /// Storage refused or failed an operation.
    DatabaseError(String),
    /// Reading or writing a file failed.
    IoError(String),
    /// The configuration could not be understood.
    ConfigError(String),
    /// A request lacks a part that the operation cannot do without.
    DeconstructError(String),
    /// Anything else.
    OtherError(String),
}

impl DrawDBError {
    /// The request was malformed, as opposed to storage having failed.
    pub open spec fn is_structural(self) -> bool {
        self is DeconstructError
    }

    /// The error that reports a fault of storage: always one of storage, never a
    /// structural one, with the kind of fault as its detail.
    pub fn from_fault(fault: Fault) -> (error: Self)
        ensures
            error matches DrawDBError::DatabaseError(detail) && detail@ == match fault {
                Fault::Conflict => "conflict"@,
                Fault::NotFound => "not found"@,
            },
            !error.is_structural(),
    {
        match fault {
            Fault::Conflict => DrawDBError::DatabaseError("conflict".to_string()),
            Fault::NotFound => DrawDBError::DatabaseError("not found".to_string()),
        }
    }

    /// The detail that the error carries.
    pub fn detail(&self) -> (text: &String)
        ensures
            *text == match *self {
                DrawDBError::DatabaseError(s) => s,
                DrawDBError::IoError(s) => s,
                DrawDBError::ConfigError(s) => s,
                DrawDBError::DeconstructError(s) => s,
                DrawDBError::OtherError(s) => s,
            },
    {
        match self {
            DrawDBError::DatabaseError(s) => s,
            DrawDBError::IoError(s) => s,
            DrawDBError::ConfigError(s) => s,
            DrawDBError::DeconstructError(s) => s,
            DrawDBError::OtherError(s) => s,
        }
    }
}

} // verus!
