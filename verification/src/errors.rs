//! The error taxonomy. A failure is one of a small set of kinds; none of
//! the library's verified functions panics.

use vstd::prelude::*;

verus! {

/// Why an operation failed.
///
/// `ConnectionError`: the backing store was unreachable at startup —
/// fatal, the process must not start serving. `NotFoundError`: an
/// application or key is absent. `ValidationError`: a duplicate
/// application slug on add, or an operation against an inactive
/// application; nothing was mutated. `SerializationError`: a record
/// could not be written. `BackendUnavailable`: the reverse-proxy target
/// was unreachable or timed out; the call is not retried.
#[derive(Debug, Clone, Copy, PartialEq, Eq, Structural)]
pub enum CoreError {
    ConnectionError,
    NotFoundError,
    ValidationError,
    SerializationError,
    BackendUnavailable,
}

pub open spec fn spec_message(e: CoreError) -> Seq<char> {
    match e {
        CoreError::ConnectionError => "connection error"@,
        CoreError::NotFoundError => "not found"@,
        CoreError::ValidationError => "validation error"@,
        CoreError::SerializationError => "serialization error"@,
        CoreError::BackendUnavailable => "backend unavailable"@,
    }
}

impl CoreError {
    /// A short description of the failure.
    pub fn message(&self) -> (r: &'static str)
        ensures
            r@ == spec_message(*self),
    {
        match self {
            CoreError::ConnectionError => "connection error",
            CoreError::NotFoundError => "not found",
            CoreError::ValidationError => "validation error",
            CoreError::SerializationError => "serialization error",
            CoreError::BackendUnavailable => "backend unavailable",
        }
    }
}

} // verus!
