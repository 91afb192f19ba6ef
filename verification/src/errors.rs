//! Error taxonomy of the core.
//!
//! Every fallible operation reports exactly one of these; a failed
//! operation never leaves partial state behind.

use vstd::prelude::*;

verus! {

/// Why an input was rejected before it touched any state.
#[derive(Clone, Copy, PartialEq, Eq, Structural, Debug)]
pub enum ValidationError {
    /// The field may not be empty.
    Empty,
    /// The field exceeds its maximum length in characters.
    TooLong,
}

/// One error per failed operation.
#[derive(Clone, Copy, PartialEq, Eq, Structural, Debug)]
pub enum ApiError {
    /// Malformed or oversized input, rejected before any state change.
    Validation(ValidationError),
    /// The event or question id does not resolve.
    NotFound,
    /// The supplied credential grants no right to the operation.
    Forbidden,
    /// A per-event counter is exhausted: a machine limit, not a client fault.
    Capacity,
}

impl ValidationError {
    /// What `message` returns, for use in contracts.
    pub open spec fn message_spec(&self) -> Seq<char> {
        match self {
            ValidationError::Empty => "value must not be empty"@,
            ValidationError::TooLong => "value exceeds the maximum length"@,
        }
    }

    /// A short human-readable account of the violated constraint.
    pub fn message(&self) -> (r: &'static str)
        ensures
            r@ == self.message_spec(),
    {
        match self {
            ValidationError::Empty => "value must not be empty",
            ValidationError::TooLong => "value exceeds the maximum length",
        }
    }
}

impl ApiError {
    /// What `message` returns, for use in contracts.
    pub open spec fn message_spec(&self) -> Seq<char> {
        match self {
            ApiError::Validation(v) => v.message_spec(),
            ApiError::NotFound => "event or question not found"@,
            ApiError::Forbidden => "credential does not authorize this operation"@,
            ApiError::Capacity => "the event can take no further changes"@,
        }
    }

    /// A short human-readable account of the failure.
    pub fn message(&self) -> (r: &'static str)
        ensures
            r@ == self.message_spec(),
    {
        match self {
            ApiError::Validation(v) => v.message(),
            ApiError::NotFound => "event or question not found",
            ApiError::Forbidden => "credential does not authorize this operation",
            ApiError::Capacity => "the event can take no further changes",
        }
    }
}

} // verus!
