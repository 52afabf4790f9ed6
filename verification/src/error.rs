//! Errors reported by the library.

use vstd::prelude::*;

verus! {

/// Errors reported by tenant and session operations.
#[derive(Debug, Clone, PartialEq, Eq)]
pub enum AmiError {
    /// A caller-supplied value was rejected.
    InvalidParameter { message: String },
    /// An internal facility (such as the system's random source) failed.
    InternalError { message: String },
}

/// `e` reports an invalid parameter with the message `m`.
pub open spec fn is_invalid_parameter(e: AmiError, m: Seq<char>) -> bool {
    e matches AmiError::InvalidParameter { message } && message@ == m
}

/// `e` reports an internal failure with the message `m`.
pub open spec fn is_internal_error(e: AmiError, m: Seq<char>) -> bool {
    e matches AmiError::InternalError { message } && message@ == m
}

} // verus!
