//! The error kinds an operation can report.
//!
//! All validation happens before any mutating write: on failure no store
//! state changes and the specific kind is returned to the caller.

use vstd::prelude::*;

verus! {

/// Why an operation was refused.
#[derive(Clone, Copy, Debug, PartialEq, Eq, Structural)]
pub enum ErrorCode {
    /// A record with the derived key is already populated.
    AlreadyExists,
    /// The record a mutation targets is absent.
    NotFound,
    /// The caller's identity does not match the record's owner.
    Unauthorized,
    /// A variable-length field exceeds its fixed byte ceiling.
    ContentTooLong,
}

} // verus!
