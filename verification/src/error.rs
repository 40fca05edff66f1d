//! Errors reported by the drivers.

use vstd::prelude::*;

verus! {

/// The kind of an error.
#[derive(Debug, Clone, Copy, PartialEq, Eq, Structural)]
pub enum ErrorCode {
    InvalidArgument,
    TryAgain,
    OutOfMemory,
    OperationNotPermitted,
    PermissionDenied,
}

/// An error: its kind and a human readable reason.
#[derive(Debug, Clone, Copy)]
pub struct Error {
    pub code: ErrorCode,
    pub reason: &'static str,
}

impl Error {
    /// Builds an error from its kind and reason.
    pub fn new(code: ErrorCode, reason: &'static str) -> (e: Error)
        ensures
            e.code == code,
            e.reason == reason,
    {
        Error { code, reason }
    }
}

} // verus!
