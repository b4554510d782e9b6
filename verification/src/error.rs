//! Errors the library reports to its callers.
use vstd::prelude::*;

verus! {

/// Error of a workspace operation.
#[derive(Debug)]
pub enum MoonError {
    /// The caller passed something the operation refuses.
    InvalidArgument(String),
    /// The operation would reach outside the workspace.
    PermissionDenied(String),
    /// Something went wrong on our side (a subprocess, a bad reply).
    Internal(String),
    /// A filesystem operation failed.
    IoError(String),
}

/// A [`MoonError`] as a value: its kind and its message.
pub ghost enum Failure {
    InvalidArgument(Seq<char>),
    PermissionDenied(Seq<char>),
    Internal(Seq<char>),
    IoError(Seq<char>),
}

impl View for MoonError {
    type V = Failure;

    open spec fn view(&self) -> Failure {
        match self {
            MoonError::InvalidArgument(s) => Failure::InvalidArgument(s@),
            MoonError::PermissionDenied(s) => Failure::PermissionDenied(s@),
            MoonError::Internal(s) => Failure::Internal(s@),
            MoonError::IoError(s) => Failure::IoError(s@),
        }
    }
}

impl MoonError {
    /// The human-readable message carried by the error.
    pub fn message(&self) -> (m: String)
        ensures
            m@ == match self {
                MoonError::InvalidArgument(s) => s@,
                MoonError::PermissionDenied(s) => s@,
                MoonError::Internal(s) => s@,
                MoonError::IoError(s) => s@,
            },
    {
        match self {
            MoonError::InvalidArgument(s) => s.clone(),
            MoonError::PermissionDenied(s) => s.clone(),
            MoonError::Internal(s) => s.clone(),
            MoonError::IoError(s) => s.clone(),
        }
    }
}

} // verus!
