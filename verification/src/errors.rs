//! The errors of the project operations.

use vstd::prelude::*;

verus! {

/// Why an operation failed.
#[derive(Clone, Copy, Debug, PartialEq, Eq, Structural)]
pub enum ErrorKind {
    /// A file or directory that the operation needs is missing.
    NotFound,
    /// The configuration file is there but does not hold a configuration.
    Corrupt,
    /// The operating system refused or failed an access.
    IoFailure,
    /// An argument is not one the operation accepts.
    InvalidArgument,
}

/// A failed operation: its kind, and the underlying cause in words.
#[derive(Debug, PartialEq, Eq)]
pub struct ProjectError {
    pub kind: ErrorKind,
    pub context: String,
}

impl ProjectError {
    /// This error is of kind `kind` and carries the cause `context`.
    pub open spec fn is_of(self, kind: ErrorKind, context: Seq<char>) -> bool {
        self.kind == kind && self.context@ == context
    }

    /// An error of kind `kind` with the cause `context`.
    pub fn new(kind: ErrorKind, context: String) -> (error: ProjectError)
        ensures
            error.is_of(kind, context@),
    {
        ProjectError { kind, context }
    }

    /// The error for an access to the disk that failed: `NotFound` where
    /// the file or directory is missing, `IoFailure` for every other cause.
    pub fn from_io(missing: bool, cause: String) -> (error: ProjectError)
        ensures
            missing ==> error.is_of(ErrorKind::NotFound, cause@),
            !missing ==> error.is_of(ErrorKind::IoFailure, cause@),
    {
        if missing {
            ProjectError { kind: ErrorKind::NotFound, context: cause }
        } else {
            ProjectError { kind: ErrorKind::IoFailure, context: cause }
        }
    }

    /// The cause in words, as shown to the user.
    pub fn message(&self) -> (text: String)
        ensures
            text@ == self.context@,
    {
        self.context.clone()
    }
}

/// `result` is a failure of kind `kind` with the cause `context`.
pub open spec fn fails_with<T>(
    result: Result<T, ProjectError>,
    kind: ErrorKind,
    context: Seq<char>,
) -> bool {
    result matches Err(e) && e.is_of(kind, context)
}

} // verus!
