//! Errors of the library.
use vstd::prelude::*;

verus! {

/// How a version-control command failed.
#[derive(Clone, Copy, Debug, PartialEq, Eq, Structural)]
pub enum GitError {
    FailedToRunGit,
    CommandFailed { exit_code: i32 },
    TerminatedBySignal,
}

/// Why an operation of the tool stopped.
#[derive(Clone, Copy, Debug, PartialEq, Eq, Structural)]
pub enum AppError {
    Git(GitError),
    UnsafeDelete,
    InterruptedByUser,
    /// No branch is checked out.
    NoCurrentBranch,
}

impl From<GitError> for AppError {
    fn from(error: GitError) -> (r: AppError) {
        AppError::Git(error)
    }
}

impl vstd::std_specs::convert::FromSpecImpl<GitError> for AppError {
    open spec fn obeys_from_spec() -> bool {
        true
    }

    open spec fn from_spec(v: GitError) -> AppError {
        AppError::Git(v)
    }
}

} // verus!
