//! What can go wrong during a backup run, and which failures end it.

use vstd::prelude::*;

verus! {

/// The kinds of failure a run can meet.
#[derive(Clone, Copy, Debug, PartialEq, Eq, Structural)]
pub enum BackupError {
    /// A requested root, or the parent of the destination, does not exist.
    NotFound,
    /// An entry could not be read, or vanished, during traversal.
    Unreadable,
    /// The persisted metadata exists but cannot be parsed.
    Corrupt,
    /// The destination cannot be created, or writing or finalizing the
    /// archive failed.
    IOFailure,
}

impl BackupError {
    /// A fatal failure aborts the run; any other is reported and skipped.
    pub open spec fn fatal(self) -> bool {
        self == BackupError::Corrupt || self == BackupError::IOFailure
    }

    /// Whether this failure aborts the run.
    pub fn is_fatal(&self) -> (fatal: bool)
        ensures
            fatal == self.fatal(),
    {
        match self {
            BackupError::NotFound => false,
            BackupError::Unreadable => false,
            BackupError::Corrupt => true,
            BackupError::IOFailure => true,
        }
    }
}

} // verus!
