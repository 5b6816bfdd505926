//! The shape of the command line.

use crate::metadata::BackupType;
use vstd::prelude::*;

verus! {

/// A parsed command line.
pub struct Cli {
    pub command: Commands,
}

/// What the tool is asked to do.
pub enum Commands {
    /// Back up specific directories.
    Selective {
        /// The name of the output file.
        output: String,
        /// The kind of backup to perform.
        backup_type: BackupType,
    },
    /// Back up the entire system, without the directories that hold no
    /// data of their own.
    Full {
        /// The name of the output file.
        output: String,
        /// The kind of backup to perform.
        backup_type: BackupType,
    },
    /// Restore from a backup.
    Restore {
        /// The backup file to restore from.
        file: String,
        /// The directory to restore to.
        target: String,
    },
}

} // verus!
