//! The record of earlier runs that incremental and differential runs
//! compare against, and the way a completed run changes it.

use crate::error::BackupError;
use crate::paths::{join, joined};
use std::collections::HashMap;
use vstd::prelude::*;

verus! {

/// The selection strategy of a run.
#[derive(Clone, Copy, Debug, PartialEq, Eq, Structural)]
pub enum BackupType {
    /// Every entry, independent of history.
    Full,
    /// Entries changed since the most recent run.
    Incremental,
    /// Entries changed since the very first run.
    Differential,
}

/// Timestamps of earlier runs, in seconds since the epoch.
pub struct BackupMetadata {
    /// When the most recent successful run took place.
    pub last_backup_time: Option<u64>,
    /// When the very first successful run took place.
    pub original_backup_time: Option<u64>,
    /// Per-path timestamps. Carried along; selection never consults it.
    pub backup_history: HashMap<String, u64>,
}

/// The mathematical content of a [`BackupMetadata`].
pub struct MetadataView {
    pub last_backup_time: Option<u64>,
    pub original_backup_time: Option<u64>,
    pub backup_history: Map<String, u64>,
}

impl MetadataView {
    /// The record before any run: no timestamps, no history.
    pub open spec fn empty() -> MetadataView {
        MetadataView {
            last_backup_time: None,
            original_backup_time: None,
            backup_history: Map::empty(),
        }
    }

    /// The timestamp that entries are compared against under `policy`;
    /// 0 where the record holds none. A full run compares against nothing.
    pub open spec fn reference_time(self, policy: BackupType) -> u64 {
        match policy {
            BackupType::Full => 0,
            BackupType::Incremental => match self.last_backup_time {
                Some(t) => t,
                None => 0,
            },
            BackupType::Differential => match self.original_backup_time {
                Some(t) => t,
                None => 0,
            },
        }
    }

    /// The record after a run stamped `run_timestamp` has completed.
    pub open spec fn after_run(self, run_timestamp: u64) -> MetadataView {
        MetadataView {
            last_backup_time: Some(run_timestamp),
            original_backup_time: match self.original_backup_time {
                Some(t) => Some(t),
                None => Some(run_timestamp),
            },
            backup_history: self.backup_history,
        }
    }

    /// The record after the runs stamped `runs[0]`, `runs[1]`, ... have
    /// completed one after the other.
    pub open spec fn after_runs(self, runs: Seq<u64>) -> MetadataView
        decreases runs.len(),
    {
        if runs.len() == 0 {
            self
        } else {
            self.after_runs(runs.drop_last()).after_run(runs.last())
        }
    }
}

impl View for BackupMetadata {
    type V = MetadataView;

    open spec fn view(&self) -> MetadataView {
        MetadataView {
            last_backup_time: self.last_backup_time,
            original_backup_time: self.original_backup_time,
            backup_history: self.backup_history@,
        }
    }
}

impl Default for BackupMetadata {
    /// The record before any run.
    fn default() -> (metadata: BackupMetadata)
        ensures
            metadata@ == MetadataView::empty(),
    {
        BackupMetadata {
            last_backup_time: None,
            original_backup_time: None,
            backup_history: HashMap::new(),
        }
    }
}

impl Clone for BackupMetadata {
    fn clone(&self) -> (copy: BackupMetadata)
        ensures
            copy@ == self@,
    {
        BackupMetadata {
            last_backup_time: self.last_backup_time,
            original_backup_time: self.original_backup_time,
            backup_history: self.backup_history.clone(),
        }
    }
}

impl BackupMetadata {
    /// The timestamp that entries are compared against under `policy`.
    pub fn reference_time(&self, policy: BackupType) -> (reference: u64)
        ensures
            reference == self@.reference_time(policy),
    {
        match policy {
            BackupType::Full => 0,
            BackupType::Incremental => match self.last_backup_time {
                Some(t) => t,
                None => 0,
            },
            BackupType::Differential => match self.original_backup_time {
                Some(t) => t,
                None => 0,
            },
        }
    }

    /// Whether no run has completed yet, so that the next one to complete
    /// becomes the first on record.
    pub fn is_first_run(&self) -> (first: bool)
        ensures
            first == (self@.original_backup_time is None),
    {
        self.original_backup_time.is_none()
    }

    /// Records that a run stamped `run_timestamp` has completed: it becomes
    /// the most recent run, and the first one if there was none.
    pub fn record_run(&mut self, run_timestamp: u64)
        ensures
            final(self)@ == old(self)@.after_run(run_timestamp),
    {
        self.last_backup_time = Some(run_timestamp);
        if self.original_backup_time.is_none() {
            self.original_backup_time = Some(run_timestamp);
        }
    }
}

/// The directory, below the home directory, that holds the metadata.
pub const METADATA_DIR: &'static str = ".linux_backup_metadata";

/// The file, in that directory, that holds the record.
pub const METADATA_FILE: &'static str = "backup_metadata.json";

/// Where the metadata of a user is persisted. A store is a value that a
/// run is handed; there is no store that code reaches without one.
pub struct MetadataStore {
    directory: String,
}

impl View for MetadataStore {
    type V = Seq<char>;

    /// The directory of the store.
    closed spec fn view(&self) -> Seq<char> {
        self.directory@
    }
}

impl MetadataStore {
    /// The store in `directory`.
    pub fn new(directory: String) -> (store: MetadataStore)
        ensures
            store@ == directory@,
    {
        MetadataStore { directory }
    }

    /// The store of the user whose home directory is `home`.
    pub fn in_home(home: &str) -> (store: MetadataStore)
        ensures
            store@ == joined(home@, METADATA_DIR@),
    {
        MetadataStore { directory: join(home, METADATA_DIR) }
    }

    /// The directory of the store.
    pub fn directory(&self) -> (directory: &str)
        ensures
            directory@ == self@,
    {
        self.directory.as_str()
    }

    /// The path of the file that holds the record.
    pub fn record_path(&self) -> (path: String)
        ensures
            path@ == joined(self@, METADATA_FILE@),
    {
        join(self.directory.as_str(), METADATA_FILE)
    }
}

/// What was found where the metadata is persisted.
pub enum StoredMetadata {
    /// No file exists there.
    Missing,
    /// The file exists and holds this record.
    Parsed(BackupMetadata),
    /// The file exists but does not hold a valid record.
    Invalid,
}

/// The mathematical content of a [`StoredMetadata`].
pub enum StoredView {
    Missing,
    Parsed(MetadataView),
    Invalid,
}

impl View for StoredMetadata {
    type V = StoredView;

    open spec fn view(&self) -> StoredView {
        match self {
            StoredMetadata::Missing => StoredView::Missing,
            StoredMetadata::Parsed(metadata) => StoredView::Parsed(metadata@),
            StoredMetadata::Invalid => StoredView::Invalid,
        }
    }
}

/// The metadata a run starts from: the empty record where nothing is
/// persisted, the persisted record where it is valid, and `Corrupt` where
/// a file exists but does not hold a valid record.
pub open spec fn loaded_from(stored: StoredView) -> Result<MetadataView, BackupError> {
    match stored {
        StoredView::Missing => Ok(MetadataView::empty()),
        StoredView::Parsed(metadata) => Ok(metadata),
        StoredView::Invalid => Err(BackupError::Corrupt),
    }
}

/// The metadata a run starts from, given what was found where it is
/// persisted. A file that exists but does not hold a valid record is a
/// fatal failure.
pub fn load_backup_metadata(stored: StoredMetadata) -> (loaded: Result<BackupMetadata, BackupError>)
    ensures
        match loaded {
            Ok(metadata) => loaded_from(stored@) == Ok::<MetadataView, BackupError>(metadata@),
            Err(error) => loaded_from(stored@) == Err::<MetadataView, BackupError>(error),
        },
{
    match stored {
        StoredMetadata::Missing => Ok(BackupMetadata::default()),
        StoredMetadata::Parsed(metadata) => Ok(metadata),
        StoredMetadata::Invalid => Err(BackupError::Corrupt),
    }
}

/// Once a run has set the time of the first run, no later run changes
/// it; where the record holds none, the first run to complete sets it.
/// Every run becomes the most recent one, and none touches the history.
pub proof fn lemma_original_time_set_once(metadata: MetadataView, runs: Seq<u64>)
    ensures
        metadata.original_backup_time is Some ==> metadata.after_runs(runs).original_backup_time
            == metadata.original_backup_time,
        metadata.original_backup_time is None && runs.len() > 0 ==> metadata.after_runs(
            runs,
        ).original_backup_time == Some(runs[0]),
        runs.len() > 0 ==> metadata.after_runs(runs).last_backup_time == Some(runs.last()),
        metadata.after_runs(runs).backup_history == metadata.backup_history,
    decreases runs.len(),
{
    if runs.len() > 0 {
        lemma_original_time_set_once(metadata, runs.drop_last());
    }
}

} // verus!
