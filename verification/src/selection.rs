//! Filesystem entries, and the rule by which each selection strategy
//! admits them.

use crate::metadata::{BackupMetadata, BackupType, MetadataView};
use vstd::prelude::*;

verus! {

/// What an entry is.
#[derive(Clone, Copy, Debug, PartialEq, Eq, Structural)]
pub enum EntryKind {
    File,
    Directory,
}

/// One entry met while walking a root. Timestamps are in seconds since
/// the epoch, and `None` where they could not be read.
pub struct FilesystemEntry {
    /// The absolute path.
    pub path: String,
    pub kind: EntryKind,
    /// The distance from the root of the walk, which itself has depth 0.
    pub depth: usize,
    /// When the entry was last modified.
    pub modified: Option<u64>,
    /// When the entry was created.
    pub created: Option<u64>,
}

/// The mathematical content of a [`FilesystemEntry`].
pub struct EntryView {
    pub path: Seq<char>,
    pub kind: EntryKind,
    pub depth: nat,
    pub modified: Option<u64>,
    pub created: Option<u64>,
}

impl View for FilesystemEntry {
    type V = EntryView;

    open spec fn view(&self) -> EntryView {
        EntryView {
            path: self.path@,
            kind: self.kind,
            depth: self.depth as nat,
            modified: self.modified,
            created: self.created,
        }
    }
}

impl EntryView {
    /// Whether history has a say about this entry at all: the root of a
    /// walk is a directory that no reference time ever admits.
    pub open spec fn dated(self) -> bool {
        self.kind == EntryKind::File || self.depth > 0
    }

    /// The timestamp that is held against the reference time: the
    /// modification time of a file, the creation time of a directory.
    pub open spec fn timestamp(self) -> Option<u64> {
        match self.kind {
            EntryKind::File => self.modified,
            EntryKind::Directory => self.created,
        }
    }

    /// Whether the entry is known to be newer than `reference`. An entry
    /// whose timestamp equals the reference, or cannot be read, is not.
    pub open spec fn newer_than(self, reference: u64) -> bool {
        self.dated() && match self.timestamp() {
            Some(t) => t > reference,
            None => false,
        }
    }
}

impl BackupType {
    /// Whether this strategy, comparing against `reference`, admits
    /// `entry`.
    pub open spec fn admits(self, reference: u64, entry: EntryView) -> bool {
        match self {
            BackupType::Full => true,
            BackupType::Incremental => entry.newer_than(reference),
            BackupType::Differential => entry.newer_than(reference),
        }
    }

    /// Whether this strategy admits `entry`, given the record of earlier
    /// runs.
    pub open spec fn selects(self, entry: EntryView, metadata: MetadataView) -> bool {
        self.admits(metadata.reference_time(self), entry)
    }

    /// Whether `entry` belongs in the archive of a run of this strategy.
    ///
    /// A full run admits every entry. An incremental run admits a file
    /// modified, and a directory below the root created, strictly after
    /// the most recent run; a differential run does the same against the
    /// very first run. Where the record holds no such run the reference
    /// is 0. The time of the run itself has no say.
    pub fn includes(
        &self,
        entry: &FilesystemEntry,
        metadata: &BackupMetadata,
        run_timestamp: u64,
    ) -> (included: bool)
        ensures
            included == self.selects(entry@, metadata@),
    {
        match self {
            BackupType::Full => true,
            _ => {
                let reference = metadata.reference_time(*self);
                match entry.kind {
                    EntryKind::File => match entry.modified {
                        Some(t) => t > reference,
                        None => false,
                    },
                    EntryKind::Directory => entry.depth > 0 && match entry.created {
                        Some(t) => t > reference,
                        None => false,
                    },
                }
            },
        }
    }
}

/// Whatever an incremental run admits against any reference time, a full
/// run admits too; and it admits a file exactly when the file was
/// modified after the reference time, a directory below the root exactly
/// when it was created after it.
pub proof fn lemma_incremental_within_full(reference: u64, entry: EntryView)
    ensures
        BackupType::Incremental.admits(reference, entry) ==> BackupType::Full.admits(
            reference,
            entry,
        ),
        entry.kind == EntryKind::File ==> (BackupType::Incremental.admits(reference, entry) <==> (
        entry.modified is Some && entry.modified->Some_0 > reference)),
        entry.kind == EntryKind::Directory && entry.depth > 0 ==> (BackupType::Incremental.admits(
            reference,
            entry,
        ) <==> (entry.created is Some && entry.created->Some_0 > reference)),
{
}

/// A differential run differs from an incremental one in its reference
/// time only.
pub proof fn lemma_differential_is_incremental_against_original(
    reference: u64,
    entry: EntryView,
)
    ensures
        BackupType::Differential.admits(reference, entry) == BackupType::Incremental.admits(
            reference,
            entry,
        ),
{
}

/// What a differential run selects depends on the time of the first run and
/// on nothing else in the record: two records that agree on it select the
/// same entries.
pub proof fn lemma_differential_depends_on_original_only(
    entry: EntryView,
    first: MetadataView,
    second: MetadataView,
)
    requires
        first.original_backup_time == second.original_backup_time,
    ensures
        BackupType::Differential.selects(entry, first) == BackupType::Differential.selects(
            entry,
            second,
        ),
{
}

/// The history of paths has no say in selection: two records that agree
/// on both timestamps select the same entries under every strategy.
pub proof fn lemma_history_has_no_say(
    policy: BackupType,
    entry: EntryView,
    first: MetadataView,
    second: MetadataView,
)
    requires
        first.last_backup_time == second.last_backup_time,
        first.original_backup_time == second.original_backup_time,
    ensures
        policy.selects(entry, first) == policy.selects(entry, second),
{
}

/// On a record without timestamps, incremental and differential runs
/// admit every dated entry whose timestamp is known and after the epoch.
pub proof fn lemma_first_run_admits_like_full(
    policy: BackupType,
    entry: EntryView,
    metadata: MetadataView,
)
    requires
        metadata.last_backup_time is None,
        metadata.original_backup_time is None,
        entry.dated(),
        entry.timestamp() is Some,
        entry.timestamp()->Some_0 > 0,
    ensures
        policy.selects(entry, metadata),
{
}

/// The later the reference time, the less is admitted.
pub proof fn lemma_later_reference_admits_less(
    policy: BackupType,
    earlier: u64,
    later: u64,
    entry: EntryView,
)
    requires
        earlier <= later,
    ensures
        policy.admits(later, entry) ==> policy.admits(earlier, entry),
{
}

} // verus!
