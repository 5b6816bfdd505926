//! One backup run from start to end, as a state machine. The caller does
//! the outside work that each step names and reports how it went; the
//! machine decides what comes next, and keeps the record of earlier runs
//! untouched until the archive is finalized.

use crate::archiver::{archive, entry_views, planned, ArchivePlan};
use crate::error::BackupError;
use crate::filter::{
    excluded, matchers_of, nested_string_views, rule_views, string_views, ExclusionRule,
    MatcherView, PathFilter, RuleView,
};
use crate::metadata::{
    load_backup_metadata, loaded_from, BackupMetadata, BackupType, MetadataView, StoredMetadata,
    StoredView,
};
use crate::selection::FilesystemEntry;
use vstd::prelude::*;

verus! {

/// How far a run has come.
#[derive(Clone, Copy, Debug, PartialEq, Eq, Structural)]
pub enum RunPhase {
    /// Nothing is loaded yet.
    Init,
    /// The record of earlier runs is loaded and the run has its timestamp.
    MetadataLoaded,
    /// At least one root has been dealt with.
    Archiving,
    /// The archive is complete and the run is recorded in memory.
    Finalized,
    /// The record of this run is persisted.
    MetadataPersisted,
    /// A fatal failure ended the run.
    Aborted(BackupError),
}

/// The outside work that a run asks for next.
#[derive(Clone, Copy, Debug, PartialEq, Eq, Structural)]
pub enum RunAction {
    /// Resolve the destination and open the compressed output stream.
    OpenOutput,
    /// Read what is persisted of earlier runs, and read the clock.
    LoadMetadata,
    /// Expand the glob patterns of the exclusion list against the
    /// filesystem.
    ExpandExclusions,
    /// Walk the root with this index and write its records.
    ArchiveRoot(usize),
    /// Write the trailer of the archive.
    Finalize,
    /// Persist the record of earlier runs as it now stands.
    PersistMetadata,
    /// Nothing: the run has succeeded.
    Done,
    /// Nothing: the run has failed.
    Abort(BackupError),
}

/// How a piece of outside work went.
pub enum RunEvent {
    /// The output stream is open.
    OutputOpened,
    /// The destination could not be created.
    OutputFailed,
    /// What was found where the metadata is persisted, and the time at
    /// which it was read, in seconds since the epoch.
    MetadataRead(StoredMetadata, u64),
    /// The paths that each rule of the exclusion list matches at present:
    /// one list for each rule, in the order of the rules. The list of a
    /// literal rule is not looked at.
    ExclusionsExpanded(Vec<Vec<String>>),
    /// The records of the current root are written.
    RootArchived,
    /// The current root does not exist.
    RootMissing,
    /// An entry of the current root could not be read and was left out.
    EntryUnreadable,
    /// Writing to the archive failed.
    ArchiveWriteFailed,
    /// The trailer of the archive is written.
    ArchiveFinalized,
    /// Writing the trailer failed.
    FinalizeFailed,
    /// The metadata is persisted.
    MetadataSaved,
    /// Persisting the metadata failed.
    MetadataSaveFailed,
}

/// The mathematical content of a [`RunEvent`].
pub enum EventView {
    OutputOpened,
    OutputFailed,
    MetadataRead(StoredView, u64),
    ExclusionsExpanded(Seq<Seq<Seq<char>>>),
    RootArchived,
    RootMissing,
    EntryUnreadable,
    ArchiveWriteFailed,
    ArchiveFinalized,
    FinalizeFailed,
    MetadataSaved,
    MetadataSaveFailed,
}

impl EventView {
    /// The failure that the event reports, if it reports one.
    pub open spec fn failure(self) -> Option<BackupError> {
        match self {
            EventView::OutputFailed => Some(BackupError::IOFailure),
            EventView::MetadataRead(StoredView::Invalid, _) => Some(BackupError::Corrupt),
            EventView::RootMissing => Some(BackupError::NotFound),
            EventView::EntryUnreadable => Some(BackupError::Unreadable),
            EventView::ArchiveWriteFailed => Some(BackupError::IOFailure),
            EventView::FinalizeFailed => Some(BackupError::IOFailure),
            EventView::MetadataSaveFailed => Some(BackupError::IOFailure),
            _ => None,
        }
    }

    /// Whether the event reports on the work `action`.
    pub open spec fn answers(self, action: RunAction) -> bool {
        match action {
            RunAction::OpenOutput => self is OutputOpened || self is OutputFailed,
            RunAction::LoadMetadata => self is MetadataRead,
            RunAction::ExpandExclusions => self is ExclusionsExpanded,
            RunAction::ArchiveRoot(_) => self is RootArchived || self is RootMissing
                || self is EntryUnreadable || self is ArchiveWriteFailed,
            RunAction::Finalize => self is ArchiveFinalized || self is FinalizeFailed,
            RunAction::PersistMetadata => self is MetadataSaved || self is MetadataSaveFailed,
            RunAction::Done => false,
            RunAction::Abort(_) => false,
        }
    }
}

impl View for RunEvent {
    type V = EventView;

    open spec fn view(&self) -> EventView {
        match self {
            RunEvent::OutputOpened => EventView::OutputOpened,
            RunEvent::OutputFailed => EventView::OutputFailed,
            RunEvent::MetadataRead(stored, now) => EventView::MetadataRead(stored@, *now),
            RunEvent::ExclusionsExpanded(expansions) => EventView::ExclusionsExpanded(
                nested_string_views(expansions@),
            ),
            RunEvent::RootArchived => EventView::RootArchived,
            RunEvent::RootMissing => EventView::RootMissing,
            RunEvent::EntryUnreadable => EventView::EntryUnreadable,
            RunEvent::ArchiveWriteFailed => EventView::ArchiveWriteFailed,
            RunEvent::ArchiveFinalized => EventView::ArchiveFinalized,
            RunEvent::FinalizeFailed => EventView::FinalizeFailed,
            RunEvent::MetadataSaved => EventView::MetadataSaved,
            RunEvent::MetadataSaveFailed => EventView::MetadataSaveFailed,
        }
    }
}

impl RunEvent {
    /// The failure that the event reports, if it reports one.
    pub fn failure(&self) -> (failure: Option<BackupError>)
        ensures
            failure == self@.failure(),
    {
        match self {
            RunEvent::OutputFailed => Some(BackupError::IOFailure),
            RunEvent::MetadataRead(StoredMetadata::Invalid, _) => Some(BackupError::Corrupt),
            RunEvent::RootMissing => Some(BackupError::NotFound),
            RunEvent::EntryUnreadable => Some(BackupError::Unreadable),
            RunEvent::ArchiveWriteFailed => Some(BackupError::IOFailure),
            RunEvent::FinalizeFailed => Some(BackupError::IOFailure),
            RunEvent::MetadataSaveFailed => Some(BackupError::IOFailure),
            _ => None,
        }
    }
}

/// The mathematical content of a [`BackupRun`].
pub struct RunView {
    /// The selection strategy of the run.
    pub policy: BackupType,
    /// The roots to archive, in order.
    pub roots: Seq<Seq<char>>,
    /// The exclusion list of the run.
    pub exclusions: Seq<RuleView>,
    pub phase: RunPhase,
    /// Whether the output stream is open.
    pub output_open: bool,
    /// Whether the filter of the run is built.
    pub filter_ready: bool,
    /// The filter of the run: its exclusion list with every glob pattern
    /// expanded. Without rules until it is built.
    pub filter: Seq<MatcherView>,
    /// How many roots have been dealt with.
    pub roots_done: nat,
    /// The record of earlier runs, as loaded; from `Finalized` on, with
    /// this run recorded.
    pub metadata: MetadataView,
    /// The one timestamp of this run.
    pub run_timestamp: u64,
}

impl RunView {
    /// A run that has not started.
    pub open spec fn initial(
        policy: BackupType,
        roots: Seq<Seq<char>>,
        exclusions: Seq<RuleView>,
    ) -> RunView {
        RunView {
            policy,
            roots,
            exclusions,
            phase: RunPhase::Init,
            output_open: false,
            filter_ready: false,
            filter: Seq::empty(),
            roots_done: 0,
            metadata: MetadataView::empty(),
            run_timestamp: 0,
        }
    }

    /// Whether roots are being archived, or about to be.
    pub open spec fn archiving(self) -> bool {
        self.phase == RunPhase::MetadataLoaded || self.phase == RunPhase::Archiving
    }

    /// The outside work that the run waits for.
    pub open spec fn pending(self) -> RunAction {
        match self.phase {
            RunPhase::Init => if self.output_open {
                RunAction::LoadMetadata
            } else {
                RunAction::OpenOutput
            },
            RunPhase::MetadataLoaded | RunPhase::Archiving => if !self.filter_ready {
                RunAction::ExpandExclusions
            } else if self.roots_done < self.roots.len() {
                RunAction::ArchiveRoot(self.roots_done as usize)
            } else {
                RunAction::Finalize
            },
            RunPhase::Finalized => RunAction::PersistMetadata,
            RunPhase::MetadataPersisted => RunAction::Done,
            RunPhase::Aborted(error) => RunAction::Abort(error),
        }
    }

    /// The run with its phase replaced.
    pub open spec fn at(self, phase: RunPhase) -> RunView {
        RunView { phase, ..self }
    }

    /// The run after `event`. An event that does not report on the
    /// pending work changes nothing, nor does an entry that could not be
    /// read.
    pub open spec fn next(self, event: EventView) -> RunView {
        match (self.pending(), event) {
            (RunAction::OpenOutput, EventView::OutputOpened) => RunView {
                output_open: true,
                ..self
            },
            (RunAction::OpenOutput, EventView::OutputFailed) => self.at(
                RunPhase::Aborted(BackupError::IOFailure),
            ),
            (RunAction::LoadMetadata, EventView::MetadataRead(stored, now)) => match loaded_from(
                stored,
            ) {
                Ok(metadata) => RunView {
                    phase: RunPhase::MetadataLoaded,
                    metadata,
                    run_timestamp: now,
                    ..self
                },
                Err(error) => self.at(RunPhase::Aborted(error)),
            },
            (RunAction::ExpandExclusions, EventView::ExclusionsExpanded(expansions)) => RunView {
                filter_ready: true,
                filter: matchers_of(self.exclusions, expansions),
                ..self
            },
            (RunAction::ArchiveRoot(_), EventView::RootArchived)
            | (RunAction::ArchiveRoot(_), EventView::RootMissing) => RunView {
                phase: RunPhase::Archiving,
                roots_done: self.roots_done + 1,
                ..self
            },
            (RunAction::ArchiveRoot(_), EventView::ArchiveWriteFailed) => self.at(
                RunPhase::Aborted(BackupError::IOFailure),
            ),
            (RunAction::Finalize, EventView::ArchiveFinalized) => RunView {
                phase: RunPhase::Finalized,
                metadata: self.metadata.after_run(self.run_timestamp),
                ..self
            },
            (RunAction::Finalize, EventView::FinalizeFailed) => self.at(
                RunPhase::Aborted(BackupError::IOFailure),
            ),
            (RunAction::PersistMetadata, EventView::MetadataSaved) => self.at(
                RunPhase::MetadataPersisted,
            ),
            (RunAction::PersistMetadata, EventView::MetadataSaveFailed) => self.at(
                RunPhase::Aborted(BackupError::IOFailure),
            ),
            _ => self,
        }
    }

    /// The run after the events `events[0]`, `events[1]`, ...
    pub open spec fn after(self, events: Seq<EventView>) -> RunView
        decreases events.len(),
    {
        if events.len() == 0 {
            self
        } else {
            self.after(events.drop_last()).next(events.last())
        }
    }

    /// What holds of every run, whatever was reported to it.
    pub open spec fn consistent(self) -> bool {
        &&& self.roots_done <= self.roots.len()
        &&& self.phase == RunPhase::Init ==> self.roots_done == 0 && self.metadata
            == MetadataView::empty() && !self.filter_ready
        &&& self.phase == RunPhase::MetadataLoaded ==> self.roots_done == 0
        &&& self.phase == RunPhase::Archiving ==> self.filter_ready && self.roots_done > 0
        &&& !self.filter_ready ==> self.filter == Seq::<MatcherView>::empty() && self.roots_done
            == 0
        &&& self.phase != RunPhase::Init && !(self.phase is Aborted) ==> self.output_open
        &&& self.phase == RunPhase::Finalized || self.phase == RunPhase::MetadataPersisted ==> {
            &&& self.roots_done == self.roots.len()
            &&& self.filter_ready
            &&& self.metadata.last_backup_time == Some(self.run_timestamp)
            &&& self.metadata.original_backup_time is Some
        }
    }
}

/// The position of a phase in the order in which a run passes through
/// the phases. A run that is aborted goes no further.
pub open spec fn phase_rank(phase: RunPhase) -> nat {
    match phase {
        RunPhase::Init => 0,
        RunPhase::MetadataLoaded => 1,
        RunPhase::Archiving => 2,
        RunPhase::Finalized => 3,
        RunPhase::MetadataPersisted => 4,
        RunPhase::Aborted(_) => 5,
    }
}

/// One backup run.
pub struct BackupRun {
    policy: BackupType,
    roots: Vec<String>,
    exclusions: Vec<ExclusionRule>,
    phase: RunPhase,
    output_open: bool,
    filter_ready: bool,
    filter: PathFilter,
    roots_done: usize,
    metadata: BackupMetadata,
    run_timestamp: u64,
}

impl View for BackupRun {
    type V = RunView;

    closed spec fn view(&self) -> RunView {
        RunView {
            policy: self.policy,
            roots: string_views(self.roots@),
            exclusions: rule_views(self.exclusions@),
            phase: self.phase,
            output_open: self.output_open,
            filter_ready: self.filter_ready,
            filter: self.filter@,
            roots_done: self.roots_done as nat,
            metadata: self.metadata@,
            run_timestamp: self.run_timestamp,
        }
    }
}

impl BackupRun {
    /// A run of `policy` over `roots`, in that order, under `exclusions`.
    pub fn new(policy: BackupType, roots: Vec<String>, exclusions: Vec<ExclusionRule>) -> (run:
        BackupRun)
        ensures
            run@ == RunView::initial(policy, string_views(roots@), rule_views(exclusions@)),
    {
        BackupRun {
            policy,
            roots,
            exclusions,
            phase: RunPhase::Init,
            output_open: false,
            filter_ready: false,
            filter: PathFilter::new(),
            roots_done: 0,
            metadata: BackupMetadata::default(),
            run_timestamp: 0,
        }
    }

    /// The outside work that the run waits for.
    pub fn pending_action(&self) -> (action: RunAction)
        ensures
            action == self@.pending(),
    {
        match self.phase {
            RunPhase::Init => if self.output_open {
                RunAction::LoadMetadata
            } else {
                RunAction::OpenOutput
            },
            RunPhase::MetadataLoaded | RunPhase::Archiving => if !self.filter_ready {
                RunAction::ExpandExclusions
            } else if self.roots_done < self.roots.len() {
                RunAction::ArchiveRoot(self.roots_done)
            } else {
                RunAction::Finalize
            },
            RunPhase::Finalized => RunAction::PersistMetadata,
            RunPhase::MetadataPersisted => RunAction::Done,
            RunPhase::Aborted(error) => RunAction::Abort(error),
        }
    }

    /// Takes the report on the pending work and says what comes next.
    ///
    /// Opening the output, writing to the archive, finalizing it and
    /// persisting the metadata are fatal where they fail, and so is
    /// metadata that exists but cannot be parsed. A missing root is
    /// skipped. The filter is built once, before the first root, and the
    /// run is recorded in the metadata when the archive is finalized, not
    /// before. A report that does not answer the pending work is ignored.
    pub fn step(&mut self, event: RunEvent) -> (action: RunAction)
        ensures
            final(self)@ == old(self)@.next(event@),
            action == final(self)@.pending(),
    {
        let pending = self.pending_action();
        assert(pending is ArchiveRoot ==> self.roots_done < self.roots.len());
        match (pending, event) {
            (RunAction::OpenOutput, RunEvent::OutputOpened) => {
                self.output_open = true;
            },
            (RunAction::OpenOutput, RunEvent::OutputFailed) => {
                self.phase = RunPhase::Aborted(BackupError::IOFailure);
            },
            (RunAction::LoadMetadata, RunEvent::MetadataRead(stored, now)) => {
                match load_backup_metadata(stored) {
                    Ok(metadata) => {
                        self.metadata = metadata;
                        self.run_timestamp = now;
                        self.phase = RunPhase::MetadataLoaded;
                    },
                    Err(error) => {
                        self.phase = RunPhase::Aborted(error);
                    },
                }
            },
            (RunAction::ExpandExclusions, RunEvent::ExclusionsExpanded(expansions)) => {
                self.filter = PathFilter::build(&self.exclusions, &expansions);
                self.filter_ready = true;
            },
            (RunAction::ArchiveRoot(_), RunEvent::RootArchived) => {
                self.roots_done = self.roots_done + 1;
                self.phase = RunPhase::Archiving;
            },
            (RunAction::ArchiveRoot(_), RunEvent::RootMissing) => {
                self.roots_done = self.roots_done + 1;
                self.phase = RunPhase::Archiving;
            },
            (RunAction::ArchiveRoot(_), RunEvent::ArchiveWriteFailed) => {
                self.phase = RunPhase::Aborted(BackupError::IOFailure);
            },
            (RunAction::Finalize, RunEvent::ArchiveFinalized) => {
                self.metadata.record_run(self.run_timestamp);
                self.phase = RunPhase::Finalized;
            },
            (RunAction::Finalize, RunEvent::FinalizeFailed) => {
                self.phase = RunPhase::Aborted(BackupError::IOFailure);
            },
            (RunAction::PersistMetadata, RunEvent::MetadataSaved) => {
                self.phase = RunPhase::MetadataPersisted;
            },
            (RunAction::PersistMetadata, RunEvent::MetadataSaveFailed) => {
                self.phase = RunPhase::Aborted(BackupError::IOFailure);
            },
            _ => {},
        }
        self.pending_action()
    }

    /// How far the run has come.
    pub fn phase(&self) -> (phase: RunPhase)
        ensures
            phase == self@.phase,
    {
        self.phase
    }

    /// The selection strategy of the run.
    pub fn policy(&self) -> (policy: BackupType)
        ensures
            policy == self@.policy,
    {
        self.policy
    }

    /// The roots of the run, in order.
    pub fn roots(&self) -> (roots: &Vec<String>)
        ensures
            string_views(roots@) == self@.roots,
    {
        &self.roots
    }

    /// The exclusion list of the run.
    pub fn exclusions(&self) -> (exclusions: &Vec<ExclusionRule>)
        ensures
            rule_views(exclusions@) == self@.exclusions,
    {
        &self.exclusions
    }

    /// The record of earlier runs as the run holds it.
    pub fn metadata(&self) -> (metadata: &BackupMetadata)
        ensures
            metadata@ == self@.metadata,
    {
        &self.metadata
    }

    /// The one timestamp of the run; 0 until the metadata is loaded.
    pub fn run_timestamp(&self) -> (timestamp: u64)
        ensures
            timestamp == self@.run_timestamp,
    {
        self.run_timestamp
    }

    /// Whether the filter of the run excludes `candidate`. Before the
    /// filter is built nothing is excluded.
    pub fn excludes(&self, candidate: &str) -> (result: bool)
        ensures
            result == excluded(self@.filter, candidate@),
    {
        self.filter.excludes(candidate)
    }

    /// Plans the archiving of the current root from the entries of its
    /// walk, with the filter, the strategy and the timestamp of the run
    /// and the metadata as loaded. There is a plan only while the run
    /// waits for a root.
    pub fn plan_root(&self, listing: &Vec<FilesystemEntry>) -> (plan: Option<ArchivePlan>)
        ensures
            plan is Some <==> self@.pending() is ArchiveRoot,
            plan is Some ==> plan->Some_0@ == planned(
                entry_views(listing@),
                self@.filter,
                self@.policy,
                self@.metadata,
            ),
    {
        match self.pending_action() {
            RunAction::ArchiveRoot(_) => Some(
                archive(listing, &self.filter, self.policy, &self.metadata, self.run_timestamp),
            ),
            _ => None,
        }
    }
}

/// No report changes what a run was set up with, and once the metadata is
/// loaded the run keeps its one timestamp.
pub proof fn lemma_configuration_fixed(run: RunView, event: EventView)
    ensures
        run.next(event).policy == run.policy,
        run.next(event).roots == run.roots,
        run.next(event).exclusions == run.exclusions,
        run.phase != RunPhase::Init ==> run.next(event).run_timestamp == run.run_timestamp,
        run.filter_ready ==> run.next(event).filter_ready && run.next(event).filter == run.filter,
{
}

/// The filter of a run is built once, from the exclusion list of the run
/// and the expansions reported, and before any root is dealt with.
pub proof fn lemma_filter_built_once(run: RunView, event: EventView)
    requires
        run.consistent(),
        run.next(event).filter != run.filter,
    ensures
        !run.filter_ready,
        run.roots_done == 0,
        run.phase == RunPhase::MetadataLoaded,
        event matches EventView::ExclusionsExpanded(expansions) && run.next(event).filter
            == matchers_of(run.exclusions, expansions),
{
}

/// A run passes through its phases in one order and never goes back. A
/// run that has succeeded or failed stays as it is.
pub proof fn lemma_phases_advance(run: RunView, event: EventView)
    ensures
        phase_rank(run.phase) <= phase_rank(run.next(event).phase),
        run.phase is Aborted || run.phase == RunPhase::MetadataPersisted ==> run.next(event)
            == run,
{
}

/// The record of earlier runs, once loaded, changes at one moment only:
/// when the archive is finalized after every root has been dealt with.
/// Then this run is recorded in it.
pub proof fn lemma_metadata_changes_at_finalization_only(run: RunView, event: EventView)
    requires
        run.phase != RunPhase::Init,
    ensures
        run.next(event).metadata == run.metadata || {
            &&& run.archiving()
            &&& run.filter_ready
            &&& run.roots_done >= run.roots.len()
            &&& event == EventView::ArchiveFinalized
            &&& run.next(event).phase == RunPhase::Finalized
            &&& run.next(event).metadata == run.metadata.after_run(run.run_timestamp)
        },
{
}

/// A run asks for its metadata to be persisted only once the archive is
/// finalized: the request is first made in answer to that report.
pub proof fn lemma_persist_follows_finalization(run: RunView, event: EventView)
    requires
        run.pending() != RunAction::PersistMetadata,
        run.next(event).pending() == RunAction::PersistMetadata,
    ensures
        event == EventView::ArchiveFinalized,
        run.pending() == RunAction::Finalize,
{
}

/// A report that does not answer the pending work changes nothing, and
/// neither does the report of an entry that could not be read.
pub proof fn lemma_other_reports_ignored(run: RunView, event: EventView)
    requires
        !event.answers(run.pending()) || event == EventView::EntryUnreadable,
    ensures
        run.next(event) == run,
{
}

/// A run is aborted by the fatal failures that answer its pending work,
/// and by nothing else; it then holds the failure, and the metadata as it
/// was. A missing root and an unreadable entry do not abort it.
pub proof fn lemma_abort_exactly_on_fatal_failure(run: RunView, event: EventView)
    requires
        !(run.phase is Aborted),
    ensures
        run.next(event).phase is Aborted <==> event.answers(run.pending()) && event.failure()
            is Some && event.failure()->Some_0.fatal(),
        run.next(event).phase is Aborted ==> run.next(event).phase == RunPhase::Aborted(
            event.failure()->Some_0,
        ) && run.next(event).metadata == run.metadata,
{
}

/// A report keeps a consistent run consistent.
pub proof fn lemma_step_preserves_consistency(run: RunView, event: EventView)
    requires
        run.consistent(),
    ensures
        run.next(event).consistent(),
{
}

/// Whatever is reported to a run, in whatever order, it stays consistent:
/// it never counts more roots than it has, and once it is finalized every
/// root has been dealt with and the metadata holds the run's timestamp as
/// the time of the most recent run.
pub proof fn lemma_every_run_consistent(
    policy: BackupType,
    roots: Seq<Seq<char>>,
    exclusions: Seq<RuleView>,
    events: Seq<EventView>,
)
    ensures
        RunView::initial(policy, roots, exclusions).after(events).consistent(),
    decreases events.len(),
{
    if events.len() > 0 {
        lemma_every_run_consistent(policy, roots, exclusions, events.drop_last());
        lemma_step_preserves_consistency(
            RunView::initial(policy, roots, exclusions).after(events.drop_last()),
            events.last(),
        );
    }
}

/// Whether `event` reports that `metadata` was found persisted.
pub open spec fn reports_record(event: EventView, metadata: MetadataView) -> bool {
    match event {
        EventView::MetadataRead(StoredView::Parsed(loaded), _) => loaded == metadata,
        _ => false,
    }
}

/// A run to which no finalized archive was reported never asks for its
/// metadata to be persisted, and holds the metadata as loaded.
pub proof fn lemma_no_persist_without_finalization(
    policy: BackupType,
    roots: Seq<Seq<char>>,
    exclusions: Seq<RuleView>,
    events: Seq<EventView>,
)
    requires
        forall|i: int| 0 <= i < events.len() ==> events[i] != EventView::ArchiveFinalized,
    ensures
        ({
            let end = RunView::initial(policy, roots, exclusions).after(events);
            &&& end.pending() != RunAction::PersistMetadata
            &&& end.pending() != RunAction::Done
            &&& end.metadata.last_backup_time is Some ==> exists|i: int|
                0 <= i < events.len() && reports_record(#[trigger] events[i], end.metadata)
        }),
    decreases events.len(),
{
    if events.len() > 0 {
        let shorter = events.drop_last();
        lemma_no_persist_without_finalization(policy, roots, exclusions, shorter);
        let before = RunView::initial(policy, roots, exclusions).after(shorter);
        let end = before.next(events.last());
        if end.metadata.last_backup_time is Some {
            if end.metadata == before.metadata {
                let i = choose|i: int|
                    0 <= i < shorter.len() && reports_record(
                        #[trigger] shorter[i],
                        before.metadata,
                    );
                assert(reports_record(events[i], end.metadata));
            } else {
                assert(reports_record(events[events.len() - 1], end.metadata));
            }
        }
    }
}

/// Once a run holds metadata with the time of the first run set, nothing
/// that is reported to it changes that time.
pub proof fn lemma_run_keeps_original_time(run: RunView, events: Seq<EventView>)
    requires
        run.phase != RunPhase::Init,
        run.metadata.original_backup_time is Some,
    ensures
        run.after(events).phase != RunPhase::Init,
        run.after(events).metadata.original_backup_time == run.metadata.original_backup_time,
    decreases events.len(),
{
    if events.len() > 0 {
        lemma_run_keeps_original_time(run, events.drop_last());
    }
}

/// A first run, which loads metadata without an original time, holds its
/// own timestamp as both times once it is finalized.
pub proof fn lemma_first_run_sets_both_times(run: RunView)
    requires
        run.pending() == RunAction::Finalize,
        run.metadata.original_backup_time is None,
    ensures
        run.next(EventView::ArchiveFinalized).metadata.last_backup_time == Some(
            run.run_timestamp,
        ),
        run.next(EventView::ArchiveFinalized).metadata.original_backup_time == Some(
            run.run_timestamp,
        ),
        run.next(EventView::ArchiveFinalized).metadata.backup_history
            == run.metadata.backup_history,
{
}

} // verus!
