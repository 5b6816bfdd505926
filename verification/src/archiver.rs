//! From the entries of a walk to the records of an archive: what becomes
//! of each entry, and the records that a whole walk yields, in order.

use crate::error::BackupError;
use crate::filter::{excluded, lemma_exclusion_covers_subtree, MatcherView, PathFilter};
use crate::metadata::{BackupMetadata, BackupType, MetadataView};
use crate::paths::{absolute, archive_name, covers, lemma_strip_root_relative, strip_root};
use crate::selection::{EntryKind, EntryView, FilesystemEntry};
use vstd::prelude::*;

verus! {

/// One record to be written to the archive: the full content of a file,
/// or an empty structural record for a directory.
pub struct ArchiveRecord {
    /// The path inside the archive, which is relative.
    pub name: String,
    /// The path of the entry on disk.
    pub source: String,
    pub kind: EntryKind,
}

/// The mathematical content of an [`ArchiveRecord`].
pub struct RecordView {
    pub name: Seq<char>,
    pub source: Seq<char>,
    pub kind: EntryKind,
}

impl View for ArchiveRecord {
    type V = RecordView;

    open spec fn view(&self) -> RecordView {
        RecordView { name: self.name@, source: self.source@, kind: self.kind }
    }
}

/// What became of an entry.
#[derive(Clone, Copy, Debug, PartialEq, Eq, Structural)]
pub enum EntryOutcome {
    /// A record is written for it.
    Included,
    /// An exclusion rule removed it.
    ExcludedByFilter,
    /// The selection strategy did not admit it.
    ExcludedByPolicy,
    /// It could not be judged or read. No record is written for it.
    Failed(BackupError),
}

/// The record written for `entry`.
pub open spec fn record_of(entry: EntryView) -> RecordView {
    RecordView { name: strip_root(entry.path), source: entry.path, kind: entry.kind }
}

/// Whether a record is written for `entry`: no rule excludes it and the
/// strategy admits it.
pub open spec fn selected(
    filter: Seq<MatcherView>,
    policy: BackupType,
    metadata: MetadataView,
    entry: EntryView,
) -> bool {
    !excluded(filter, entry.path) && policy.selects(entry, metadata)
}

/// What becomes of `entry`. The filter is asked first. An entry that the
/// strategy would judge by a timestamp that cannot be read counts as
/// unreadable.
pub open spec fn outcome_of(
    filter: Seq<MatcherView>,
    policy: BackupType,
    metadata: MetadataView,
    entry: EntryView,
) -> EntryOutcome {
    if excluded(filter, entry.path) {
        EntryOutcome::ExcludedByFilter
    } else if policy.selects(entry, metadata) {
        EntryOutcome::Included
    } else if entry.dated() && entry.timestamp() is None {
        EntryOutcome::Failed(BackupError::Unreadable)
    } else {
        EntryOutcome::ExcludedByPolicy
    }
}

/// [`selected`] as a predicate on entries.
pub open spec fn selector(
    filter: Seq<MatcherView>,
    policy: BackupType,
    metadata: MetadataView,
) -> spec_fn(EntryView) -> bool {
    |entry: EntryView| selected(filter, policy, metadata, entry)
}

/// The entries that no rule of `filter` excludes, as a predicate.
pub open spec fn survivor(filter: Seq<MatcherView>) -> spec_fn(EntryView) -> bool {
    |entry: EntryView| !excluded(filter, entry.path)
}

/// The records of `entries`, one for each, in order.
pub open spec fn records_of(entries: Seq<EntryView>) -> Seq<RecordView> {
    entries.map_values(|entry: EntryView| record_of(entry))
}

/// The records that the walk `listing` yields: one for each selected
/// entry, in the order of the walk.
pub open spec fn planned_records(
    listing: Seq<EntryView>,
    filter: Seq<MatcherView>,
    policy: BackupType,
    metadata: MetadataView,
) -> Seq<RecordView> {
    records_of(listing.filter(selector(filter, policy, metadata)))
}

/// What becomes of each entry of `listing`, in order.
pub open spec fn planned_outcomes(
    listing: Seq<EntryView>,
    filter: Seq<MatcherView>,
    policy: BackupType,
    metadata: MetadataView,
) -> Seq<EntryOutcome> {
    listing.map_values(|entry: EntryView| outcome_of(filter, policy, metadata, entry))
}

/// The views of a list of entries.
pub open spec fn entry_views(listing: Seq<FilesystemEntry>) -> Seq<EntryView> {
    listing.map_values(|entry: FilesystemEntry| entry@)
}

/// The views of a list of records.
pub open spec fn record_views(records: Seq<ArchiveRecord>) -> Seq<RecordView> {
    records.map_values(|record: ArchiveRecord| record@)
}

/// What to write for one walk, and what became of each of its entries.
pub struct ArchivePlan {
    /// The records to write, in order.
    pub records: Vec<ArchiveRecord>,
    /// `outcomes[i]` is what became of entry `i` of the walk.
    pub outcomes: Vec<EntryOutcome>,
}

/// The mathematical content of an [`ArchivePlan`].
pub struct PlanView {
    pub records: Seq<RecordView>,
    pub outcomes: Seq<EntryOutcome>,
}

impl View for ArchivePlan {
    type V = PlanView;

    open spec fn view(&self) -> PlanView {
        PlanView { records: record_views(self.records@), outcomes: self.outcomes@ }
    }
}

/// The plan for the walk `listing`.
pub open spec fn planned(
    listing: Seq<EntryView>,
    filter: Seq<MatcherView>,
    policy: BackupType,
    metadata: MetadataView,
) -> PlanView {
    PlanView {
        records: planned_records(listing, filter, policy, metadata),
        outcomes: planned_outcomes(listing, filter, policy, metadata),
    }
}

/// Decides what becomes of one entry.
pub fn decide(
    entry: &FilesystemEntry,
    filter: &PathFilter,
    policy: BackupType,
    metadata: &BackupMetadata,
    run_timestamp: u64,
) -> (outcome: EntryOutcome)
    ensures
        outcome == outcome_of(filter@, policy, metadata@, entry@),
        outcome == EntryOutcome::Included <==> selected(filter@, policy, metadata@, entry@),
{
    if filter.excludes(entry.path.as_str()) {
        EntryOutcome::ExcludedByFilter
    } else if policy.includes(entry, metadata, run_timestamp) {
        EntryOutcome::Included
    } else {
        let unread = match entry.kind {
            EntryKind::File => entry.modified.is_none(),
            EntryKind::Directory => entry.depth > 0 && entry.created.is_none(),
        };
        if unread {
            EntryOutcome::Failed(BackupError::Unreadable)
        } else {
            EntryOutcome::ExcludedByPolicy
        }
    }
}

/// The record for `entry`.
pub fn record_for(entry: &FilesystemEntry) -> (record: ArchiveRecord)
    ensures
        record@ == record_of(entry@),
{
    ArchiveRecord {
        name: archive_name(entry.path.as_str()),
        source: entry.path.clone(),
        kind: entry.kind,
    }
}

/// Plans the archiving of one root from the entries of its walk, given in
/// the order of the walk: asks the filter, then the strategy, about each
/// entry, and lists a record for each entry that passes both.
pub fn archive(
    listing: &Vec<FilesystemEntry>,
    filter: &PathFilter,
    policy: BackupType,
    metadata: &BackupMetadata,
    run_timestamp: u64,
) -> (plan: ArchivePlan)
    ensures
        plan@ == planned(entry_views(listing@), filter@, policy, metadata@),
{
    let mut records: Vec<ArchiveRecord> = Vec::new();
    let mut outcomes: Vec<EntryOutcome> = Vec::new();
    let ghost entries = entry_views(listing@);
    let ghost pick = selector(filter@, policy, metadata@);
    let mut i: usize = 0;
    proof {
        reveal(Seq::filter);
    }
    while i < listing.len()
        invariant
            i <= listing.len(),
            entries == entry_views(listing@),
            pick == selector(filter@, policy, metadata@),
            record_views(records@) == records_of(entries.take(i as int).filter(pick)),
            outcomes@ == planned_outcomes(entries.take(i as int), filter@, policy, metadata@),
        decreases listing.len() - i,
    {
        let entry = &listing[i];
        let outcome = decide(entry, filter, policy, metadata, run_timestamp);
        proof {
            let before = entries.take(i as int);
            assert(entries.take(i + 1) =~= before.push(entry@));
            before.lemma_filter_push(entry@, pick);
            assert(planned_outcomes(entries.take(i + 1), filter@, policy, metadata@)
                =~= outcomes@.push(outcome));
            if pick(entry@) {
                assert(records_of(before.filter(pick).push(entry@)) =~= records_of(
                    before.filter(pick),
                ).push(record_of(entry@)));
            }
        }
        if outcome == EntryOutcome::Included {
            records.push(record_for(entry));
        }
        outcomes.push(outcome);
        i += 1;
    }
    assert(entries.take(listing@.len() as int) =~= entries);
    ArchivePlan { records, outcomes }
}

/// Plans a full backup of one root, without exclusions: a record for
/// every entry of the walk.
pub fn backup_directory(listing: &Vec<FilesystemEntry>) -> (plan: ArchivePlan)
    ensures
        plan@ == planned(
            entry_views(listing@),
            Seq::empty(),
            BackupType::Full,
            MetadataView::empty(),
        ),
        plan@.records == records_of(entry_views(listing@)),
{
    let filter = PathFilter::new();
    let metadata = BackupMetadata::default();
    proof {
        lemma_full_keeps_every_survivor(
            entry_views(listing@),
            Seq::empty(),
            MetadataView::empty(),
        );
        lemma_nothing_excluded_keeps_all(entry_views(listing@));
    }
    archive(listing, &filter, BackupType::Full, &metadata, 0)
}

/// Plans an incremental backup of one root, without exclusions: a record
/// for every entry changed since the most recent run.
pub fn incremental_backup(
    listing: &Vec<FilesystemEntry>,
    metadata: &BackupMetadata,
    current_time: u64,
) -> (plan: ArchivePlan)
    ensures
        plan@ == planned(
            entry_views(listing@),
            Seq::empty(),
            BackupType::Incremental,
            metadata@,
        ),
{
    let filter = PathFilter::new();
    archive(listing, &filter, BackupType::Incremental, metadata, current_time)
}

/// Plans a differential backup of one root, without exclusions: a record
/// for every entry changed since the very first run.
pub fn differential_backup(
    listing: &Vec<FilesystemEntry>,
    metadata: &BackupMetadata,
    current_time: u64,
) -> (plan: ArchivePlan)
    ensures
        plan@ == planned(
            entry_views(listing@),
            Seq::empty(),
            BackupType::Differential,
            metadata@,
        ),
{
    let filter = PathFilter::new();
    archive(listing, &filter, BackupType::Differential, metadata, current_time)
}

/// Plans a full backup of one root under exclusion rules: a record for
/// every entry that no rule excludes.
pub fn backup_with_exclusions(listing: &Vec<FilesystemEntry>, exclusions: &PathFilter) -> (plan:
    ArchivePlan)
    ensures
        plan@ == planned(
            entry_views(listing@),
            exclusions@,
            BackupType::Full,
            MetadataView::empty(),
        ),
        plan@.records == records_of(entry_views(listing@).filter(survivor(exclusions@))),
{
    let metadata = BackupMetadata::default();
    proof {
        lemma_full_keeps_every_survivor(
            entry_views(listing@),
            exclusions@,
            MetadataView::empty(),
        );
    }
    archive(listing, exclusions, BackupType::Full, &metadata, 0)
}

/// Plans an incremental backup of one root under exclusion rules.
pub fn incremental_backup_with_exclusions(
    listing: &Vec<FilesystemEntry>,
    exclusions: &PathFilter,
    metadata: &BackupMetadata,
    current_time: u64,
) -> (plan: ArchivePlan)
    ensures
        plan@ == planned(entry_views(listing@), exclusions@, BackupType::Incremental, metadata@),
{
    archive(listing, exclusions, BackupType::Incremental, metadata, current_time)
}

/// Plans a differential backup of one root under exclusion rules.
pub fn differential_backup_with_exclusions(
    listing: &Vec<FilesystemEntry>,
    exclusions: &PathFilter,
    metadata: &BackupMetadata,
    current_time: u64,
) -> (plan: ArchivePlan)
    ensures
        plan@ == planned(entry_views(listing@), exclusions@, BackupType::Differential, metadata@),
{
    archive(listing, exclusions, BackupType::Differential, metadata, current_time)
}

/// Every record stems from an entry of the walk that was selected, and
/// the records keep the order of the walk: record `i` stems from the
/// `i`-th selected entry.
pub proof fn lemma_record_origin(
    listing: Seq<EntryView>,
    filter: Seq<MatcherView>,
    policy: BackupType,
    metadata: MetadataView,
    i: int,
)
    requires
        0 <= i < planned_records(listing, filter, policy, metadata).len(),
    ensures
        ({
            let kept = listing.filter(selector(filter, policy, metadata));
            &&& i < kept.len()
            &&& planned_records(listing, filter, policy, metadata)[i] == record_of(kept[i])
            &&& selected(filter, policy, metadata, kept[i])
            &&& listing.contains(kept[i])
        }),
{
    let pick = selector(filter, policy, metadata);
    let kept = listing.filter(pick);
    listing.lemma_filter_pred(pick, i);
    listing.lemma_filter_contains_rev(pick, kept[i]);
}

/// No record has a path that a rule excludes, and none lies below a
/// directory that a rule excludes. Every record's name is relative.
pub proof fn lemma_records_avoid_exclusions(
    listing: Seq<EntryView>,
    filter: Seq<MatcherView>,
    policy: BackupType,
    metadata: MetadataView,
)
    ensures
        forall|i: int|
            0 <= i < planned_records(listing, filter, policy, metadata).len() ==> !excluded(
                filter,
                (#[trigger] planned_records(listing, filter, policy, metadata)[i]).source,
            ),
        forall|i: int, dir: Seq<char>|
            #![trigger planned_records(listing, filter, policy, metadata)[i], excluded(filter, dir)]
            0 <= i < planned_records(listing, filter, policy, metadata).len() && excluded(
                filter,
                dir,
            ) ==> !covers(dir, planned_records(listing, filter, policy, metadata)[i].source),
        forall|i: int|
            0 <= i < planned_records(listing, filter, policy, metadata).len() ==> !absolute(
                (#[trigger] planned_records(listing, filter, policy, metadata)[i]).name,
            ),
{
    let records = planned_records(listing, filter, policy, metadata);
    assert forall|i: int| 0 <= i < records.len() implies !excluded(
        filter,
        (#[trigger] records[i]).source,
    ) && !absolute(records[i].name) by {
        lemma_record_origin(listing, filter, policy, metadata, i);
        lemma_strip_root_relative(records[i].source);
    }
    assert forall|i: int, dir: Seq<char>|
        #![trigger records[i], excluded(filter, dir)]
        0 <= i < records.len() && excluded(filter, dir) implies !covers(dir, records[i].source) by {
        if covers(dir, records[i].source) {
            lemma_exclusion_covers_subtree(filter, dir, records[i].source);
        }
    }
}

/// A full run writes a record for every entry that no rule excludes, once
/// each and in the order of the walk, and for no other entry.
pub proof fn lemma_full_keeps_every_survivor(
    listing: Seq<EntryView>,
    filter: Seq<MatcherView>,
    metadata: MetadataView,
)
    ensures
        planned_records(listing, filter, BackupType::Full, metadata) == records_of(
            listing.filter(survivor(filter)),
        ),
        planned_records(listing, filter, BackupType::Full, metadata).len() == listing.filter(
            survivor(filter),
        ).len(),
        forall|i: int|
            0 <= i < listing.len() && !excluded(filter, (#[trigger] listing[i]).path)
                ==> planned_records(listing, filter, BackupType::Full, metadata).contains(
                record_of(listing[i]),
            ),
{
    let pick = selector(filter, BackupType::Full, metadata);
    let keep = survivor(filter);
    assert(pick =~= keep);
    let kept = listing.filter(keep);
    let records = records_of(kept);
    assert forall|i: int|
        0 <= i < listing.len() && !excluded(
            filter,
            (#[trigger] listing[i]).path,
        ) implies records.contains(record_of(listing[i])) by {
        listing.lemma_filter_contains(keep, i);
        let j = choose|j: int| 0 <= j < kept.len() && kept[j] == listing[i];
        assert(records[j] == record_of(listing[i]));
    }
}

/// Without rules, a full run writes a record for every entry.
pub proof fn lemma_nothing_excluded_keeps_all(listing: Seq<EntryView>)
    ensures
        listing.filter(survivor(Seq::empty())) == listing,
    decreases listing.len(),
{
    reveal(Seq::filter);
    if listing.len() > 0 {
        lemma_nothing_excluded_keeps_all(listing.drop_last());
    }
}

/// Whatever a run of any strategy writes, a full run over the same walk
/// and rules writes too.
pub proof fn lemma_selection_within_full(
    listing: Seq<EntryView>,
    filter: Seq<MatcherView>,
    policy: BackupType,
    metadata: MetadataView,
    record: RecordView,
)
    requires
        planned_records(listing, filter, policy, metadata).contains(record),
    ensures
        planned_records(listing, filter, BackupType::Full, metadata).contains(record),
{
    let records = planned_records(listing, filter, policy, metadata);
    let i = choose|i: int| 0 <= i < records.len() && records[i] == record;
    lemma_record_origin(listing, filter, policy, metadata, i);
    lemma_full_keeps_every_survivor(listing, filter, metadata);
}

/// An incremental or differential run writes a record for an entry of the
/// walk exactly when no rule excludes the entry and it is newer than the
/// reference time of the strategy.
pub proof fn lemma_selection_by_reference(
    listing: Seq<EntryView>,
    filter: Seq<MatcherView>,
    policy: BackupType,
    metadata: MetadataView,
    i: int,
)
    requires
        0 <= i < listing.len(),
        policy != BackupType::Full,
    ensures
        selected(filter, policy, metadata, listing[i]) <==> !excluded(filter, listing[i].path)
            && listing[i].newer_than(metadata.reference_time(policy)),
        selected(filter, policy, metadata, listing[i]) ==> planned_records(
            listing,
            filter,
            policy,
            metadata,
        ).contains(record_of(listing[i])),
{
    let pick = selector(filter, policy, metadata);
    let kept = listing.filter(pick);
    if selected(filter, policy, metadata, listing[i]) {
        listing.lemma_filter_contains(pick, i);
        let j = choose|j: int| 0 <= j < kept.len() && kept[j] == listing[i];
        assert(records_of(kept)[j] == record_of(listing[i]));
    }
}

/// A differential run repeated over the same walk and rules writes the
/// same records, whatever runs were recorded in between: two records of
/// earlier runs that agree on the time of the first run give the same plan
/// of records, and recording a run leaves that time in place once it is
/// set.
pub proof fn lemma_differential_repeatable(
    listing: Seq<EntryView>,
    filter: Seq<MatcherView>,
    first: MetadataView,
    second: MetadataView,
    run_timestamp: u64,
)
    ensures
        first.original_backup_time == second.original_backup_time ==> planned_records(
            listing,
            filter,
            BackupType::Differential,
            first,
        ) == planned_records(listing, filter, BackupType::Differential, second),
        first.original_backup_time is Some ==> planned_records(
            listing,
            filter,
            BackupType::Differential,
            first.after_run(run_timestamp),
        ) == planned_records(listing, filter, BackupType::Differential, first),
{
    if first.original_backup_time == second.original_backup_time {
        assert(selector(filter, BackupType::Differential, first) =~= selector(
            filter,
            BackupType::Differential,
            second,
        ));
    }
    if first.original_backup_time is Some {
        assert(selector(filter, BackupType::Differential, first.after_run(run_timestamp))
            =~= selector(filter, BackupType::Differential, first));
    }
}

/// The records of two walks taken one after the other are the records of
/// the first followed by those of the second.
pub proof fn lemma_records_concatenate(
    first: Seq<EntryView>,
    second: Seq<EntryView>,
    filter: Seq<MatcherView>,
    policy: BackupType,
    metadata: MetadataView,
)
    ensures
        planned_records(first + second, filter, policy, metadata) == planned_records(
            first,
            filter,
            policy,
            metadata,
        ) + planned_records(second, filter, policy, metadata),
{
    let pick = selector(filter, policy, metadata);
    Seq::filter_distributes_over_add(first, second, pick);
    assert(records_of(first.filter(pick) + second.filter(pick)) =~= records_of(first.filter(pick))
        + records_of(second.filter(pick)));
}

/// How many entries of a walk met each outcome.
#[derive(Clone, Copy, Debug, PartialEq, Eq, Structural)]
pub struct Tally {
    pub included: usize,
    pub excluded_by_filter: usize,
    pub excluded_by_policy: usize,
    pub failed: usize,
}

/// The outcomes that count as included.
pub open spec fn is_included() -> spec_fn(EntryOutcome) -> bool {
    |outcome: EntryOutcome| outcome == EntryOutcome::Included
}

/// The outcomes that count as excluded by a rule.
pub open spec fn is_excluded_by_filter() -> spec_fn(EntryOutcome) -> bool {
    |outcome: EntryOutcome| outcome == EntryOutcome::ExcludedByFilter
}

/// The outcomes that count as excluded by the strategy.
pub open spec fn is_excluded_by_policy() -> spec_fn(EntryOutcome) -> bool {
    |outcome: EntryOutcome| outcome == EntryOutcome::ExcludedByPolicy
}

/// The outcomes that count as failed, whatever the reason.
pub open spec fn is_failed() -> spec_fn(EntryOutcome) -> bool {
    |outcome: EntryOutcome| outcome is Failed
}

/// Counts the outcomes of a walk by kind. Every outcome is counted once.
pub fn summarize(outcomes: &Vec<EntryOutcome>) -> (tally: Tally)
    ensures
        tally.included == outcomes@.filter(is_included()).len(),
        tally.excluded_by_filter == outcomes@.filter(is_excluded_by_filter()).len(),
        tally.excluded_by_policy == outcomes@.filter(is_excluded_by_policy()).len(),
        tally.failed == outcomes@.filter(is_failed()).len(),
        tally.included + tally.excluded_by_filter + tally.excluded_by_policy + tally.failed
            == outcomes@.len(),
{
    let mut tally = Tally { included: 0, excluded_by_filter: 0, excluded_by_policy: 0, failed: 0 };
    let mut i: usize = 0;
    proof {
        reveal(Seq::filter);
    }
    while i < outcomes.len()
        invariant
            i <= outcomes.len(),
            tally.included == outcomes@.take(i as int).filter(is_included()).len(),
            tally.excluded_by_filter == outcomes@.take(i as int).filter(
                is_excluded_by_filter(),
            ).len(),
            tally.excluded_by_policy == outcomes@.take(i as int).filter(
                is_excluded_by_policy(),
            ).len(),
            tally.failed == outcomes@.take(i as int).filter(is_failed()).len(),
            tally.included + tally.excluded_by_filter + tally.excluded_by_policy + tally.failed
                == i,
        decreases outcomes.len() - i,
    {
        proof {
            let before = outcomes@.take(i as int);
            let outcome = outcomes@[i as int];
            assert(outcomes@.take(i + 1) =~= before.push(outcome));
            before.lemma_filter_push(outcome, is_included());
            before.lemma_filter_push(outcome, is_excluded_by_filter());
            before.lemma_filter_push(outcome, is_excluded_by_policy());
            before.lemma_filter_push(outcome, is_failed());
        }
        match outcomes[i] {
            EntryOutcome::Included => {
                tally.included += 1;
            },
            EntryOutcome::ExcludedByFilter => {
                tally.excluded_by_filter += 1;
            },
            EntryOutcome::ExcludedByPolicy => {
                tally.excluded_by_policy += 1;
            },
            EntryOutcome::Failed(_) => {
                tally.failed += 1;
            },
        }
        i += 1;
    }
    assert(outcomes@.take(outcomes@.len() as int) =~= outcomes@);
    tally
}

/// As many entries of a walk come out as included as the walk yields
/// records.
pub proof fn lemma_included_count_is_record_count(
    listing: Seq<EntryView>,
    filter: Seq<MatcherView>,
    policy: BackupType,
    metadata: MetadataView,
)
    ensures
        planned_outcomes(listing, filter, policy, metadata).filter(is_included()).len()
            == planned_records(listing, filter, policy, metadata).len(),
    decreases listing.len(),
{
    reveal(Seq::filter);
    let outcomes = planned_outcomes(listing, filter, policy, metadata);
    if listing.len() > 0 {
        let shorter = listing.drop_last();
        lemma_included_count_is_record_count(shorter, filter, policy, metadata);
        assert(outcomes.drop_last() =~= planned_outcomes(shorter, filter, policy, metadata));
    }
}

/// A walk that leaves out what the rules exclude, as a walk does that does
/// not descend into excluded directories, yields the same records as the
/// walk that visits everything.
pub proof fn lemma_pruning_keeps_the_records(
    listing: Seq<EntryView>,
    filter: Seq<MatcherView>,
    policy: BackupType,
    metadata: MetadataView,
)
    ensures
        listing.filter(survivor(filter)).filter(selector(filter, policy, metadata))
            == listing.filter(selector(filter, policy, metadata)),
        planned_records(listing.filter(survivor(filter)), filter, policy, metadata)
            == planned_records(listing, filter, policy, metadata),
    decreases listing.len(),
{
    reveal(Seq::filter);
    let keep = survivor(filter);
    let pick = selector(filter, policy, metadata);
    if listing.len() > 0 {
        let shorter = listing.drop_last();
        let last = listing.last();
        lemma_pruning_keeps_the_records(shorter, filter, policy, metadata);
        if keep(last) {
            shorter.filter(keep).lemma_filter_push(last, pick);
        }
    }
}

} // verus!
