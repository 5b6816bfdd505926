use linux_backup::archiver::{
    archive, backup_directory, backup_with_exclusions, decide, differential_backup,
    differential_backup_with_exclusions, incremental_backup, incremental_backup_with_exclusions,
    record_for, summarize, ArchivePlan, EntryOutcome,
};
use linux_backup::error::BackupError;
use linux_backup::filter::{ExclusionRule, PathFilter};
use linux_backup::metadata::{BackupMetadata, BackupType, StoredMetadata};
use linux_backup::run::{BackupRun, RunAction, RunEvent, RunPhase};
use linux_backup::selection::{EntryKind, FilesystemEntry};
use std::collections::HashMap;

fn file(path: &str, modified: Option<u64>) -> FilesystemEntry {
    FilesystemEntry {
        path: path.to_string(),
        kind: EntryKind::File,
        depth: 1,
        modified,
        created: None,
    }
}

fn dir(path: &str, depth: usize, created: Option<u64>) -> FilesystemEntry {
    FilesystemEntry {
        path: path.to_string(),
        kind: EntryKind::Directory,
        depth,
        modified: None,
        created,
    }
}

fn metadata(last: Option<u64>, original: Option<u64>) -> BackupMetadata {
    BackupMetadata {
        last_backup_time: last,
        original_backup_time: original,
        backup_history: HashMap::new(),
    }
}

fn literal_filter(prefixes: &[&str]) -> PathFilter {
    let rules: Vec<ExclusionRule> =
        prefixes.iter().map(|p| ExclusionRule::Literal(p.to_string())).collect();
    PathFilter::build(&rules, &Vec::new())
}

fn sources(plan: &ArchivePlan) -> Vec<String> {
    plan.records.iter().map(|r| r.source.clone()).collect()
}

fn names(plan: &ArchivePlan) -> Vec<String> {
    plan.records.iter().map(|r| r.name.clone()).collect()
}

#[test]
fn incremental_run_archives_only_the_file_modified_after_the_last_run() {
    let record = metadata(Some(1000), None);
    let listing = vec![file("/data/a", Some(999)), file("/data/b", Some(1001))];
    let plan = incremental_backup(&listing, &record, 5000);
    assert_eq!(sources(&plan), vec!["/data/b".to_string()]);
    assert_eq!(names(&plan), vec!["data/b".to_string()]);
    assert_eq!(plan.outcomes, vec![EntryOutcome::ExcludedByPolicy, EntryOutcome::Included]);
}

#[test]
fn first_incremental_run_archives_everything_and_sets_both_times() {
    let listing = vec![
        file("/data/a", Some(10)),
        file("/data/b", Some(1_700_000_000)),
        file("/data/c", Some(1)),
    ];
    let mut run = BackupRun::new(BackupType::Incremental, vec!["/data".to_string()], Vec::new());
    assert_eq!(run.pending_action(), RunAction::OpenOutput);
    assert_eq!(run.step(RunEvent::OutputOpened), RunAction::LoadMetadata);
    let next = run.step(RunEvent::MetadataRead(StoredMetadata::Parsed(metadata(None, None)), 4242));
    assert_eq!(next, RunAction::ExpandExclusions);
    assert_eq!(run.phase(), RunPhase::MetadataLoaded);
    assert_eq!(run.step(RunEvent::ExclusionsExpanded(Vec::new())), RunAction::ArchiveRoot(0));
    let plan = run.plan_root(&listing).expect("a root is pending");
    assert_eq!(
        sources(&plan),
        vec!["/data/a".to_string(), "/data/b".to_string(), "/data/c".to_string()]
    );
    assert_eq!(run.metadata().original_backup_time, None);
    assert_eq!(run.step(RunEvent::RootArchived), RunAction::Finalize);
    assert_eq!(run.phase(), RunPhase::Archiving);
    assert_eq!(run.step(RunEvent::ArchiveFinalized), RunAction::PersistMetadata);
    assert_eq!(run.phase(), RunPhase::Finalized);
    assert_eq!(run.metadata().last_backup_time, Some(4242));
    assert_eq!(run.metadata().original_backup_time, Some(4242));
    assert_eq!(run.step(RunEvent::MetadataSaved), RunAction::Done);
    assert_eq!(run.phase(), RunPhase::MetadataPersisted);
    assert_eq!(run.run_timestamp(), 4242);
}

#[test]
fn excluded_prefix_keeps_its_files_out_of_the_archive() {
    let filter = literal_filter(&["/var/log"]);
    let listing = vec![file("/var/log/syslog", Some(5)), file("/var/lib/data", Some(5))];
    let plan = backup_with_exclusions(&listing, &filter);
    assert_eq!(sources(&plan), vec!["/var/lib/data".to_string()]);
    assert_eq!(names(&plan), vec!["var/lib/data".to_string()]);
    assert_eq!(plan.outcomes, vec![EntryOutcome::ExcludedByFilter, EntryOutcome::Included]);
}

#[test]
fn no_record_lies_under_an_excluded_directory() {
    let filter = literal_filter(&["/srv/cache", "/srv/tmp"]);
    let listing = vec![
        dir("/srv", 0, Some(1)),
        dir("/srv/cache", 1, Some(1)),
        file("/srv/cache/a", Some(1)),
        dir("/srv/cache/deep", 2, Some(1)),
        file("/srv/cache/deep/b", Some(1)),
        file("/srv/keep", Some(1)),
        file("/srv/tmp", Some(1)),
    ];
    for policy in [BackupType::Full, BackupType::Incremental, BackupType::Differential] {
        let plan = archive(&listing, &filter, policy, &metadata(None, None), 9);
        for record in &plan.records {
            assert!(!filter.excludes(&record.source));
            assert!(!record.source.starts_with("/srv/cache"));
            assert!(!record.name.starts_with('/'));
        }
    }
}

#[test]
fn full_run_records_every_surviving_entry_once_and_in_order() {
    let filter = literal_filter(&["/r/skip"]);
    let listing = vec![
        dir("/r", 0, None),
        file("/r/a", None),
        dir("/r/skip", 1, None),
        file("/r/skip/x", Some(3)),
        dir("/r/sub", 1, None),
        file("/r/sub/b", Some(7)),
    ];
    let plan = backup_with_exclusions(&listing, &filter);
    assert_eq!(
        sources(&plan),
        vec!["/r".to_string(), "/r/a".to_string(), "/r/sub".to_string(), "/r/sub/b".to_string()]
    );
    let kinds: Vec<EntryKind> = plan.records.iter().map(|r| r.kind).collect();
    assert_eq!(
        kinds,
        vec![EntryKind::Directory, EntryKind::File, EntryKind::Directory, EntryKind::File]
    );
    assert_eq!(plan.outcomes.len(), listing.len());
}

#[test]
fn full_run_without_rules_records_everything() {
    let listing =
        vec![dir("/r", 0, None), file("/r/a", None), dir("/r/d", 1, None), file("/r/d/b", None)];
    let plan = backup_directory(&listing);
    assert_eq!(plan.records.len(), 4);
    assert_eq!(plan.outcomes, vec![EntryOutcome::Included; 4]);
    assert_eq!(names(&plan), vec!["r", "r/a", "r/d", "r/d/b"]);
}

#[test]
fn incremental_selection_is_within_full_selection() {
    let filter = literal_filter(&["/r/skip"]);
    let listing = vec![
        dir("/r", 0, Some(500)),
        file("/r/old", Some(100)),
        file("/r/new", Some(300)),
        dir("/r/fresh", 1, Some(400)),
        dir("/r/stale", 1, Some(50)),
        file("/r/skip/new", Some(900)),
    ];
    for reference in [0u64, 100, 200, 299, 300, 301, 1000] {
        let record = metadata(Some(reference), None);
        let full = sources(&backup_with_exclusions(&listing, &filter));
        let plan = incremental_backup_with_exclusions(&listing, &filter, &record, 2000);
        for source in sources(&plan) {
            assert!(full.contains(&source));
        }
        assert_eq!(sources(&plan).contains(&"/r/old".to_string()), 100 > reference);
        assert_eq!(sources(&plan).contains(&"/r/new".to_string()), 300 > reference);
        assert_eq!(sources(&plan).contains(&"/r/fresh".to_string()), 400 > reference);
        assert_eq!(sources(&plan).contains(&"/r/stale".to_string()), 50 > reference);
        assert!(!sources(&plan).contains(&"/r".to_string()));
        assert!(!sources(&plan).contains(&"/r/skip/new".to_string()));
    }
}

#[test]
fn timestamp_equal_to_the_reference_is_left_out() {
    let record = metadata(Some(1000), Some(1000));
    let listing = vec![file("/d/f", Some(1000)), dir("/d/sub", 1, Some(1000))];
    assert!(incremental_backup(&listing, &record, 1).records.is_empty());
    assert!(differential_backup(&listing, &record, 1).records.is_empty());
    let later = vec![file("/d/f", Some(1001)), dir("/d/sub", 1, Some(1001))];
    assert_eq!(incremental_backup(&later, &record, 1).records.len(), 2);
    assert_eq!(differential_backup(&later, &record, 1).records.len(), 2);
}

#[test]
fn unreadable_timestamp_leaves_the_entry_out_without_ending_the_plan() {
    let record = metadata(Some(10), Some(10));
    let listing = vec![file("/d/unknown", None), dir("/d/sub", 1, None), file("/d/new", Some(11))];
    let plan = incremental_backup(&listing, &record, 1);
    assert_eq!(sources(&plan), vec!["/d/new".to_string()]);
    assert_eq!(
        plan.outcomes,
        vec![
            EntryOutcome::Failed(BackupError::Unreadable),
            EntryOutcome::Failed(BackupError::Unreadable),
            EntryOutcome::Included,
        ]
    );
    let full = backup_directory(&listing);
    assert_eq!(full.records.len(), 3);
}

#[test]
fn directory_is_judged_by_creation_time_and_file_by_modification_time() {
    let record = metadata(Some(100), None);
    let mut entry = dir("/d/sub", 1, Some(50));
    entry.modified = Some(500);
    assert!(!BackupType::Incremental.includes(&entry, &record, 0));
    let mut entry = file("/d/f", Some(50));
    entry.created = Some(500);
    assert!(!BackupType::Incremental.includes(&entry, &record, 0));
    assert!(BackupType::Incremental.includes(&file("/d/f", Some(101)), &record, 0));
    assert!(BackupType::Incremental.includes(&dir("/d/sub", 3, Some(101)), &record, 0));
}

#[test]
fn empty_directory_record_does_not_depend_on_the_files_below() {
    let record = metadata(Some(100), None);
    let listing =
        vec![dir("/d", 0, Some(1)), dir("/d/old", 1, Some(50)), file("/d/old/new", Some(200))];
    let plan = incremental_backup(&listing, &record, 0);
    assert_eq!(sources(&plan), vec!["/d/old/new".to_string()]);
    let listing =
        vec![dir("/d", 0, Some(1)), dir("/d/new", 1, Some(200)), file("/d/new/old", Some(50))];
    let plan = incremental_backup(&listing, &record, 0);
    assert_eq!(sources(&plan), vec!["/d/new".to_string()]);
    assert_eq!(plan.records[0].kind, EntryKind::Directory);
}

#[test]
fn root_of_the_walk_is_recorded_by_a_full_run_only() {
    let record = metadata(None, None);
    let root = dir("/d", 0, Some(5));
    assert!(BackupType::Full.includes(&root, &record, 0));
    assert!(!BackupType::Incremental.includes(&root, &record, 0));
    assert!(!BackupType::Differential.includes(&root, &record, 0));
    let filter = PathFilter::new();
    assert_eq!(
        decide(&root, &filter, BackupType::Incremental, &record, 0),
        EntryOutcome::ExcludedByPolicy
    );
}

#[test]
fn differential_run_compares_against_the_original_time() {
    let record = metadata(Some(1000), Some(100));
    let listing = vec![file("/d/a", Some(50)), file("/d/b", Some(500)), file("/d/c", Some(5000))];
    assert_eq!(
        sources(&differential_backup(&listing, &record, 0)),
        vec!["/d/b".to_string(), "/d/c".to_string()]
    );
    assert_eq!(sources(&incremental_backup(&listing, &record, 0)), vec!["/d/c".to_string()]);
    assert_eq!(record.reference_time(BackupType::Differential), 100);
    assert_eq!(record.reference_time(BackupType::Incremental), 1000);
    assert_eq!(record.reference_time(BackupType::Full), 0);
    assert_eq!(metadata(None, None).reference_time(BackupType::Differential), 0);
    assert_eq!(metadata(None, None).reference_time(BackupType::Incremental), 0);
}

#[test]
fn differential_run_repeated_selects_the_same() {
    let filter = literal_filter(&["/d/skip"]);
    let listing = vec![
        file("/d/a", Some(50)),
        file("/d/b", Some(500)),
        dir("/d/n", 1, Some(700)),
        file("/d/skip/c", Some(900)),
    ];
    let mut record = metadata(Some(150), Some(100));
    let first = differential_backup_with_exclusions(&listing, &filter, &record, 2000);
    record.record_run(2000);
    assert_eq!(record.original_backup_time, Some(100));
    let second = differential_backup_with_exclusions(&listing, &filter, &record, 3000);
    assert_eq!(sources(&first), sources(&second));
    assert_eq!(first.outcomes, second.outcomes);
    assert_eq!(sources(&first), vec!["/d/b".to_string(), "/d/n".to_string()]);
}

#[test]
fn original_time_is_set_once_and_kept_by_later_runs() {
    let mut record = BackupMetadata::default();
    assert!(record.is_first_run());
    record.record_run(10);
    assert_eq!(record.original_backup_time, Some(10));
    assert_eq!(record.last_backup_time, Some(10));
    assert!(!record.is_first_run());
    for timestamp in [20u64, 5, 30, u64::MAX, 0] {
        record.record_run(timestamp);
        assert_eq!(record.original_backup_time, Some(10));
        assert_eq!(record.last_backup_time, Some(timestamp));
    }
}

#[test]
fn record_run_keeps_the_history() {
    let mut record = metadata(None, None);
    record.backup_history.insert("/home/u/Documents".to_string(), 77);
    record.record_run(99);
    assert_eq!(record.backup_history.len(), 1);
    assert_eq!(record.backup_history.get("/home/u/Documents"), Some(&77));
    let copy = record.clone();
    assert_eq!(copy.last_backup_time, Some(99));
    assert_eq!(copy.backup_history.get("/home/u/Documents"), Some(&77));
}

#[test]
fn record_carries_the_relative_name_the_source_and_the_kind() {
    let record = record_for(&dir("/home/u/Pictures", 2, None));
    assert_eq!(record.name, "home/u/Pictures");
    assert_eq!(record.source, "/home/u/Pictures");
    assert_eq!(record.kind, EntryKind::Directory);
    let record = record_for(&file("relative/file", None));
    assert_eq!(record.name, "relative/file");
    assert_eq!(record.kind, EntryKind::File);
}

#[test]
fn summary_counts_every_outcome_once() {
    let filter = literal_filter(&["/d/skip"]);
    let record = metadata(Some(100), None);
    let listing = vec![
        dir("/d", 0, Some(500)),
        file("/d/new", Some(101)),
        file("/d/old", Some(100)),
        file("/d/unknown", None),
        file("/d/skip/x", Some(500)),
        dir("/d/skip", 1, Some(500)),
        dir("/d/fresh", 1, Some(200)),
    ];
    let plan = incremental_backup_with_exclusions(&listing, &filter, &record, 0);
    let tally = summarize(&plan.outcomes);
    assert_eq!(tally.included, 2);
    assert_eq!(tally.excluded_by_filter, 2);
    assert_eq!(tally.excluded_by_policy, 2);
    assert_eq!(tally.failed, 1);
    assert_eq!(tally.included, plan.records.len());
    let empty = summarize(&Vec::new());
    assert_eq!(
        (empty.included, empty.excluded_by_filter, empty.excluded_by_policy, empty.failed),
        (0, 0, 0, 0)
    );
}

#[test]
fn decide_asks_the_filter_before_the_policy() {
    let filter = literal_filter(&["/d/skip"]);
    let record = metadata(Some(100), None);
    let stale_and_excluded = file("/d/skip/old", Some(1));
    assert_eq!(
        decide(&stale_and_excluded, &filter, BackupType::Incremental, &record, 0),
        EntryOutcome::ExcludedByFilter
    );
    assert_eq!(
        decide(&file("/d/old", Some(1)), &filter, BackupType::Incremental, &record, 0),
        EntryOutcome::ExcludedByPolicy
    );
    assert_eq!(
        decide(&file("/d/old", Some(1)), &filter, BackupType::Full, &record, 0),
        EntryOutcome::Included
    );
}
