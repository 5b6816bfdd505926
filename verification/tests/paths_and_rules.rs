use linux_backup::backup::{
    backup_selected_directories, backup_system, backup_type_for_choice,
    common_directory_paths, compression_level_for_choice, system_exclusion_rules,
    system_root_paths,
};
use linux_backup::error::BackupError;
use linux_backup::filter::{ExclusionRule, PathFilter};
use linux_backup::metadata::{
    load_backup_metadata, BackupMetadata, BackupType, MetadataStore, StoredMetadata,
    METADATA_DIR, METADATA_FILE,
};
use linux_backup::paths::{
    archive_name, contains_char, is_absolute, join, path_covers, starts_with, to_chars,
};
use linux_backup::run::{RunAction, RunPhase};
use std::collections::HashMap;

fn chars(s: &str) -> Vec<char> {
    s.chars().collect()
}

#[test]
fn archive_name_drops_the_leading_separators() {
    assert_eq!(archive_name("/home/u/file.txt"), "home/u/file.txt");
    assert_eq!(archive_name("home/u/file.txt"), "home/u/file.txt");
    assert_eq!(archive_name("//double/lead"), "double/lead");
    assert_eq!(archive_name("/"), "");
    assert_eq!(archive_name(""), "");
    assert_eq!(archive_name("/trailing/"), "trailing/");
    assert_eq!(archive_name("/päth/ü"), "päth/ü");
}

#[test]
fn join_resolves_a_name_against_a_base() {
    assert_eq!(join("/home/u", "backup.tar.gz"), "/home/u/backup.tar.gz");
    assert_eq!(join("/home/u/", "backup.tar.gz"), "/home/u/backup.tar.gz");
    assert_eq!(join("/home/u", "/tmp/out.tar.gz"), "/tmp/out.tar.gz");
    assert_eq!(join("", "out.tar.gz"), "out.tar.gz");
    assert_eq!(join("/", "out.tar.gz"), "/out.tar.gz");
    assert_eq!(join("/home/u", ""), "/home/u/");
    assert_eq!(join("rel", "sub/out"), "rel/sub/out");
}

#[test]
fn absolute_paths_start_at_the_root() {
    assert!(is_absolute("/"));
    assert!(is_absolute("/etc"));
    assert!(!is_absolute("etc"));
    assert!(!is_absolute(""));
    assert!(!is_absolute("./etc"));
}

#[test]
fn prefix_test_compares_character_by_character() {
    assert!(starts_with(&chars("/var/log/syslog"), &chars("/var/log")));
    assert!(starts_with(&chars("/var/log"), &chars("/var/log")));
    assert!(starts_with(&chars("/var/logs"), &chars("/var/log")));
    assert!(starts_with(&chars("anything"), &chars("")));
    assert!(!starts_with(&chars("/var/lo"), &chars("/var/log")));
    assert!(!starts_with(&chars("/var/lib"), &chars("/var/log")));
    assert!(!starts_with(&chars(""), &chars("a")));
    assert_eq!(to_chars("a/ü"), vec!['a', '/', 'ü']);
    assert!(to_chars("").is_empty());
}

#[test]
fn covering_stops_at_component_boundaries() {
    assert!(path_covers(&chars("/home/a/.cache"), &chars("/home/a/.cache")));
    assert!(path_covers(&chars("/home/a/.cache"), &chars("/home/a/.cache/x")));
    assert!(path_covers(&chars("/home/a/.cache"), &chars("/home/a/.cache/x/y")));
    assert!(path_covers(&chars("/home/a/.cache/"), &chars("/home/a/.cache/x")));
    assert!(path_covers(&chars("/"), &chars("/etc")));
    assert!(!path_covers(&chars("/home/a/.cache"), &chars("/home/a/.cache2")));
    assert!(!path_covers(&chars("/home/a/.cache"), &chars("/home/a/.cach")));
    assert!(!path_covers(&chars("/home/a/.cache"), &chars("/home/a")));
    assert!(!path_covers(&chars(""), &chars("/etc")));
    assert!(path_covers(&chars(""), &chars("")));
}

#[test]
fn wildcard_is_found_anywhere_in_a_rule() {
    assert!(contains_char("/home/*/.cache", '*'));
    assert!(contains_char("*", '*'));
    assert!(contains_char("/tmp/x*", '*'));
    assert!(!contains_char("/var/log", '*'));
    assert!(!contains_char("", '*'));
}

#[test]
fn rule_with_a_wildcard_is_a_glob_rule() {
    assert!(matches!(
        ExclusionRule::parse("/home/*/.cache"),
        ExclusionRule::Glob(p) if p == "/home/*/.cache"
    ));
    assert!(matches!(
        ExclusionRule::parse("/var/log"),
        ExclusionRule::Literal(p) if p == "/var/log"
    ));
    assert!(matches!(ExclusionRule::parse(""), ExclusionRule::Literal(p) if p.is_empty()));
    assert_eq!(ExclusionRule::parse("/a/*").glob_pattern(), Some("/a/*"));
    assert_eq!(ExclusionRule::parse("/a/b").glob_pattern(), None);
}

#[test]
fn literal_rule_excludes_what_it_is_a_prefix_of() {
    let rules = vec![ExclusionRule::parse("/var/log"), ExclusionRule::parse("/proc")];
    let filter = PathFilter::build(&rules, &Vec::new());
    assert!(filter.excludes("/var/log"));
    assert!(filter.excludes("/var/log/syslog"));
    assert!(filter.excludes("/var/logs"));
    assert!(filter.excludes("/proc/1/status"));
    assert!(!filter.excludes("/var/lib/data"));
    assert!(!filter.excludes("/var/lo"));
    assert!(!filter.excludes("/home/proc"));
    assert!(!filter.excludes(""));
}

#[test]
fn glob_rule_excludes_what_its_expansion_covers() {
    let rules = vec![ExclusionRule::parse("/tmp"), ExclusionRule::parse("/home/*/.cache")];
    let expansions = vec![
        Vec::new(),
        vec!["/home/ann/.cache".to_string(), "/home/bob/.cache".to_string()],
    ];
    let filter = PathFilter::build(&rules, &expansions);
    assert!(filter.excludes("/home/ann/.cache"));
    assert!(filter.excludes("/home/ann/.cache/thumbs/1.png"));
    assert!(filter.excludes("/home/bob/.cache/x"));
    assert!(filter.excludes("/tmp/x"));
    assert!(!filter.excludes("/home/ann/.cache2"));
    assert!(!filter.excludes("/home/ann/.cachefile"));
    assert!(!filter.excludes("/home/cy/.cache"));
    assert!(!filter.excludes("/home/ann"));
    assert!(!filter.excludes("/home/*/.cache"));
}

#[test]
fn glob_rule_without_an_expansion_excludes_nothing() {
    let rules = vec![ExclusionRule::parse("/home/*/.cache")];
    let filter = PathFilter::build(&rules, &Vec::new());
    assert!(!filter.excludes("/home/ann/.cache"));
    assert!(!filter.excludes("/home/*/.cache"));
    let filter = PathFilter::build(&rules, &vec![Vec::new()]);
    assert!(!filter.excludes("/home/ann/.cache"));
}

#[test]
fn expansion_of_a_literal_rule_is_not_consulted() {
    let rules = vec![ExclusionRule::parse("/var/log")];
    let filter = PathFilter::build(&rules, &vec![vec!["/etc".to_string()]]);
    assert!(!filter.excludes("/etc/passwd"));
    assert!(filter.excludes("/var/log/x"));
}

#[test]
fn filter_without_rules_excludes_nothing() {
    let filter = PathFilter::new();
    assert!(!filter.excludes("/"));
    assert!(!filter.excludes("/anything/at/all"));
    assert!(!filter.excludes(""));
}

#[test]
fn rules_add_up() {
    let mut filter = PathFilter::new();
    assert!(!filter.excludes("/a/x"));
    filter.add_rule(&ExclusionRule::Literal("/a".to_string()), &Vec::new());
    assert!(filter.excludes("/a/x"));
    assert!(!filter.excludes("/b/x"));
    filter.add_rule(&ExclusionRule::Glob("/b*".to_string()), &vec!["/b".to_string()]);
    assert!(filter.excludes("/a/x"));
    assert!(filter.excludes("/b/x"));
    assert!(!filter.excludes("/bb"));
}

#[test]
fn excluded_directory_excludes_what_lies_below() {
    let rules = vec![ExclusionRule::parse("/var/cache"), ExclusionRule::parse("/home/*/.cache")];
    let expansions = vec![Vec::new(), vec!["/home/ann/.cache".to_string()]];
    let filter = PathFilter::build(&rules, &expansions);
    for directory in ["/var/cache", "/var/cache/apt", "/home/ann/.cache", "/home/ann/.cache/a"] {
        assert!(filter.excludes(directory));
        for below in ["/x", "/x/y", "/.hidden"] {
            let path = format!("{}{}", directory, below);
            assert!(filter.excludes(&path));
        }
    }
}

#[test]
fn menu_choices_map_to_strategies_and_levels() {
    assert_eq!(backup_type_for_choice(0), BackupType::Full);
    assert_eq!(backup_type_for_choice(1), BackupType::Incremental);
    assert_eq!(backup_type_for_choice(2), BackupType::Differential);
    assert_eq!(backup_type_for_choice(3), BackupType::Full);
    assert_eq!(backup_type_for_choice(usize::MAX), BackupType::Full);
    assert_eq!(compression_level_for_choice(0), 1);
    assert_eq!(compression_level_for_choice(1), 6);
    assert_eq!(compression_level_for_choice(2), 9);
    assert_eq!(compression_level_for_choice(3), 6);
    assert_eq!(compression_level_for_choice(usize::MAX), 6);
}

#[test]
fn system_backup_has_its_fixed_roots_and_rules() {
    assert_eq!(system_root_paths(false), vec!["/home", "/etc", "/usr/local"]);
    assert_eq!(system_root_paths(true), vec!["/home", "/etc", "/usr/local", "/var", "/opt"]);
    let texts = [
        "/proc", "/sys", "/tmp", "/run", "/mnt", "/media", "/lost+found", "/dev", "/var/log",
        "/var/cache", "/var/tmp", "/root", "/home/*/.cache",
    ];
    let rules = system_exclusion_rules();
    assert_eq!(rules.len(), texts.len());
    for (rule, text) in rules.iter().zip(texts.iter()) {
        match (rule, ExclusionRule::parse(text)) {
            (ExclusionRule::Literal(a), ExclusionRule::Literal(b)) => assert_eq!(a, &b),
            (ExclusionRule::Glob(a), ExclusionRule::Glob(b)) => assert_eq!(a, &b),
            _ => panic!("rule {} is of the wrong kind", text),
        }
    }
    assert_eq!(rules.iter().filter(|r| r.glob_pattern().is_some()).count(), 1);
}

#[test]
fn system_run_starts_with_its_configuration() {
    let run = backup_system(true, BackupType::Differential);
    assert_eq!(run.policy(), BackupType::Differential);
    assert_eq!(run.roots().len(), 5);
    assert_eq!(run.exclusions().len(), 13);
    assert_eq!(run.phase(), RunPhase::Init);
    assert_eq!(run.pending_action(), RunAction::OpenOutput);
    assert_eq!(run.run_timestamp(), 0);
    assert_eq!(run.metadata().last_backup_time, None);
    let run = backup_system(false, BackupType::Full);
    assert_eq!(
        run.roots(),
        &vec!["/home".to_string(), "/etc".to_string(), "/usr/local".to_string()]
    );
}

#[test]
fn selected_run_needs_a_directory() {
    assert!(backup_selected_directories(Vec::new(), BackupType::Full).is_none());
    let run = backup_selected_directories(
        vec!["/home/u/Documents".to_string(), "/etc".to_string()],
        BackupType::Incremental,
    )
    .expect("two directories are selected");
    assert_eq!(run.policy(), BackupType::Incremental);
    assert_eq!(run.roots(), &vec!["/home/u/Documents".to_string(), "/etc".to_string()]);
    assert!(run.exclusions().is_empty());
    assert_eq!(run.pending_action(), RunAction::OpenOutput);
}

#[test]
fn missing_metadata_is_the_empty_record() {
    let loaded =
        load_backup_metadata(StoredMetadata::Missing).expect("nothing persisted is no error");
    assert_eq!(loaded.last_backup_time, None);
    assert_eq!(loaded.original_backup_time, None);
    assert!(loaded.backup_history.is_empty());
    let empty = BackupMetadata::default();
    assert_eq!(empty.last_backup_time, None);
    assert_eq!(empty.original_backup_time, None);
    assert!(empty.backup_history.is_empty());
}

#[test]
fn parsed_metadata_is_handed_on_unchanged() {
    let mut history = HashMap::new();
    history.insert("/etc".to_string(), 5u64);
    let stored = BackupMetadata {
        last_backup_time: Some(20),
        original_backup_time: Some(10),
        backup_history: history,
    };
    let loaded = load_backup_metadata(StoredMetadata::Parsed(stored)).expect("a valid record");
    assert_eq!(loaded.last_backup_time, Some(20));
    assert_eq!(loaded.original_backup_time, Some(10));
    assert_eq!(loaded.backup_history.get("/etc"), Some(&5));
}

#[test]
fn unparseable_metadata_is_corrupt() {
    match load_backup_metadata(StoredMetadata::Invalid) {
        Err(error) => {
            assert_eq!(error, BackupError::Corrupt);
            assert!(error.is_fatal());
        }
        Ok(_) => panic!("an unparseable record was accepted"),
    }
}

#[test]
fn only_corrupt_metadata_and_io_failures_are_fatal() {
    assert!(!BackupError::NotFound.is_fatal());
    assert!(!BackupError::Unreadable.is_fatal());
    assert!(BackupError::Corrupt.is_fatal());
    assert!(BackupError::IOFailure.is_fatal());
}

#[test]
fn store_names_its_directory_and_file() {
    assert_eq!(METADATA_DIR, ".linux_backup_metadata");
    assert_eq!(METADATA_FILE, "backup_metadata.json");
    let store = MetadataStore::in_home("/home/u");
    assert_eq!(store.directory(), "/home/u/.linux_backup_metadata");
    assert_eq!(store.record_path(), "/home/u/.linux_backup_metadata/backup_metadata.json");
    let store = MetadataStore::new("/srv/meta/".to_string());
    assert_eq!(store.directory(), "/srv/meta/");
    assert_eq!(store.record_path(), "/srv/meta/backup_metadata.json");
}

#[test]
fn common_directories_lie_below_the_home_directory() {
    assert_eq!(
        common_directory_paths("/home/u"),
        vec![
            "/home/u/Documents",
            "/home/u/Pictures",
            "/home/u/Videos",
            "/home/u/Music",
            "/home/u/Downloads",
            "/home/u/.config",
            "/home/u/.local/share",
            "/etc",
        ]
    );
    assert_eq!(common_directory_paths("/root/")[0], "/root/Documents");
}
