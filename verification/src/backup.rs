//! The two kinds of run the tool offers: a backup of directories the user
//! picked, and a backup of the system under a fixed exclusion list.

use crate::filter::{rule_views, string_views, ExclusionRule, RuleView, WILDCARD};
use crate::metadata::BackupType;
use crate::paths::{join, joined};
use crate::run::{BackupRun, RunView};
use vstd::prelude::*;

verus! {

/// The strategy behind entry `choice` of the strategy menu: full,
/// incremental, differential, in that order. Any other choice is a full
/// backup.
pub open spec fn backup_type_of_choice(choice: usize) -> BackupType {
    if choice == 1 {
        BackupType::Incremental
    } else if choice == 2 {
        BackupType::Differential
    } else {
        BackupType::Full
    }
}

/// The compression level behind entry `choice` of the compression menu:
/// fast, default, best, in that order. Any other choice is the default.
pub open spec fn compression_level_of_choice(choice: usize) -> u32 {
    if choice == 0 {
        1
    } else if choice == 2 {
        9
    } else {
        6
    }
}

/// The directories that are offered for selection to the user whose home
/// directory is `home`: seven below it, and the system's configuration.
pub open spec fn common_directories(home: Seq<char>) -> Seq<Seq<char>> {
    seq![
        joined(home, "Documents"@),
        joined(home, "Pictures"@),
        joined(home, "Videos"@),
        joined(home, "Music"@),
        joined(home, "Downloads"@),
        joined(home, ".config"@),
        joined(home, ".local/share"@),
        "/etc"@,
    ]
}

/// The roots of a system backup, in order. Two of them are read only
/// with the rights of the superuser.
pub open spec fn system_roots(is_root: bool) -> Seq<Seq<char>> {
    if is_root {
        seq!["/home"@, "/etc"@, "/usr/local"@, "/var"@, "/opt"@]
    } else {
        seq!["/home"@, "/etc"@, "/usr/local"@]
    }
}

/// The exclusion list of a system backup.
pub open spec fn system_exclusions() -> Seq<RuleView> {
    seq![
        RuleView::Literal("/proc"@),
        RuleView::Literal("/sys"@),
        RuleView::Literal("/tmp"@),
        RuleView::Literal("/run"@),
        RuleView::Literal("/mnt"@),
        RuleView::Literal("/media"@),
        RuleView::Literal("/lost+found"@),
        RuleView::Literal("/dev"@),
        RuleView::Literal("/var/log"@),
        RuleView::Literal("/var/cache"@),
        RuleView::Literal("/var/tmp"@),
        RuleView::Literal("/root"@),
        RuleView::Glob("/home/*/.cache"@),
    ]
}

/// `flate2::Compression::fast`, read through `Compression::level`: the
/// level that favours speed is 1.
#[verifier::external_body]
fn fast_level() -> (level: u32)
    ensures
        level == 1,
{
    flate2::Compression::fast().level()
}

/// `Default::default` of `flate2::Compression`, read through
/// `Compression::level`: the default level is 6.
#[verifier::external_body]
fn default_level() -> (level: u32)
    ensures
        level == 6,
{
    flate2::Compression::default().level()
}

/// `flate2::Compression::best`, read through `Compression::level`: the
/// level that favours size is 9.
#[verifier::external_body]
fn best_level() -> (level: u32)
    ensures
        level == 9,
{
    flate2::Compression::best().level()
}

/// The strategy behind an entry of the strategy menu.
pub fn backup_type_for_choice(choice: usize) -> (backup_type: BackupType)
    ensures
        backup_type == backup_type_of_choice(choice),
{
    if choice == 1 {
        BackupType::Incremental
    } else if choice == 2 {
        BackupType::Differential
    } else {
        BackupType::Full
    }
}

/// The compression level behind an entry of the compression menu.
pub fn compression_level_for_choice(choice: usize) -> (level: u32)
    ensures
        level == compression_level_of_choice(choice),
{
    if choice == 0 {
        fast_level()
    } else if choice == 2 {
        best_level()
    } else {
        default_level()
    }
}

/// The directories that are offered for selection.
pub fn common_directory_paths(home: &str) -> (directories: Vec<String>)
    ensures
        string_views(directories@) == common_directories(home@),
{
    let mut directories: Vec<String> = Vec::new();
    directories.push(join(home, "Documents"));
    directories.push(join(home, "Pictures"));
    directories.push(join(home, "Videos"));
    directories.push(join(home, "Music"));
    directories.push(join(home, "Downloads"));
    directories.push(join(home, ".config"));
    directories.push(join(home, ".local/share"));
    directories.push("/etc".to_owned());
    directories
}

/// The roots of a system backup.
pub fn system_root_paths(is_root: bool) -> (roots: Vec<String>)
    ensures
        string_views(roots@) == system_roots(is_root),
{
    let mut roots: Vec<String> = Vec::new();
    roots.push("/home".to_owned());
    roots.push("/etc".to_owned());
    roots.push("/usr/local".to_owned());
    if is_root {
        roots.push("/var".to_owned());
        roots.push("/opt".to_owned());
    }
    roots
}

/// The exclusion list of a system backup.
pub fn system_exclusion_rules() -> (rules: Vec<ExclusionRule>)
    ensures
        rule_views(rules@) == system_exclusions(),
{
    let mut rules: Vec<ExclusionRule> = Vec::new();
    rules.push(ExclusionRule::parse("/proc"));
    rules.push(ExclusionRule::parse("/sys"));
    rules.push(ExclusionRule::parse("/tmp"));
    rules.push(ExclusionRule::parse("/run"));
    rules.push(ExclusionRule::parse("/mnt"));
    rules.push(ExclusionRule::parse("/media"));
    rules.push(ExclusionRule::parse("/lost+found"));
    rules.push(ExclusionRule::parse("/dev"));
    rules.push(ExclusionRule::parse("/var/log"));
    rules.push(ExclusionRule::parse("/var/cache"));
    rules.push(ExclusionRule::parse("/var/tmp"));
    rules.push(ExclusionRule::parse("/root"));
    rules.push(ExclusionRule::parse("/home/*/.cache"));
    proof {
        reveal_strlit("/proc");
        reveal_strlit("/sys");
        reveal_strlit("/tmp");
        reveal_strlit("/run");
        reveal_strlit("/mnt");
        reveal_strlit("/media");
        reveal_strlit("/lost+found");
        reveal_strlit("/dev");
        reveal_strlit("/var/log");
        reveal_strlit("/var/cache");
        reveal_strlit("/var/tmp");
        reveal_strlit("/root");
        reveal_strlit("/home/*/.cache");
        assert("/home/*/.cache"@[6] == WILDCARD);
    }
    rules
}

/// Sets up a backup of the directories in `selected_dirs`, in that order
/// and without exclusions. Where none is selected there is nothing to
/// run.
pub fn backup_selected_directories(selected_dirs: Vec<String>, backup_type: BackupType) -> (run:
    Option<BackupRun>)
    ensures
        selected_dirs@.len() == 0 <==> run is None,
        run is Some ==> run->Some_0@ == RunView::initial(
            backup_type,
            string_views(selected_dirs@),
            Seq::empty(),
        ),
{
    if selected_dirs.len() == 0 {
        return None;
    }
    let exclusions: Vec<ExclusionRule> = Vec::new();
    assert(rule_views(exclusions@) =~= Seq::empty());
    Some(BackupRun::new(backup_type, selected_dirs, exclusions))
}

/// Sets up a backup of the system: its fixed roots, of which the last
/// two only where `is_root` says that the superuser runs the backup,
/// under its fixed exclusion list.
pub fn backup_system(is_root: bool, backup_type: BackupType) -> (run: BackupRun)
    ensures
        run@ == RunView::initial(backup_type, system_roots(is_root), system_exclusions()),
{
    BackupRun::new(backup_type, system_root_paths(is_root), system_exclusion_rules())
}

} // verus!
