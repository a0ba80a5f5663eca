use symlonk::disk::{DiskSnapshot, PathKind, Resolution};
use symlonk::lock::{
    parse_lock_file, verify, LockFile, LockFileVerifyError, LockLoad, ParseLockFileError,
    DEFAULT_LOCK_FILE_PATH,
};
use symlonk::table::{table_of, SymlinkTable};

fn pair(name: &str, target: &str) -> (String, String) {
    (name.to_string(), target.to_string())
}

fn table(pairs: &[(&str, &str)]) -> SymlinkTable {
    table_of(&pairs.iter().map(|(n, t)| pair(n, t)).collect())
}

fn lock(pairs: &[(&str, &str)]) -> LockFile {
    let mut lock = LockFile::new("/run/lock.toml".to_string());
    for (name, target) in pairs {
        lock.set_symlink(name, target);
    }
    lock
}

fn seen(entries: &[(&str, PathKind, Resolution)]) -> DiskSnapshot {
    let mut disk = DiskSnapshot::new();
    for (name, kind, resolved) in entries {
        disk.record(name, clone_kind(kind), clone_resolution(resolved));
    }
    disk
}

fn clone_kind(kind: &PathKind) -> PathKind {
    match kind {
        PathKind::Missing => PathKind::Missing,
        PathKind::Symlink => PathKind::Symlink,
        PathKind::NotSymlink => PathKind::NotSymlink,
        PathKind::Unreadable(why) => PathKind::Unreadable(why.clone()),
    }
}

fn clone_resolution(resolved: &Resolution) -> Resolution {
    match resolved {
        Resolution::Missing => Resolution::Missing,
        Resolution::Resolved(path) => Resolution::Resolved(path.clone()),
        Resolution::Unreadable(why) => Resolution::Unreadable(why.clone()),
    }
}

fn resolved(path: &str) -> Resolution {
    Resolution::Resolved(path.to_string())
}

#[test]
fn new_lock_file_is_empty_and_keeps_its_path() {
    let lock = LockFile::new("/x/lock.toml".to_string());
    assert_eq!(lock.symlink_count(), 0);
    assert_eq!(lock.file_path(), "/x/lock.toml");
    assert_eq!(lock.symlinks().len(), 0);
}

#[test]
fn default_path_is_the_default_name() {
    assert_eq!(LockFile::default_path(), "symlonk-lock.toml");
    assert_eq!(DEFAULT_LOCK_FILE_PATH, "symlonk-lock.toml");
}

#[test]
fn set_symlink_returns_the_previous_target() {
    let mut lock = LockFile::new("l".to_string());
    assert_eq!(lock.set_symlink("/n", "/t1"), None);
    assert_eq!(lock.set_symlink("/n", "/t2"), Some("/t1".to_string()));
    assert_eq!(lock.symlink_count(), 1);
    assert_eq!(lock.get_symlink("/n"), Some(&"/t2".to_string()));
}

#[test]
fn remove_symlink_returns_the_target() {
    let mut lock = lock(&[("/a", "/1"), ("/b", "/2")]);
    assert_eq!(lock.remove_symlink("/a"), Some("/1".to_string()));
    assert_eq!(lock.remove_symlink("/a"), None);
    assert_eq!(lock.symlink_count(), 1);
    assert_eq!(lock.symlinks().to_pairs(), vec![pair("/b", "/2")]);
}

#[test]
fn remove_symlinks_forgets_everything() {
    let mut lock = lock(&[("/a", "/1"), ("/b", "/2")]);
    lock.remove_symlinks();
    assert_eq!(lock.symlink_count(), 0);
    assert_eq!(lock.file_path(), "/run/lock.toml");
}

#[test]
fn outdated_returns_the_link_with_a_changed_target() {
    let lock = lock(&[("/X", "/T1")]);
    assert_eq!(lock.get_symlinks_to_delete(&table(&[("/X", "/T2")])), vec![pair("/X", "/T1")]);
}

#[test]
fn outdated_returns_nothing_for_the_same_target() {
    let lock = lock(&[("/X", "/T1")]);
    assert_eq!(lock.get_symlinks_to_delete(&table(&[("/X", "/T1")])), vec![]);
}

#[test]
fn outdated_returns_undeclared_links_in_lock_order() {
    let lock = lock(&[("/c", "/3"), ("/a", "/1"), ("/b", "/2")]);
    let declared = table(&[("/a", "/1"), ("/b", "/other")]);
    assert_eq!(lock.get_symlinks_to_delete(&declared), vec![pair("/c", "/3"), pair("/b", "/2")]);
    assert_eq!(
        lock.get_symlinks_to_delete(&SymlinkTable::new()),
        vec![pair("/c", "/3"), pair("/a", "/1"), pair("/b", "/2")]
    );
}

#[test]
fn verify_config_accepts_the_same_mapping_in_another_order() {
    let lock = lock(&[("/a", "/1"), ("/b", "/2")]);
    assert_eq!(lock.verify_config(&table(&[("/b", "/2"), ("/a", "/1")])), Ok(()));
    assert_eq!(LockFile::new("l".to_string()).verify_config(&SymlinkTable::new()), Ok(()));
}

#[test]
fn verify_config_reports_a_declared_link_missing_from_the_lock() {
    let lock = lock(&[("/a", "/1")]);
    assert_eq!(
        lock.verify_config(&table(&[("/a", "/1"), ("/b", "/2")])),
        Err(LockFileVerifyError::SymlinkNotFoundInLockFile {
            symlink_name: "/b".to_string(),
            lock_file_path: "/run/lock.toml".to_string(),
        })
    );
}

#[test]
fn verify_config_reports_a_target_mismatch() {
    let lock = lock(&[("/a", "/1")]);
    assert_eq!(
        lock.verify_config(&table(&[("/a", "/9")])),
        Err(LockFileVerifyError::InvalidSymlinkTargetInLockFile {
            link_name: "/a".to_string(),
            lock_file_link_target: Some("/1".to_string()),
            config_link_target: "/9".to_string(),
        })
    );
}

#[test]
fn verify_config_reports_a_stale_link() {
    let lock = lock(&[("/a", "/1"), ("/old", "/o")]);
    assert_eq!(
        lock.verify_config(&table(&[("/a", "/1")])),
        Err(LockFileVerifyError::SymlinkNotFoundInConfig("/old".to_string()))
    );
}

#[test]
fn verify_config_picks_the_first_declared_fault_before_any_stale_link() {
    let lock = lock(&[("/stale", "/s"), ("/a", "/1"), ("/b", "/2")]);
    let declared = table(&[("/a", "/1"), ("/b", "/changed"), ("/c", "/3")]);
    assert_eq!(
        lock.verify_config(&declared),
        Err(LockFileVerifyError::InvalidSymlinkTargetInLockFile {
            link_name: "/b".to_string(),
            lock_file_link_target: Some("/2".to_string()),
            config_link_target: "/changed".to_string(),
        })
    );
}

#[test]
fn verify_config_picks_the_first_stale_link_in_lock_order() {
    let lock = lock(&[("/z", "/1"), ("/a", "/2"), ("/m", "/3")]);
    assert_eq!(
        lock.verify_config(&table(&[("/a", "/2")])),
        Err(LockFileVerifyError::SymlinkNotFoundInConfig("/z".to_string()))
    );
}

#[test]
fn created_check_passes_when_every_name_is_a_symlink() {
    let lock = lock(&[("/a", "/1"), ("/b", "/2")]);
    let disk = seen(&[
        ("/a", PathKind::Symlink, resolved("/1")),
        ("/b", PathKind::Symlink, resolved("/2")),
    ]);
    assert_eq!(lock.verify_symlinks_created(&disk), Ok(()));
}

#[test]
fn created_check_reports_a_missing_path() {
    let lock = lock(&[("/a", "/1"), ("/b", "/2")]);
    let disk = seen(&[("/a", PathKind::Symlink, resolved("/1"))]);
    assert_eq!(
        lock.verify_symlinks_created(&disk),
        Err(LockFileVerifyError::SymlinkNotFound("/b".to_string()))
    );
    let disk = seen(&[
        ("/a", PathKind::Missing, Resolution::Missing),
        ("/b", PathKind::NotSymlink, resolved("/b")),
    ]);
    assert_eq!(
        lock.verify_symlinks_created(&disk),
        Err(LockFileVerifyError::SymlinkNotFound("/a".to_string()))
    );
}

#[test]
fn created_check_reports_a_path_that_is_no_symlink() {
    let lock = lock(&[("/a", "/1")]);
    let disk = seen(&[("/a", PathKind::NotSymlink, resolved("/a"))]);
    assert_eq!(
        lock.verify_symlinks_created(&disk),
        Err(LockFileVerifyError::NotASymlink("/a".to_string()))
    );
}

#[test]
fn created_check_reports_a_failed_probe() {
    let lock = lock(&[("/a", "/1")]);
    let disk = seen(&[("/a", PathKind::Unreadable("denied".to_string()), Resolution::Missing)]);
    assert_eq!(
        lock.verify_symlinks_created(&disk),
        Err(LockFileVerifyError::IoError("denied".to_string()))
    );
}

#[test]
fn a_later_record_replaces_an_earlier_one() {
    let lock = lock(&[("/a", "/1")]);
    let disk = seen(&[
        ("/a", PathKind::Missing, Resolution::Missing),
        ("/a", PathKind::Symlink, resolved("/1")),
    ]);
    assert_eq!(disk.len(), 2);
    assert_eq!(disk.kind("/a"), &PathKind::Symlink);
    assert_eq!(disk.resolution("/a"), &resolved("/1"));
    assert_eq!(disk.kind("/other"), &PathKind::Missing);
    assert_eq!(lock.verify_symlinks_created(&disk), Ok(()));
}

#[test]
fn target_check_detects_drift() {
    let lock = lock(&[("/N", "/T")]);
    let disk = seen(&[("/N", PathKind::Symlink, resolved("/T-other"))]);
    assert_eq!(
        lock.verify_symlink_targets_exist(&disk),
        Err(LockFileVerifyError::InvalidSymlinkTarget {
            link_name: "/N".to_string(),
            lock_file_link_target: "/T".to_string(),
            disk_link_target: Some("/T-other".to_string()),
        })
    );
}

#[test]
fn target_check_passes_when_every_link_leads_to_its_target() {
    let lock = lock(&[("/a", "/1"), ("/b", "/2")]);
    let disk = seen(&[
        ("/b", PathKind::Symlink, resolved("/2")),
        ("/a", PathKind::Symlink, resolved("/1")),
    ]);
    assert_eq!(lock.verify_symlink_targets_exist(&disk), Ok(()));
    assert_eq!(LockFile::new("l".to_string()).verify_symlink_targets_exist(&disk), Ok(()));
}

#[test]
fn target_check_reports_a_dangling_link() {
    let lock = lock(&[("/a", "/1")]);
    let disk = seen(&[("/a", PathKind::Symlink, Resolution::Missing)]);
    assert_eq!(
        lock.verify_symlink_targets_exist(&disk),
        Err(LockFileVerifyError::SymlinkTargetNotFound {
            link_name: "/a".to_string(),
            link_target: "/1".to_string(),
        })
    );
}

#[test]
fn target_check_reports_a_failed_probe() {
    let lock = lock(&[("/a", "/1")]);
    let disk = seen(&[("/a", PathKind::Symlink, Resolution::Unreadable("loop".to_string()))]);
    assert_eq!(
        lock.verify_symlink_targets_exist(&disk),
        Err(LockFileVerifyError::IoError("loop".to_string()))
    );
}

#[test]
fn verify_runs_every_check_and_reports_each() {
    let lock = lock(&[("/a", "/1"), ("/b", "/2")]);
    let disk = seen(&[
        ("/a", PathKind::NotSymlink, resolved("/a")),
        ("/b", PathKind::Symlink, resolved("/2")),
    ]);
    let declared = table(&[("/a", "/1")]);
    let report = verify(&lock, Some(&declared), &disk);
    assert_eq!(
        report.config,
        Some(Err(LockFileVerifyError::SymlinkNotFoundInConfig("/b".to_string())))
    );
    assert_eq!(report.created, Err(LockFileVerifyError::NotASymlink("/a".to_string())));
    assert_eq!(
        report.targets,
        Err(LockFileVerifyError::InvalidSymlinkTarget {
            link_name: "/a".to_string(),
            lock_file_link_target: "/1".to_string(),
            disk_link_target: Some("/a".to_string()),
        })
    );
    assert!(!report.is_clean());
}

#[test]
fn verify_without_declarations_skips_the_config_check() {
    let lock = lock(&[("/a", "/1")]);
    let disk = seen(&[("/a", PathKind::Symlink, resolved("/1"))]);
    let report = verify(&lock, None, &disk);
    assert_eq!(report.config, None);
    assert_eq!(report.created, Ok(()));
    assert_eq!(report.targets, Ok(()));
    assert!(report.is_clean());
}

#[test]
fn messages_say_what_failed() {
    assert_eq!(LockFileVerifyError::IoError("boom".to_string()).to_string(), "IO error: boom");
    assert_eq!(
        LockFileVerifyError::NotASymlink("/a".to_string()).to_string(),
        "not a symlink: /a"
    );
    assert_eq!(
        LockFileVerifyError::SymlinkNotFound("/a".to_string()).to_string(),
        "symlink not found: /a"
    );
    assert_eq!(
        LockFileVerifyError::SymlinkTargetNotFound {
            link_name: "/a".to_string(),
            link_target: "/t".to_string(),
        }
        .to_string(),
        "symlink points to nonexistent file: /a -> /t"
    );
    assert_eq!(
        LockFileVerifyError::InvalidSymlinkTarget {
            link_name: "/a".to_string(),
            lock_file_link_target: "/t".to_string(),
            disk_link_target: Some("/d".to_string()),
        }
        .to_string(),
        "symlink target does not match lock file: /a -> /d (expected /t)"
    );
    assert_eq!(
        LockFileVerifyError::InvalidSymlinkTarget {
            link_name: "/a".to_string(),
            lock_file_link_target: "/t".to_string(),
            disk_link_target: None,
        }
        .to_string(),
        "symlink target does not match lock file: /a -> <NONE> (expected /t)"
    );
    assert_eq!(
        LockFileVerifyError::SymlinkNotFoundInLockFile {
            symlink_name: "/a".to_string(),
            lock_file_path: "lock.toml".to_string(),
        }
        .to_string(),
        "symlink from config not found in lock file: /a, was it generated using the following lock file ? lock.toml"
    );
    assert_eq!(
        LockFileVerifyError::SymlinkNotFoundInConfig("/a".to_string()).to_string(),
        "outdated symlink in lock file: /a is not in config, run with --prune to delete outdated symlinks"
    );
    assert_eq!(
        LockFileVerifyError::InvalidSymlinkTargetInLockFile {
            link_name: "/a".to_string(),
            lock_file_link_target: Some("/l".to_string()),
            config_link_target: "/c".to_string(),
        }
        .to_string(),
        "invalid symlink target in lock file: /a -> /l (config expects /c)"
    );
    assert_eq!(
        LockFileVerifyError::InvalidSymlinkTargetInLockFile {
            link_name: "/a".to_string(),
            lock_file_link_target: None,
            config_link_target: "/c".to_string(),
        }
        .to_string(),
        "invalid symlink target in lock file: /a -> <NONE> (config expects /c)"
    );
}

#[test]
fn parse_lock_file_builds_the_lock_from_what_was_read() {
    let lock =
        parse_lock_file("/p/lock.toml", LockLoad::Loaded(vec![pair("/a", "/1"), pair("/b", "/2")]))
            .unwrap();
    assert_eq!(lock.file_path(), "/p/lock.toml");
    assert_eq!(lock.symlinks().to_pairs(), vec![pair("/a", "/1"), pair("/b", "/2")]);
}

#[test]
fn parse_lock_file_passes_each_failure_on() {
    assert_eq!(parse_lock_file("l", LockLoad::NotFound).unwrap_err(), ParseLockFileError::NotFound);
    assert_eq!(
        parse_lock_file("l", LockLoad::Unreadable("denied".to_string())).unwrap_err(),
        ParseLockFileError::Io("denied".to_string())
    );
    assert_eq!(
        parse_lock_file("l", LockLoad::Malformed("line 1".to_string())).unwrap_err(),
        ParseLockFileError::Deserialize("line 1".to_string())
    );
}
