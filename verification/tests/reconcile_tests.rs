use std::collections::BTreeMap;

use symlonk::link::{
    CreateLinkOptions, LinkError, LinkReply, LinkRequest, Occupant, ParentKind,
};
use symlonk::disk::{DiskSnapshot, PathKind, Resolution};
use symlonk::lock::{LockFile, LockFileVerifyError, ParseLockFileError, VerifyReport};
use symlonk::reconcile::{
    needs_consent, recover_missing, MissingLockPolicy, Reconciler, RunReply, RunRequest,
};
use symlonk::table::{table_of, SymlinkTable};

#[derive(Debug, Clone, PartialEq, Eq)]
enum Node {
    Link(String),
    File,
    Dir,
}

struct Disk {
    nodes: BTreeMap<String, Node>,
    keys: Vec<char>,
    now: u128,
    changes: Vec<String>,
    asked: usize,
    saved: Option<Vec<(String, String)>>,
}

impl Disk {
    fn new() -> Disk {
        let mut nodes = BTreeMap::new();
        nodes.insert("/".to_string(), Node::Dir);
        Disk { nodes, keys: Vec::new(), now: 1000, changes: Vec::new(), asked: 0, saved: None }
    }

    fn perform_link(&mut self, request: LinkRequest) -> LinkReply {
        match request {
            LinkRequest::Probe(path) => LinkReply::Occupant(match self.nodes.get(&path) {
                None => Occupant::Nothing,
                Some(Node::Link(target)) => Occupant::Link(target.clone()),
                Some(_) => Occupant::Other,
            }),
            LinkRequest::Ask { .. } => {
                self.asked += 1;
                LinkReply::Key(if self.keys.is_empty() { None } else { Some(self.keys.remove(0)) })
            }
            LinkRequest::ProbeBackup(path) => LinkReply::Exists(self.nodes.contains_key(&path)),
            LinkRequest::ReadClock => LinkReply::Millis(self.now),
            LinkRequest::Rename { from, to } => match self.nodes.remove(&from) {
                Some(node) => {
                    self.nodes.insert(to.clone(), node);
                    self.changes.push(format!("rename {} {}", from, to));
                    LinkReply::Done
                }
                None => LinkReply::Failed(format!("{} not found", from)),
            },
            LinkRequest::Remove(path) => match self.nodes.remove(&path) {
                Some(_) => {
                    self.changes.push(format!("remove {}", path));
                    LinkReply::Done
                }
                None => LinkReply::Failed(format!("{} not found", path)),
            },
            LinkRequest::ProbeParent(path) => LinkReply::Parent(match self.nodes.get(&path) {
                None => ParentKind::Missing,
                Some(Node::Dir) => ParentKind::Directory,
                Some(_) => ParentKind::NotDirectory,
            }),
            LinkRequest::CreateDirs(path) => {
                self.nodes.insert(path.clone(), Node::Dir);
                self.changes.push(format!("mkdir {}", path));
                LinkReply::Done
            }
            LinkRequest::Symlink { name, target } => {
                if self.nodes.contains_key(&name) {
                    LinkReply::Failed(format!("{} exists", name))
                } else {
                    self.nodes.insert(name.clone(), Node::Link(target.clone()));
                    self.changes.push(format!("symlink {} {}", name, target));
                    LinkReply::Done
                }
            }
            LinkRequest::Finish(_) => unreachable!(),
        }
    }

    fn look(&self, lock: &LockFile) -> DiskSnapshot {
        let mut seen = DiskSnapshot::new();
        for (name, _) in lock.symlinks().to_pairs() {
            match self.nodes.get(&name) {
                Some(Node::Link(target)) => {
                    seen.record(&name, PathKind::Symlink, Resolution::Resolved(target.clone()))
                }
                Some(_) => {
                    seen.record(&name, PathKind::NotSymlink, Resolution::Resolved(name.clone()))
                }
                None => seen.record(&name, PathKind::Missing, Resolution::Missing),
            }
        }
        seen
    }

    fn run(
        &mut self,
        lock: LockFile,
        declared: &SymlinkTable,
        prune: bool,
    ) -> (LockFile, Result<(), LinkError>, CreateLinkOptions) {
        let (lock, result, options) = self.run_and_check(lock, declared, prune, false);
        (lock, result.map(|_| ()), options)
    }

    fn run_and_check(
        &mut self,
        lock: LockFile,
        declared: &SymlinkTable,
        prune: bool,
        check: bool,
    ) -> (LockFile, Result<Option<VerifyReport>, LinkError>, CreateLinkOptions) {
        let (mut run, mut request) =
            Reconciler::new(lock, table_of(&declared.to_pairs()), prune, check);
        loop {
            let reply = match request {
                RunRequest::Delete(path) => {
                    let done = matches!(self.nodes.get(&path), Some(Node::Link(_)));
                    if done {
                        self.nodes.remove(&path);
                        self.changes.push(format!("unlink {}", path));
                    }
                    RunReply::Deleted(done)
                }
                RunRequest::Link(link_request) => RunReply::Link(self.perform_link(link_request)),
                RunRequest::Save => {
                    self.saved = Some(run.lock_file().symlinks().to_pairs());
                    RunReply::Saved
                }
                RunRequest::Inspect => RunReply::Seen(self.look(run.lock_file())),
                RunRequest::Finished(result) => {
                    let options = *run.options();
                    return (run.into_lock_file(), result, options);
                }
            };
            request = run.step(reply);
        }
    }
}

fn pair(name: &str, target: &str) -> (String, String) {
    (name.to_string(), target.to_string())
}

fn table(pairs: &[(&str, &str)]) -> SymlinkTable {
    table_of(&pairs.iter().map(|(n, t)| pair(n, t)).collect())
}

fn empty_lock() -> LockFile {
    LockFile::new("/lock.toml".to_string())
}

#[test]
fn first_run_creates_every_link_and_records_it() {
    let mut disk = Disk::new();
    let declared = table(&[("/home/a", "/src/a"), ("/home/b", "/src/b")]);
    let (lock, result, _) = disk.run(empty_lock(), &declared, false);
    assert_eq!(result, Ok(()));
    assert_eq!(
        disk.changes,
        vec!["mkdir /home", "symlink /home/a /src/a", "symlink /home/b /src/b"]
    );
    assert_eq!(lock.symlinks().to_pairs(), vec![pair("/home/a", "/src/a"), pair("/home/b", "/src/b")]);
    assert_eq!(disk.saved, Some(lock.symlinks().to_pairs()));
    assert_eq!(lock.verify_config(&declared), Ok(()));
}

#[test]
fn second_run_changes_nothing() {
    let mut disk = Disk::new();
    let declared = table(&[("/home/a", "/src/a"), ("/home/b", "/src/b")]);
    let (lock, _, _) = disk.run(empty_lock(), &declared, true);
    let recorded = lock.symlinks().to_pairs();
    let nodes = disk.nodes.clone();
    disk.changes.clear();
    let (lock, result, options) = disk.run(lock, &declared, true);
    assert_eq!(result, Ok(()));
    assert!(disk.changes.is_empty());
    assert_eq!(disk.nodes, nodes);
    assert_eq!(disk.asked, 0);
    assert_eq!(lock.symlinks().to_pairs(), recorded);
    assert_eq!(options, CreateLinkOptions::new(false, false, false));
}

#[test]
fn an_empty_run_only_saves() {
    let (mut run, request) = Reconciler::new(empty_lock(), SymlinkTable::new(), true, false);
    assert_eq!(request, RunRequest::Save);
    assert_eq!(run.step(RunReply::Saved), RunRequest::Finished(Ok(None)));
}

#[test]
fn prune_deletes_outdated_links_and_forgets_them() {
    let mut disk = Disk::new();
    let (lock, _, _) = disk.run(
        empty_lock(),
        &table(&[("/h/keep", "/s/keep"), ("/h/gone", "/s/gone"), ("/h/moved", "/s/old")]),
        false,
    );
    disk.changes.clear();
    disk.keys = vec!['o'];
    let declared = table(&[("/h/keep", "/s/keep"), ("/h/moved", "/s/new")]);
    let (lock, result, _) = disk.run(lock, &declared, true);
    assert_eq!(result, Ok(()));
    assert_eq!(
        disk.changes,
        vec!["unlink /h/gone", "unlink /h/moved", "symlink /h/moved /s/new"]
    );
    assert_eq!(disk.asked, 0);
    assert_eq!(
        lock.symlinks().to_pairs(),
        vec![pair("/h/keep", "/s/keep"), pair("/h/moved", "/s/new")]
    );
}

#[test]
fn without_prune_outdated_links_stay_in_the_lock() {
    let mut disk = Disk::new();
    let (lock, _, _) = disk.run(empty_lock(), &table(&[("/h/old", "/s/old")]), false);
    let (lock, _, _) = disk.run(lock, &table(&[("/h/new", "/s/new")]), false);
    assert_eq!(
        lock.symlinks().to_pairs(),
        vec![pair("/h/old", "/s/old"), pair("/h/new", "/s/new")]
    );
    assert_eq!(disk.nodes.get("/h/old"), Some(&Node::Link("/s/old".to_string())));
}

#[test]
fn a_link_that_cannot_be_deleted_stays_in_the_lock() {
    let lock = {
        let mut lock = empty_lock();
        lock.set_symlink("/h/gone", "/s/gone");
        lock
    };
    let (mut run, request) = Reconciler::new(lock, SymlinkTable::new(), true, false);
    assert_eq!(request, RunRequest::Delete("/h/gone".to_string()));
    assert_eq!(run.step(RunReply::Deleted(false)), RunRequest::Save);
    assert_eq!(run.lock_file().symlinks().to_pairs(), vec![pair("/h/gone", "/s/gone")]);
}

#[test]
fn overwrite_all_applies_to_later_conflicts_of_the_run() {
    let mut disk = Disk::new();
    disk.nodes.insert("/h".to_string(), Node::Dir);
    disk.nodes.insert("/h/a".to_string(), Node::Link("/elsewhere/a".to_string()));
    disk.nodes.insert("/h/b".to_string(), Node::File);
    disk.keys = vec!['O'];
    let declared = table(&[("/h/a", "/s/a"), ("/h/b", "/s/b")]);
    let (lock, result, options) = disk.run(empty_lock(), &declared, false);
    assert_eq!(result, Ok(()));
    assert_eq!(disk.asked, 1);
    assert!(options.overwrite_all);
    assert_eq!(
        disk.changes,
        vec!["remove /h/a", "symlink /h/a /s/a", "remove /h/b", "symlink /h/b /s/b"]
    );
    assert_eq!(lock.symlinks().to_pairs(), vec![pair("/h/a", "/s/a"), pair("/h/b", "/s/b")]);
}

#[test]
fn backup_collision_keeps_the_old_backup() {
    let mut disk = Disk::new();
    disk.nodes.insert("/h".to_string(), Node::Dir);
    disk.nodes.insert("/h/N".to_string(), Node::File);
    disk.nodes.insert("/h/N.backup".to_string(), Node::Link("/old".to_string()));
    disk.keys = vec!['b'];
    disk.now = 1234567;
    let (lock, result, _) = disk.run(empty_lock(), &table(&[("/h/N", "/s/N")]), false);
    assert_eq!(result, Ok(()));
    assert_eq!(disk.changes, vec!["rename /h/N /h/N.1234567.backup", "symlink /h/N /s/N"]);
    assert_eq!(disk.nodes.get("/h/N.backup"), Some(&Node::Link("/old".to_string())));
    assert_eq!(disk.nodes.get("/h/N.1234567.backup"), Some(&Node::File));
    assert_eq!(lock.symlinks().to_pairs(), vec![pair("/h/N", "/s/N")]);
}

#[test]
fn a_skipped_link_is_not_recorded() {
    let mut disk = Disk::new();
    disk.nodes.insert("/h".to_string(), Node::Dir);
    disk.nodes.insert("/h/a".to_string(), Node::File);
    disk.keys = vec!['s'];
    let (lock, result, _) =
        disk.run(empty_lock(), &table(&[("/h/a", "/s/a"), ("/h/b", "/s/b")]), false);
    assert_eq!(result, Ok(()));
    assert_eq!(disk.changes, vec!["symlink /h/b /s/b"]);
    assert_eq!(lock.symlinks().to_pairs(), vec![pair("/h/b", "/s/b")]);
}

#[test]
fn a_failure_stops_the_links_but_the_lock_is_saved() {
    let mut disk = Disk::new();
    disk.nodes.insert("/h".to_string(), Node::Dir);
    disk.nodes.insert("/h/b".to_string(), Node::File);
    disk.keys = vec!['?'];
    let declared = table(&[("/h/a", "/s/a"), ("/h/b", "/s/b"), ("/h/c", "/s/c")]);
    let (lock, result, _) = disk.run(empty_lock(), &declared, false);
    assert_eq!(result, Err(LinkError::Io("/h/b exists".to_string())));
    assert_eq!(disk.changes, vec!["symlink /h/a /s/a"]);
    assert_eq!(disk.saved, Some(vec![pair("/h/a", "/s/a")]));
    assert_eq!(lock.symlinks().to_pairs(), vec![pair("/h/a", "/s/a")]);
}

#[test]
fn a_lock_that_cannot_be_saved_ends_the_run_with_that_failure() {
    let (mut run, request) = Reconciler::new(empty_lock(), SymlinkTable::new(), false, true);
    assert_eq!(request, RunRequest::Save);
    assert_eq!(
        run.step(RunReply::SaveFailed("disk full".to_string())),
        RunRequest::Finished(Err(LinkError::Io("disk full".to_string())))
    );
}

#[test]
fn a_reply_out_of_turn_ends_the_run() {
    let (mut run, _) = Reconciler::new(empty_lock(), table(&[("/h/a", "/s/a")]), false, false);
    assert_eq!(run.step(RunReply::Saved), RunRequest::Finished(Err(LinkError::OutOfTurn)));
    assert_eq!(
        run.step(RunReply::Deleted(true)),
        RunRequest::Finished(Err(LinkError::OutOfTurn))
    );
}

#[test]
fn consent_is_needed_only_for_a_missing_lock_under_ask() {
    assert!(needs_consent(&ParseLockFileError::NotFound, MissingLockPolicy::Ask));
    assert!(!needs_consent(&ParseLockFileError::NotFound, MissingLockPolicy::Create));
    assert!(!needs_consent(&ParseLockFileError::NotFound, MissingLockPolicy::Fail));
    assert!(!needs_consent(&ParseLockFileError::Io("x".to_string()), MissingLockPolicy::Ask));
    assert!(!needs_consent(
        &ParseLockFileError::Deserialize("x".to_string()),
        MissingLockPolicy::Ask
    ));
}

#[test]
fn a_missing_lock_is_started_as_the_policy_says() {
    let path = || "/l.toml".to_string();
    let made = recover_missing(path(), MissingLockPolicy::Create, None).unwrap();
    assert_eq!(made.file_path(), "/l.toml");
    assert_eq!(made.symlink_count(), 0);
    assert!(recover_missing(path(), MissingLockPolicy::Ask, Some('y')).is_some());
    assert!(recover_missing(path(), MissingLockPolicy::Ask, Some('Y')).is_some());
    assert!(recover_missing(path(), MissingLockPolicy::Ask, Some('n')).is_none());
    assert!(recover_missing(path(), MissingLockPolicy::Ask, None).is_none());
    assert!(recover_missing(path(), MissingLockPolicy::Fail, Some('y')).is_none());
}

#[test]
fn a_checked_run_ends_with_a_clean_report() {
    let mut disk = Disk::new();
    let declared = table(&[("/home/a", "/src/a"), ("/home/b", "/src/b")]);
    let (_, result, _) = disk.run_and_check(empty_lock(), &declared, false, true);
    let report = result.unwrap().unwrap();
    assert_eq!(report.config, Some(Ok(())));
    assert_eq!(report.created, Ok(()));
    assert_eq!(report.targets, Ok(()));
    assert!(report.is_clean());
}

#[test]
fn a_checked_run_reports_what_the_checks_find() {
    let mut lock = empty_lock();
    lock.set_symlink("/h/old", "/s/old");
    let mut disk = Disk::new();
    disk.nodes.insert("/h".to_string(), Node::Dir);
    disk.nodes.insert("/h/old".to_string(), Node::Link("/s/moved".to_string()));
    let (_, result, _) = disk.run_and_check(lock, &table(&[("/h/a", "/s/a")]), false, true);
    let report = result.unwrap().unwrap();
    assert_eq!(
        report.config,
        Some(Err(LockFileVerifyError::SymlinkNotFoundInConfig("/h/old".to_string())))
    );
    assert_eq!(report.created, Ok(()));
    assert_eq!(
        report.targets,
        Err(LockFileVerifyError::InvalidSymlinkTarget {
            link_name: "/h/old".to_string(),
            lock_file_link_target: "/s/old".to_string(),
            disk_link_target: Some("/s/moved".to_string()),
        })
    );
}

#[test]
fn a_failed_run_is_not_checked() {
    let mut disk = Disk::new();
    disk.nodes.insert("/h".to_string(), Node::Dir);
    disk.nodes.insert("/h/a".to_string(), Node::File);
    disk.keys = vec!['?'];
    let (_, result, _) =
        disk.run_and_check(empty_lock(), &table(&[("/h/a", "/s/a")]), false, true);
    assert_eq!(result, Err(LinkError::Io("/h/a exists".to_string())));
}

#[test]
fn what_is_seen_is_only_taken_when_asked_for() {
    let (mut run, _) = Reconciler::new(empty_lock(), SymlinkTable::new(), false, false);
    assert_eq!(
        run.step(RunReply::Seen(DiskSnapshot::new())),
        RunRequest::Finished(Err(LinkError::OutOfTurn))
    );
}
