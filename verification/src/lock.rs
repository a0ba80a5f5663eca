//! The lock file: the links that were created, and the checks that hold it
//! against the declarations and against the disk.
use vstd::prelude::*;
use vstd::string::*;
use crate::disk::{kind_at, resolution_at, DiskSnapshot, PathKind, PathKindView, Resolution,
    ResolutionView, SightingView};
use crate::table::{absorbed, as_map, distinct_names, has_name, lemma_index_of, links_of, lookup,
    table_of, Link, SymlinkTable};
use crate::text::opt_view;

verus! {

/// Why a check of the lock file failed.
#[allow(inconsistent_fields)]
#[derive(Debug, PartialEq, Eq)]
pub enum LockFileVerifyError {
    /// The disk could not be read; the text says how.
    IoError(String),
    /// The path exists and is not a symbolic link.
    NotASymlink(String),
    /// Nothing exists at the path.
    SymlinkNotFound(String),
    /// The link leads nowhere.
    SymlinkTargetNotFound { link_name: String, link_target: String },
    /// The link leads elsewhere than the lock file says.
    InvalidSymlinkTarget {
        link_name: String,
        lock_file_link_target: String,
        disk_link_target: Option<String>,
    },
    /// A declared link is missing from the lock file.
    SymlinkNotFoundInLockFile { symlink_name: String, lock_file_path: String },
    /// The lock file holds a link that is not declared.
    SymlinkNotFoundInConfig(String),
    /// The lock file and the declarations give a link different targets.
    InvalidSymlinkTargetInLockFile {
        link_name: String,
        lock_file_link_target: Option<String>,
        config_link_target: String,
    },
}

/// [`LockFileVerifyError`] with its texts as sequences of characters.
#[allow(inconsistent_fields)]
pub enum VerifyErrorView {
    IoError(Seq<char>),
    NotASymlink(Seq<char>),
    SymlinkNotFound(Seq<char>),
    SymlinkTargetNotFound { link_name: Seq<char>, link_target: Seq<char> },
    InvalidSymlinkTarget {
        link_name: Seq<char>,
        lock_file_link_target: Seq<char>,
        disk_link_target: Option<Seq<char>>,
    },
    SymlinkNotFoundInLockFile { symlink_name: Seq<char>, lock_file_path: Seq<char> },
    SymlinkNotFoundInConfig(Seq<char>),
    InvalidSymlinkTargetInLockFile {
        link_name: Seq<char>,
        lock_file_link_target: Option<Seq<char>>,
        config_link_target: Seq<char>,
    },
}

impl View for LockFileVerifyError {
    type V = VerifyErrorView;

    open spec fn view(&self) -> VerifyErrorView {
        match self {
            LockFileVerifyError::IoError(why) => VerifyErrorView::IoError(why@),
            LockFileVerifyError::NotASymlink(path) => VerifyErrorView::NotASymlink(path@),
            LockFileVerifyError::SymlinkNotFound(path) => VerifyErrorView::SymlinkNotFound(path@),
            LockFileVerifyError::SymlinkTargetNotFound { link_name, link_target } => {
                VerifyErrorView::SymlinkTargetNotFound {
                    link_name: link_name@,
                    link_target: link_target@,
                }
            },
            LockFileVerifyError::InvalidSymlinkTarget {
                link_name,
                lock_file_link_target,
                disk_link_target,
            } => VerifyErrorView::InvalidSymlinkTarget {
                link_name: link_name@,
                lock_file_link_target: lock_file_link_target@,
                disk_link_target: opt_view(*disk_link_target),
            },
            LockFileVerifyError::SymlinkNotFoundInLockFile { symlink_name, lock_file_path } => {
                VerifyErrorView::SymlinkNotFoundInLockFile {
                    symlink_name: symlink_name@,
                    lock_file_path: lock_file_path@,
                }
            },
            LockFileVerifyError::SymlinkNotFoundInConfig(path) => {
                VerifyErrorView::SymlinkNotFoundInConfig(path@)
            },
            LockFileVerifyError::InvalidSymlinkTargetInLockFile {
                link_name,
                lock_file_link_target,
                config_link_target,
            } => VerifyErrorView::InvalidSymlinkTargetInLockFile {
                link_name: link_name@,
                lock_file_link_target: opt_view(*lock_file_link_target),
                config_link_target: config_link_target@,
            },
        }
    }
}

/// What stands for a target that is not known.
pub open spec fn or_none(target: Option<Seq<char>>) -> Seq<char> {
    match target {
        Some(t) => t,
        None => "<NONE>"@,
    }
}

/// The sentence that tells a failure to the user.
pub open spec fn message(error: VerifyErrorView) -> Seq<char> {
    match error {
        VerifyErrorView::IoError(why) => "IO error: "@ + why,
        VerifyErrorView::NotASymlink(path) => "not a symlink: "@ + path,
        VerifyErrorView::SymlinkNotFound(path) => "symlink not found: "@ + path,
        VerifyErrorView::SymlinkTargetNotFound { link_name, link_target } => {
            "symlink points to nonexistent file: "@ + link_name + " -> "@ + link_target
        },
        VerifyErrorView::InvalidSymlinkTarget {
            link_name,
            lock_file_link_target,
            disk_link_target,
        } => {
            "symlink target does not match lock file: "@ + link_name + " -> "@ + or_none(
                disk_link_target,
            ) + " (expected "@ + lock_file_link_target + ")"@
        },
        VerifyErrorView::SymlinkNotFoundInLockFile { symlink_name, lock_file_path } => {
            "symlink from config not found in lock file: "@ + symlink_name
                + ", was it generated using the following lock file ? "@ + lock_file_path
        },
        VerifyErrorView::SymlinkNotFoundInConfig(path) => {
            "outdated symlink in lock file: "@ + path
                + " is not in config, run with --prune to delete outdated symlinks"@
        },
        VerifyErrorView::InvalidSymlinkTargetInLockFile {
            link_name,
            lock_file_link_target,
            config_link_target,
        } => {
            "invalid symlink target in lock file: "@ + link_name + " -> "@ + or_none(
                lock_file_link_target,
            ) + " (config expects "@ + config_link_target + ")"@
        },
    }
}

fn or_none_text(target: &Option<String>) -> (text: &str)
    ensures
        text@ == or_none(opt_view(*target)),
{
    match target {
        Some(t) => t.as_str(),
        None => "<NONE>",
    }
}

impl LockFileVerifyError {
    /// The sentence that tells this failure to the user.
    pub fn to_string(&self) -> (text: String)
        ensures
            text@ == message(self@),
    {
        match self {
            LockFileVerifyError::IoError(why) => {
                let mut text = String::from_str("IO error: ");
                text.append(why.as_str());
                text
            },
            LockFileVerifyError::NotASymlink(path) => {
                let mut text = String::from_str("not a symlink: ");
                text.append(path.as_str());
                text
            },
            LockFileVerifyError::SymlinkNotFound(path) => {
                let mut text = String::from_str("symlink not found: ");
                text.append(path.as_str());
                text
            },
            LockFileVerifyError::SymlinkTargetNotFound { link_name, link_target } => {
                let mut text = String::from_str("symlink points to nonexistent file: ");
                text.append(link_name.as_str());
                text.append(" -> ");
                text.append(link_target.as_str());
                text
            },
            LockFileVerifyError::InvalidSymlinkTarget {
                link_name,
                lock_file_link_target,
                disk_link_target,
            } => {
                let mut text = String::from_str("symlink target does not match lock file: ");
                text.append(link_name.as_str());
                text.append(" -> ");
                text.append(or_none_text(disk_link_target));
                text.append(" (expected ");
                text.append(lock_file_link_target.as_str());
                text.append(")");
                text
            },
            LockFileVerifyError::SymlinkNotFoundInLockFile { symlink_name, lock_file_path } => {
                let mut text = String::from_str("symlink from config not found in lock file: ");
                text.append(symlink_name.as_str());
                text.append(", was it generated using the following lock file ? ");
                text.append(lock_file_path.as_str());
                text
            },
            LockFileVerifyError::SymlinkNotFoundInConfig(path) => {
                let mut text = String::from_str("outdated symlink in lock file: ");
                text.append(path.as_str());
                text.append(" is not in config, run with --prune to delete outdated symlinks");
                text
            },
            LockFileVerifyError::InvalidSymlinkTargetInLockFile {
                link_name,
                lock_file_link_target,
                config_link_target,
            } => {
                let mut text = String::from_str("invalid symlink target in lock file: ");
                text.append(link_name.as_str());
                text.append(" -> ");
                text.append(or_none_text(lock_file_link_target));
                text.append(" (config expects ");
                text.append(config_link_target.as_str());
                text.append(")");
                text
            },
        }
    }
}

/// The first failure among `faults`, in order, if there is any.
pub open spec fn first_fault(faults: Seq<Option<VerifyErrorView>>) -> Option<VerifyErrorView>
    decreases faults.len(),
{
    if faults.len() == 0 {
        None
    } else {
        match faults[0] {
            Some(e) => Some(e),
            None => first_fault(faults.drop_first()),
        }
    }
}

/// What a check gives for its list of findings: the first failure, or
/// success where there is none.
pub open spec fn outcome(faults: Seq<Option<VerifyErrorView>>) -> Result<(), VerifyErrorView> {
    match first_fault(faults) {
        Some(e) => Err(e),
        None => Ok(()),
    }
}

/// What is wrong with the declared link `wanted`, held against the links of
/// the lock file: it is missing there, or has another target there.
pub open spec fn declared_fault(held: Seq<Link>, lock_file_path: Seq<char>, wanted: Link) -> Option<
    VerifyErrorView,
> {
    match lookup(held, wanted.0) {
        None => Some(
            VerifyErrorView::SymlinkNotFoundInLockFile { symlink_name: wanted.0, lock_file_path },
        ),
        Some(target) => if target != wanted.1 {
            Some(
                VerifyErrorView::InvalidSymlinkTargetInLockFile {
                    link_name: wanted.0,
                    lock_file_link_target: Some(target),
                    config_link_target: wanted.1,
                },
            )
        } else {
            None
        },
    }
}

/// What is wrong with the link `link` of the lock file, held against the
/// declared links: its name is not declared.
pub open spec fn stale_fault(declared: Seq<Link>, link: Link) -> Option<VerifyErrorView> {
    if has_name(declared, link.0) {
        None
    } else {
        Some(VerifyErrorView::SymlinkNotFoundInConfig(link.0))
    }
}

/// The findings on the declared links, one for each, in their order.
pub open spec fn declared_faults(held: Seq<Link>, lock_file_path: Seq<char>, declared: Seq<Link>) -> Seq<
    Option<VerifyErrorView>,
> {
    Seq::new(declared.len(), |i: int| declared_fault(held, lock_file_path, declared[i]))
}

/// The findings on the links of the lock file, one for each, in their order.
pub open spec fn stale_faults(held: Seq<Link>, declared: Seq<Link>) -> Seq<Option<VerifyErrorView>> {
    Seq::new(held.len(), |i: int| stale_fault(declared, held[i]))
}

/// The lock file held against the declarations.
///
/// The declared links are gone through first, in their order: the first
/// that the lock file lacks, or holds with another target, is the failure.
/// Where all of them are held as declared, the links of the lock file are
/// gone through in their order: the first whose name is not declared is the
/// failure.
pub open spec fn config_check(held: Seq<Link>, lock_file_path: Seq<char>, declared: Seq<Link>) -> Result<
    (),
    VerifyErrorView,
> {
    match first_fault(declared_faults(held, lock_file_path, declared)) {
        Some(e) => Err(e),
        None => outcome(stale_faults(held, declared)),
    }
}

/// What is wrong at the path `name`, given what stands there.
pub open spec fn kind_fault(name: Seq<char>, kind: PathKindView) -> Option<VerifyErrorView> {
    match kind {
        PathKindView::Missing => Some(VerifyErrorView::SymlinkNotFound(name)),
        PathKindView::Unreadable(why) => Some(VerifyErrorView::IoError(why)),
        PathKindView::NotSymlink => Some(VerifyErrorView::NotASymlink(name)),
        PathKindView::Symlink => None,
    }
}

/// What is wrong with where `link` leads, given where its name leads on
/// disk.
pub open spec fn target_fault(link: Link, resolved: ResolutionView) -> Option<VerifyErrorView> {
    match resolved {
        ResolutionView::Missing => Some(
            VerifyErrorView::SymlinkTargetNotFound { link_name: link.0, link_target: link.1 },
        ),
        ResolutionView::Unreadable(why) => Some(VerifyErrorView::IoError(why)),
        ResolutionView::Resolved(actual) => if actual != link.1 {
            Some(
                VerifyErrorView::InvalidSymlinkTarget {
                    link_name: link.0,
                    lock_file_link_target: link.1,
                    disk_link_target: Some(actual),
                },
            )
        } else {
            None
        },
    }
}

/// The findings on what stands at each link of the lock file, in order.
pub open spec fn kind_faults(held: Seq<Link>, seen: Seq<SightingView>) -> Seq<
    Option<VerifyErrorView>,
> {
    Seq::new(held.len(), |i: int| kind_fault(held[i].0, kind_at(seen, held[i].0)))
}

/// The findings on where each link of the lock file leads, in order.
pub open spec fn target_faults(held: Seq<Link>, seen: Seq<SightingView>) -> Seq<
    Option<VerifyErrorView>,
> {
    Seq::new(held.len(), |i: int| target_fault(held[i], resolution_at(seen, held[i].0)))
}

/// Whether the link `link` of the lock file is out of date: its name is not
/// declared, or is declared with another target.
pub open spec fn is_outdated(declared: Seq<Link>, link: Link) -> bool {
    lookup(declared, link.0) != Some(link.1)
}

/// The links of `held` that are out of date, in their order.
pub open spec fn outdated(held: Seq<Link>, declared: Seq<Link>) -> Seq<Link>
    decreases held.len(),
{
    if held.len() == 0 {
        Seq::empty()
    } else if is_outdated(declared, held.last()) {
        outdated(held.drop_last(), declared).push(held.last())
    } else {
        outdated(held.drop_last(), declared)
    }
}

/// What a result of a check holds, its texts as sequences of characters.
pub open spec fn result_view(result: Result<(), LockFileVerifyError>) -> Result<
    (),
    VerifyErrorView,
> {
    match result {
        Ok(()) => Ok(()),
        Err(e) => Err(e@),
    }
}

/// A check is decided at the first finding that is a failure.
pub proof fn lemma_first_fault_at(faults: Seq<Option<VerifyErrorView>>, i: int)
    requires
        0 <= i < faults.len(),
        forall|j: int| 0 <= j < i ==> (#[trigger] faults[j]) is None,
        faults[i] is Some,
    ensures
        first_fault(faults) == faults[i],
    decreases i,
{
    if i > 0 {
        assert(faults[0] is None);
        let rest = faults.drop_first();
        assert forall|j: int| 0 <= j < i - 1 implies (#[trigger] rest[j]) is None by {
            assert(faults[j + 1] is None);
        }
        lemma_first_fault_at(rest, i - 1);
    }
}

/// A check succeeds exactly when no finding is a failure.
pub proof fn lemma_first_fault_none(faults: Seq<Option<VerifyErrorView>>)
    ensures
        first_fault(faults) is None <==> (forall|j: int|
            0 <= j < faults.len() ==> (#[trigger] faults[j]) is None),
    decreases faults.len(),
{
    if faults.len() > 0 {
        let rest = faults.drop_first();
        lemma_first_fault_none(rest);
        if first_fault(faults) is None {
            assert forall|j: int| 0 <= j < faults.len() implies (#[trigger] faults[j]) is None by {
                if j > 0 {
                    assert(rest[j - 1] is None);
                }
            }
        }
        if forall|j: int| 0 <= j < faults.len() ==> (#[trigger] faults[j]) is None {
            assert(faults[0] is None);
            assert forall|j: int| 0 <= j < rest.len() implies (#[trigger] rest[j]) is None by {
                assert(faults[j + 1] is None);
            }
        }
    }
}

/// The record of the links that were created.
#[derive(Debug)]
pub struct LockFile {
    symlinks: SymlinkTable,
    file_path: String,
}

/// The name that a lock file has where none is given.
pub const DEFAULT_LOCK_FILE_PATH: &'static str = "symlonk-lock.toml";

impl LockFile {
    /// The links that the lock file holds, in the order in which their
    /// names were first set.
    pub closed spec fn links(&self) -> Seq<Link> {
        self.symlinks@
    }

    /// The path of the lock file itself.
    pub closed spec fn path(&self) -> Seq<char> {
        self.file_path@
    }

    /// The mapping from link names to targets that the lock file stands for.
    pub open spec fn map(&self) -> Map<Seq<char>, Seq<char>> {
        as_map(self.links())
    }

    /// A lock file at `file_path` that holds no link.
    pub fn new(file_path: String) -> (lock: Self)
        ensures
            lock.links() == Seq::<Link>::empty(),
            lock.path() == file_path@,
    {
        LockFile { symlinks: SymlinkTable::new(), file_path }
    }

    /// The path of a lock file where none is given.
    pub fn default_path() -> (path: String)
        ensures
            path@ == DEFAULT_LOCK_FILE_PATH@,
    {
        String::from_str(DEFAULT_LOCK_FILE_PATH)
    }

    /// The path of the lock file itself.
    pub fn file_path(&self) -> (path: &String)
        ensures
            path@ == self.path(),
    {
        &self.file_path
    }

    /// Records that the link `name` points to `target`, and returns the
    /// target recorded for it before, if there was one.
    pub fn set_symlink(&mut self, name: &str, target: &str) -> (previous: Option<String>)
        ensures
            final(self).path() == old(self).path(),
            final(self).links() == crate::table::inserted(old(self).links(), name@, target@),
            final(self).map() == old(self).map().insert(name@, target@),
            opt_view(previous) == lookup(old(self).links(), name@),
    {
        self.symlinks.insert(name, target)
    }

    /// Forgets the link `name`, and returns the target recorded for it, if
    /// there was one.
    pub fn remove_symlink(&mut self, name: &str) -> (previous: Option<String>)
        ensures
            final(self).path() == old(self).path(),
            final(self).links() == crate::table::removed(old(self).links(), name@),
            final(self).map() == old(self).map().remove(name@),
            opt_view(previous) == lookup(old(self).links(), name@),
    {
        self.symlinks.remove(name)
    }

    /// Forgets every link.
    pub fn remove_symlinks(&mut self)
        ensures
            final(self).path() == old(self).path(),
            final(self).links() == Seq::<Link>::empty(),
    {
        self.symlinks.clear()
    }

    /// The links that the lock file holds.
    pub fn symlinks(&self) -> (table: &SymlinkTable)
        ensures
            table@ == self.links(),
    {
        &self.symlinks
    }

    /// The number of links that the lock file holds.
    pub fn symlink_count(&self) -> (n: usize)
        ensures
            n == self.links().len(),
    {
        self.symlinks.len()
    }

    /// The target recorded for the link `name`, if there is one.
    pub fn get_symlink(&self, name: &str) -> (target: Option<&String>)
        ensures
            match target {
                Some(t) => lookup(self.links(), name@) == Some(t@),
                None => lookup(self.links(), name@) is None,
            },
    {
        self.symlinks.get(name)
    }

    /// Holds the lock file against the declared links.
    ///
    /// It succeeds exactly when the lock file and the declarations stand
    /// for the same mapping.  Otherwise the failure is the one that
    /// [`config_check`] picks: of the first declared link that the lock file
    /// lacks or holds with another target, or else of the first link of the
    /// lock file that is not declared.
    pub fn verify_config(&self, config_symlinks: &SymlinkTable) -> (result: Result<
        (),
        LockFileVerifyError,
    >)
        ensures
            result_view(result) == config_check(self.links(), self.path(), config_symlinks@),
            result is Ok <==> self.map() == config_symlinks.map(),
    {
        let ghost held = self.links();
        let ghost declared = config_symlinks@;
        let ghost wanted_faults = declared_faults(held, self.path(), declared);
        let ghost held_faults = stale_faults(held, declared);
        let wanted_len = config_symlinks.len();
        let held_len = self.symlinks.len();
        proof {
            lemma_config_check_ok(held, self.path(), declared);
        }
        let mut i: usize = 0;
        while i < wanted_len
            invariant
                i <= wanted_len,
                wanted_len == declared.len(),
                declared == config_symlinks@,
                held == self.links(),
                wanted_faults == declared_faults(held, self.path(), declared),
                config_check(held, self.path(), declared) is Ok <==> as_map(held) == as_map(
                    declared,
                ),
                forall|j: int| 0 <= j < i ==> (#[trigger] wanted_faults[j]) is None,
            decreases wanted_len - i,
        {
            match config_symlinks.entry(i) {
                Some((name, target)) => {
                    match self.symlinks.get(name.as_str()) {
                        Some(held_target) => {
                            if *held_target != *target {
                                let error = LockFileVerifyError::InvalidSymlinkTargetInLockFile {
                                    link_name: name.clone(),
                                    lock_file_link_target: Some(held_target.clone()),
                                    config_link_target: target.clone(),
                                };
                                proof {
                                    assert(wanted_faults[i as int] == Some(error@));
                                    lemma_first_fault_at(wanted_faults, i as int);
                                }
                                return Err(error);
                            }
                        },
                        None => {
                            let error = LockFileVerifyError::SymlinkNotFoundInLockFile {
                                symlink_name: name.clone(),
                                lock_file_path: self.file_path.clone(),
                            };
                            proof {
                                assert(wanted_faults[i as int] == Some(error@));
                                lemma_first_fault_at(wanted_faults, i as int);
                            }
                            return Err(error);
                        },
                    }
                },
                None => {},
            }
            assert(wanted_faults[i as int] is None);
            i = i + 1;
        }
        proof {
            lemma_first_fault_none(wanted_faults);
        }
        let mut k: usize = 0;
        while k < held_len
            invariant
                k <= held_len,
                held_len == held.len(),
                declared == config_symlinks@,
                held == self.links(),
                held_faults == stale_faults(held, declared),
                wanted_faults == declared_faults(held, self.path(), declared),
                first_fault(wanted_faults) is None,
                config_check(held, self.path(), declared) is Ok <==> as_map(held) == as_map(
                    declared,
                ),
                forall|j: int| 0 <= j < k ==> (#[trigger] held_faults[j]) is None,
            decreases held_len - k,
        {
            match self.symlinks.entry(k) {
                Some((name, _target)) => {
                    if !config_symlinks.contains(name.as_str()) {
                        let error = LockFileVerifyError::SymlinkNotFoundInConfig(name.clone());
                        proof {
                            assert(held_faults[k as int] == Some(error@));
                            lemma_first_fault_at(held_faults, k as int);
                        }
                        return Err(error);
                    }
                },
                None => {},
            }
            assert(held_faults[k as int] is None);
            k = k + 1;
        }
        proof {
            lemma_first_fault_none(held_faults);
        }
        Ok(())
    }

    /// Checks that a symbolic link stands at the name of every link of the
    /// lock file.
    ///
    /// The links are gone through in their order, and the first at whose
    /// name `disk` shows something else decides: nothing there, something
    /// that is no symbolic link, or a probe that failed.
    pub fn verify_symlinks_created(&self, disk: &DiskSnapshot) -> (result: Result<
        (),
        LockFileVerifyError,
    >)
        ensures
            result_view(result) == outcome(kind_faults(self.links(), disk@)),
            result is Ok <==> (forall|i: int|
                0 <= i < self.links().len() ==> kind_at(disk@, (#[trigger] self.links()[i]).0)
                    is Symlink),
    {
        let ghost held = self.links();
        let ghost faults = kind_faults(held, disk@);
        let held_len = self.symlinks.len();
        let mut k: usize = 0;
        while k < held_len
            invariant
                k <= held_len,
                held_len == held.len(),
                held == self.links(),
                faults == kind_faults(held, disk@),
                forall|j: int| 0 <= j < k ==> (#[trigger] faults[j]) is None,
            decreases held_len - k,
        {
            match self.symlinks.entry(k) {
                Some((name, _target)) => {
                    let fault = match disk.kind(name.as_str()) {
                        PathKind::Missing => Some(
                            LockFileVerifyError::SymlinkNotFound(name.clone()),
                        ),
                        PathKind::Unreadable(why) => Some(
                            LockFileVerifyError::IoError(why.clone()),
                        ),
                        PathKind::NotSymlink => Some(
                            LockFileVerifyError::NotASymlink(name.clone()),
                        ),
                        PathKind::Symlink => None,
                    };
                    match fault {
                        Some(error) => {
                            proof {
                                assert(faults[k as int] == Some(error@));
                                lemma_first_fault_at(faults, k as int);
                                lemma_first_fault_none(faults);
                                assert(!(kind_at(disk@, held[k as int].0) is Symlink));
                            }
                            return Err(error);
                        },
                        None => {},
                    }
                },
                None => {},
            }
            assert(faults[k as int] is None);
            k = k + 1;
        }
        proof {
            lemma_first_fault_none(faults);
            assert forall|i: int| 0 <= i < held.len() implies kind_at(
                disk@,
                (#[trigger] held[i]).0,
            ) is Symlink by {
                assert(faults[i] is None);
            }
        }
        Ok(())
    }

    /// Checks that every link of the lock file leads where the lock file
    /// says.
    ///
    /// The links are gone through in their order, and the first whose name
    /// leads elsewhere on `disk` decides: nowhere, to another path, or a
    /// probe that failed.
    pub fn verify_symlink_targets_exist(&self, disk: &DiskSnapshot) -> (result: Result<
        (),
        LockFileVerifyError,
    >)
        ensures
            result_view(result) == outcome(target_faults(self.links(), disk@)),
            result is Ok <==> (forall|i: int|
                0 <= i < self.links().len() ==> resolution_at(
                    disk@,
                    (#[trigger] self.links()[i]).0,
                ) == ResolutionView::Resolved(self.links()[i].1)),
    {
        let ghost held = self.links();
        let ghost faults = target_faults(held, disk@);
        let held_len = self.symlinks.len();
        let mut k: usize = 0;
        while k < held_len
            invariant
                k <= held_len,
                held_len == held.len(),
                held == self.links(),
                faults == target_faults(held, disk@),
                forall|j: int| 0 <= j < k ==> (#[trigger] faults[j]) is None,
            decreases held_len - k,
        {
            match self.symlinks.entry(k) {
                Some((name, target)) => {
                    let fault = match disk.resolution(name.as_str()) {
                        Resolution::Missing => Some(
                            LockFileVerifyError::SymlinkTargetNotFound {
                                link_name: name.clone(),
                                link_target: target.clone(),
                            },
                        ),
                        Resolution::Unreadable(why) => Some(
                            LockFileVerifyError::IoError(why.clone()),
                        ),
                        Resolution::Resolved(actual) => {
                            if *actual != *target {
                                Some(
                                    LockFileVerifyError::InvalidSymlinkTarget {
                                        link_name: name.clone(),
                                        lock_file_link_target: target.clone(),
                                        disk_link_target: Some(actual.clone()),
                                    },
                                )
                            } else {
                                None
                            }
                        },
                    };
                    match fault {
                        Some(error) => {
                            proof {
                                assert(faults[k as int] == Some(error@));
                                lemma_first_fault_at(faults, k as int);
                                lemma_first_fault_none(faults);
                                assert(resolution_at(disk@, held[k as int].0)
                                    != ResolutionView::Resolved(held[k as int].1));
                            }
                            return Err(error);
                        },
                        None => {},
                    }
                },
                None => {},
            }
            assert(faults[k as int] is None);
            k = k + 1;
        }
        proof {
            lemma_first_fault_none(faults);
            assert forall|i: int| 0 <= i < held.len() implies resolution_at(
                disk@,
                (#[trigger] held[i]).0,
            ) == ResolutionView::Resolved(held[i].1) by {
                assert(faults[i] is None);
            }
        }
        Ok(())
    }

    /// The links of the lock file that are out of date, in its order: those
    /// whose name is not declared, and those declared with another target.
    pub fn get_symlinks_to_delete(&self, config_symlinks: &SymlinkTable) -> (stale: Vec<
        (String, String),
    >)
        ensures
            links_of(stale@) == outdated(self.links(), config_symlinks@),
    {
        let ghost held = self.links();
        let ghost declared = config_symlinks@;
        let held_len = self.symlinks.len();
        let mut stale: Vec<(String, String)> = Vec::new();
        assert(links_of(stale@) =~= Seq::<Link>::empty());
        let mut k: usize = 0;
        while k < held_len
            invariant
                k <= held_len,
                held_len == held.len(),
                held == self.links(),
                declared == config_symlinks@,
                links_of(stale@) == outdated(held.take(k as int), declared),
            decreases held_len - k,
        {
            proof {
                assert(held.take(k + 1).drop_last() == held.take(k as int));
                assert(held.take(k + 1).last() == held[k as int]);
            }
            match self.symlinks.entry(k) {
                Some((name, target)) => {
                    let keep = match config_symlinks.get(name.as_str()) {
                        Some(wanted) => *wanted == *target,
                        None => false,
                    };
                    if !keep {
                        let ghost before = stale@;
                        stale.push((name.clone(), target.clone()));
                        assert(links_of(stale@) =~= links_of(before).push(held[k as int]));
                    }
                },
                None => {},
            }
            k = k + 1;
        }
        assert(held.take(k as int) == held);
        stale
    }
}

/// The lock file stands the check against the declarations exactly when
/// both stand for the same mapping from link names to targets.
pub proof fn lemma_config_check_ok(held: Seq<Link>, lock_file_path: Seq<char>, declared: Seq<Link>)
    requires
        distinct_names(held),
        distinct_names(declared),
    ensures
        config_check(held, lock_file_path, declared) is Ok <==> as_map(held) == as_map(declared),
{
    let wanted_faults = declared_faults(held, lock_file_path, declared);
    let held_faults = stale_faults(held, declared);
    lemma_first_fault_none(wanted_faults);
    lemma_first_fault_none(held_faults);
    crate::table::lemma_same_map(held, declared);
    if config_check(held, lock_file_path, declared) is Ok {
        assert forall|k: Seq<char>| lookup(held, k) == lookup(declared, k) by {
            if has_name(declared, k) {
                let i = choose|i: int| 0 <= i < declared.len() && (#[trigger] declared[i]).0 == k;
                lemma_index_of(declared, i);
                assert(wanted_faults[i] is None);
            } else if has_name(held, k) {
                let i = choose|i: int| 0 <= i < held.len() && (#[trigger] held[i]).0 == k;
                assert(held_faults[i] is None);
            }
        }
    }
    if as_map(held) == as_map(declared) {
        assert forall|i: int| 0 <= i < wanted_faults.len() implies (#[trigger] wanted_faults[i])
            is None by {
            lemma_index_of(declared, i);
            assert(lookup(held, declared[i].0) == lookup(declared, declared[i].0));
        }
        assert forall|i: int| 0 <= i < held_faults.len() implies (#[trigger] held_faults[i])
            is None by {
            lemma_index_of(held, i);
            assert(lookup(held, held[i].0) == lookup(declared, held[i].0));
        }
    }
}

/// A link is among the out-of-date links exactly when the lock file holds
/// it and the declarations do not give its name that target.
pub proof fn lemma_outdated_members(held: Seq<Link>, declared: Seq<Link>, link: Link)
    ensures
        outdated(held, declared).contains(link) <==> held.contains(link) && is_outdated(
            declared,
            link,
        ),
    decreases held.len(),
{
    if held.len() > 0 {
        let rest = held.drop_last();
        lemma_outdated_members(rest, declared, link);
        let out = outdated(held, declared);
        if out.contains(link) {
            let i = choose|i: int| 0 <= i < out.len() && out[i] == link;
            if is_outdated(declared, held.last()) && i == out.len() - 1 {
                assert(held[held.len() - 1] == link);
            } else {
                assert(outdated(rest, declared)[i] == link);
                let j = choose|j: int| 0 <= j < rest.len() && rest[j] == link;
                assert(held[j] == link);
            }
        }
        if held.contains(link) && is_outdated(declared, link) {
            let j = choose|j: int| 0 <= j < held.len() && held[j] == link;
            if j == held.len() - 1 {
                assert(out[out.len() - 1] == link);
            } else {
                assert(rest[j] == link);
                let i = choose|i: int|
                    0 <= i < outdated(rest, declared).len() && outdated(rest, declared)[i] == link;
                assert(out[i] == link);
            }
        }
    }
}

/// Of a lock file that holds a single link: it is out of date where the
/// declarations give its name another target, and not where they give it
/// the same.
pub proof fn lemma_outdated_single(name: Seq<char>, held_target: Seq<char>, wanted_target: Seq<char>)
    ensures
        held_target != wanted_target ==> outdated(
            seq![(name, held_target)],
            seq![(name, wanted_target)],
        ) == seq![(name, held_target)],
        outdated(seq![(name, held_target)], seq![(name, held_target)]) == Seq::<Link>::empty(),
{
    let held = seq![(name, held_target)];
    assert(held.drop_last() =~= Seq::<Link>::empty());
    let other = seq![(name, wanted_target)];
    assert(distinct_names(other));
    lemma_index_of(other, 0);
    assert(distinct_names(held));
    lemma_index_of(held, 0);
    assert(outdated(held.drop_last(), other) =~= Seq::<Link>::empty());
    assert(outdated(held.drop_last(), held) =~= Seq::<Link>::empty());
    assert(held.last() == (name, held_target));
    if held_target != wanted_target {
        assert(is_outdated(other, held.last()));
        assert(outdated(held, other) =~= held);
    }
    assert(!is_outdated(held, held.last()));
    assert(outdated(held, held) =~= Seq::<Link>::empty());
}

/// A lock file that stands the check against the declarations has no link
/// that is out of date.
pub proof fn lemma_checked_means_none_outdated(
    held: Seq<Link>,
    lock_file_path: Seq<char>,
    declared: Seq<Link>,
)
    requires
        distinct_names(held),
        distinct_names(declared),
        config_check(held, lock_file_path, declared) is Ok,
    ensures
        outdated(held, declared) == Seq::<Link>::empty(),
{
    lemma_config_check_ok(held, lock_file_path, declared);
    crate::table::lemma_same_map(held, declared);
    let out = outdated(held, declared);
    if out.len() > 0 {
        let link = out[0];
        assert(out.contains(link));
        lemma_outdated_members(held, declared, link);
        let j = choose|j: int| 0 <= j < held.len() && held[j] == link;
        lemma_index_of(held, j);
        assert(lookup(held, link.0) == lookup(declared, link.0));
    }
    assert(out =~= Seq::<Link>::empty());
}

/// Of a lock file that holds the single link `name` to `target`, where
/// `name` leads to another path on disk: the check of the targets fails and
/// names the link, the target recorded and the path found.
pub proof fn lemma_drift_is_detected(
    name: Seq<char>,
    target: Seq<char>,
    actual: Seq<char>,
    seen: Seq<SightingView>,
)
    requires
        actual != target,
        resolution_at(seen, name) == ResolutionView::Resolved(actual),
    ensures
        outcome(target_faults(seq![(name, target)], seen)) == Err::<(), VerifyErrorView>(
            VerifyErrorView::InvalidSymlinkTarget {
                link_name: name,
                lock_file_link_target: target,
                disk_link_target: Some(actual),
            },
        ),
{
    let faults = target_faults(seq![(name, target)], seen);
    lemma_first_fault_at(faults, 0);
}

/// What the three checks of a lock file gave.
#[derive(Debug, PartialEq, Eq)]
pub struct VerifyReport {
    /// The check against the declarations, where declarations were given.
    pub config: Option<Result<(), LockFileVerifyError>>,
    /// The check that every link exists as a symbolic link.
    pub created: Result<(), LockFileVerifyError>,
    /// The check that every link leads where the lock file says.
    pub targets: Result<(), LockFileVerifyError>,
}

/// [`VerifyReport`] with its texts as sequences of characters.
pub struct VerifyReportView {
    pub config: Option<Result<(), VerifyErrorView>>,
    pub created: Result<(), VerifyErrorView>,
    pub targets: Result<(), VerifyErrorView>,
}

impl View for VerifyReport {
    type V = VerifyReportView;

    open spec fn view(&self) -> VerifyReportView {
        VerifyReportView {
            config: match self.config {
                Some(result) => Some(result_view(result)),
                None => None,
            },
            created: result_view(self.created),
            targets: result_view(self.targets),
        }
    }
}

/// What the checks give for the links `held` of the lock file at
/// `lock_file_path`: the check against `declared` where declarations are
/// given, and the two checks against what was `seen` on disk.
pub open spec fn report_of(
    held: Seq<Link>,
    lock_file_path: Seq<char>,
    declared: Option<Seq<Link>>,
    seen: Seq<SightingView>,
) -> VerifyReportView {
    VerifyReportView {
        config: match declared {
            Some(links) => Some(config_check(held, lock_file_path, links)),
            None => None,
        },
        created: outcome(kind_faults(held, seen)),
        targets: outcome(target_faults(held, seen)),
    }
}

/// The links that an optional table holds.
pub open spec fn opt_links(table: Option<&SymlinkTable>) -> Option<Seq<Link>> {
    match table {
        Some(t) => Some(t@),
        None => None,
    }
}

impl VerifyReport {
    /// Whether every check that was made succeeded.
    pub open spec fn clean(&self) -> bool {
        &&& !(self.config matches Some(Err(_)))
        &&& self.created is Ok
        &&& self.targets is Ok
    }

    /// Whether every check that was made succeeded.
    pub fn is_clean(&self) -> (clean: bool)
        ensures
            clean == self.clean(),
    {
        let config_ok = match &self.config {
            Some(Err(_)) => false,
            _ => true,
        };
        config_ok && self.created.is_ok() && self.targets.is_ok()
    }
}

/// Runs every check of the lock file and reports each result: the check
/// against the declarations where `config_symlinks` is given, then the two
/// checks against the disk.  No check is left out because another failed.
pub fn verify(lock_file: &LockFile, config_symlinks: Option<&SymlinkTable>, disk: &DiskSnapshot) -> (report:
    VerifyReport)
    ensures
        report@ == report_of(
            lock_file.links(),
            lock_file.path(),
            opt_links(config_symlinks),
            disk@,
        ),
{
    let config = match config_symlinks {
        Some(declared) => Some(lock_file.verify_config(declared)),
        None => None,
    };
    let created = lock_file.verify_symlinks_created(disk);
    let targets = lock_file.verify_symlink_targets_exist(disk);
    VerifyReport { config, created, targets }
}

/// What reading a lock file gave.
#[derive(Debug, PartialEq, Eq)]
pub enum LockLoad {
    /// The file was read: the links it holds, each a name and a target, in
    /// the order of the file.
    Loaded(Vec<(String, String)>),
    /// There is no file at the path.
    NotFound,
    /// The file could not be read; the text says how.
    Unreadable(String),
    /// The text of the file is not a lock file; the text says how.
    Malformed(String),
}

/// Why a lock file could not be had.
#[derive(Debug, PartialEq, Eq)]
pub enum ParseLockFileError {
    /// The text of the file is not a lock file; the text says how.
    Deserialize(String),
    /// There is no file at the path.
    NotFound,
    /// The file could not be read; the text says how.
    Io(String),
}

/// [`ParseLockFileError`] with its texts as sequences of characters.
pub enum ParseLockErrorView {
    Deserialize(Seq<char>),
    NotFound,
    Io(Seq<char>),
}

impl View for ParseLockFileError {
    type V = ParseLockErrorView;

    open spec fn view(&self) -> ParseLockErrorView {
        match self {
            ParseLockFileError::Deserialize(why) => ParseLockErrorView::Deserialize(why@),
            ParseLockFileError::NotFound => ParseLockErrorView::NotFound,
            ParseLockFileError::Io(why) => ParseLockErrorView::Io(why@),
        }
    }
}

/// The lock file at `file_path`, from what reading it gave.
///
/// A file that was read gives a lock file with its links, set in the order
/// of the file.  Anything else gives the matching failure.
pub fn parse_lock_file(file_path: &str, load: LockLoad) -> (result: Result<
    LockFile,
    ParseLockFileError,
>)
    ensures
        match load {
            LockLoad::Loaded(pairs) => result matches Ok(lock) && lock.path() == file_path@
                && lock.links() == absorbed(Seq::empty(), links_of(pairs@)),
            LockLoad::NotFound => result matches Err(e) && e@ == ParseLockErrorView::NotFound,
            LockLoad::Unreadable(why) => result matches Err(e) && e@ == ParseLockErrorView::Io(
                why@,
            ),
            LockLoad::Malformed(why) => result matches Err(e) && e@
                == ParseLockErrorView::Deserialize(why@),
        },
{
    match load {
        LockLoad::Loaded(pairs) => Ok(
            LockFile { symlinks: table_of(&pairs), file_path: file_path.to_owned() },
        ),
        LockLoad::NotFound => Err(ParseLockFileError::NotFound),
        LockLoad::Unreadable(why) => Err(ParseLockFileError::Io(why)),
        LockLoad::Malformed(why) => Err(ParseLockFileError::Deserialize(why)),
    }
}

} // verus!
