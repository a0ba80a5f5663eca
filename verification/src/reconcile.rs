//! One run: from the declared links and the lock file to the links on
//! disk and the lock file that records them.
//!
//! A run first deletes, where that is asked for, the links of the lock
//! file that are out of date, then makes the declared links one by one,
//! then has the lock file saved, and last, where that is asked for, checks
//! the lock file against the declarations and the disk.  The lock file forgets a link once it is
//! deleted and records a link once it is made, so that it never names a
//! link that the run did not make or find made before.  A link that cannot
//! be made ends the making of links; the lock file is still saved with what
//! was made until then, and the run ends with that failure.
//!
//! As everywhere in this library the run decides and its caller acts:
//! [`Reconciler::step`] takes what came of the last request and answers
//! with the next.
use vstd::prelude::*;
use crate::disk::{DiskSnapshot, SightingView};
use crate::link::{create_link, lemma_task_keeps_to_its_link, next, CreateLinkOptions, LinkError, LinkErrorView, LinkPhase,
    LinkReply, LinkReplyView, LinkRequest, LinkRequestView, LinkTask, OccupantView, TaskView};
use crate::lock::{lemma_outdated_members, outdated, report_of, verify, LockFile,
    ParseLockErrorView, ParseLockFileError, VerifyReport, VerifyReportView};
use crate::table::{as_map, distinct_names, has_name, inserted, lemma_inserted, lemma_removed,
    links_of, removed, Link, SymlinkTable};

verus! {

/// What to do where there is no lock file yet.
#[derive(Clone, Copy, Debug, PartialEq, Eq, Structural)]
pub enum MissingLockPolicy {
    /// Start a new one.
    Create,
    /// Start a new one if the user agrees.
    Ask,
    /// Give up.
    Fail,
}

/// Whether the user is to be asked before a lock file is started.
pub open spec fn consent_needed(error: ParseLockErrorView, policy: MissingLockPolicy) -> bool {
    error is NotFound && policy == MissingLockPolicy::Ask
}

/// Whether a lock file is started where there was none: always under
/// [`MissingLockPolicy::Create`], never under [`MissingLockPolicy::Fail`],
/// and under [`MissingLockPolicy::Ask`] where the answer begins with `y` or
/// `Y`.
pub open spec fn starts_lock_file(policy: MissingLockPolicy, answer: Option<char>) -> bool {
    match policy {
        MissingLockPolicy::Create => true,
        MissingLockPolicy::Ask => answer == Some('y') || answer == Some('Y'),
        MissingLockPolicy::Fail => false,
    }
}

/// Whether the user is to be asked before a lock file is started: where
/// the lock file was not found and the policy is to ask.
pub fn needs_consent(error: &ParseLockFileError, policy: MissingLockPolicy) -> (asked: bool)
    ensures
        asked == consent_needed(error@, policy),
{
    match (error, policy) {
        (ParseLockFileError::NotFound, MissingLockPolicy::Ask) => true,
        _ => false,
    }
}

/// The lock file to go on with where none was found at `file_path`: a new
/// one without links where the policy, and under
/// [`MissingLockPolicy::Ask`] the user's answer, allow it, and none
/// otherwise.
pub fn recover_missing(file_path: String, policy: MissingLockPolicy, answer: Option<char>) -> (lock:
    Option<LockFile>)
    ensures
        lock is Some <==> starts_lock_file(policy, answer),
        lock matches Some(l) ==> l.path() == file_path@ && l.links() == Seq::<Link>::empty(),
{
    let start = match policy {
        MissingLockPolicy::Create => true,
        MissingLockPolicy::Ask => match answer {
            Some(key) => key == 'y' || key == 'Y',
            None => false,
        },
        MissingLockPolicy::Fail => false,
    };
    if start {
        Some(LockFile::new(file_path))
    } else {
        None
    }
}

/// What a run asks of its caller.
#[derive(Debug, PartialEq, Eq)]
pub enum RunRequest {
    /// Delete the link at this path.
    Delete(String),
    /// Do this for the link that is being made.
    Link(LinkRequest),
    /// Save the lock file as it stands.
    Save,
    /// Look at the name of every link of the lock file, and hand back what
    /// was seen.
    Inspect,
    /// Nothing more: the run has ended, with the failure that ended it if
    /// there was one, and else with what the checks gave if they were asked
    /// for.
    Finished(Result<Option<VerifyReport>, LinkError>),
}

/// [`RunRequest`] with its texts as sequences of characters.
pub enum RunRequestView {
    Delete(Seq<char>),
    Link(LinkRequestView),
    Save,
    Inspect,
    Finished(Result<Option<VerifyReportView>, LinkErrorView>),
}

impl View for RunRequest {
    type V = RunRequestView;

    open spec fn view(&self) -> RunRequestView {
        match self {
            RunRequest::Delete(path) => RunRequestView::Delete(path@),
            RunRequest::Link(request) => RunRequestView::Link(request@),
            RunRequest::Save => RunRequestView::Save,
            RunRequest::Inspect => RunRequestView::Inspect,
            RunRequest::Finished(result) => RunRequestView::Finished(
                match result {
                    Ok(Some(report)) => Ok(Some(report@)),
                    Ok(None) => Ok(None),
                    Err(error) => Err(error@),
                },
            ),
        }
    }
}

/// What came of a request of a run.
#[derive(Debug, PartialEq, Eq)]
pub enum RunReply {
    /// Whether the link of a [`RunRequest::Delete`] was deleted.
    Deleted(bool),
    /// What came of a [`RunRequest::Link`].
    Link(LinkReply),
    /// The lock file was saved.
    Saved,
    /// The lock file could not be saved; the text says how.
    SaveFailed(String),
    /// What was seen at the names of the links of the lock file.
    Seen(DiskSnapshot),
}

/// [`RunReply`] with its texts as sequences of characters.
pub enum RunReplyView {
    Deleted(bool),
    Link(LinkReplyView),
    Saved,
    SaveFailed(Seq<char>),
    Seen(Seq<SightingView>),
}

impl View for RunReply {
    type V = RunReplyView;

    open spec fn view(&self) -> RunReplyView {
        match self {
            RunReply::Deleted(done) => RunReplyView::Deleted(*done),
            RunReply::Link(reply) => RunReplyView::Link(reply@),
            RunReply::Saved => RunReplyView::Saved,
            RunReply::SaveFailed(why) => RunReplyView::SaveFailed(why@),
            RunReply::Seen(seen) => RunReplyView::Seen(seen@),
        }
    }
}

/// Where a run stands.
pub enum RunPhase {
    /// It waits for the deletion of the out-of-date link at this place.
    Pruning(nat),
    /// It makes the declared link at this place.
    Linking(nat),
    /// It waits for the lock file to be saved.
    Saving,
    /// It waits for what is seen on disk.
    Inspecting,
    /// It has ended.
    Finished,
}

/// The state of a run.
pub struct RunView {
    /// The links of the lock file.
    pub lock: Seq<Link>,
    /// The path of the lock file.
    pub lock_path: Seq<char>,
    /// The declared links, in the order in which they are made.
    pub desired: Seq<Link>,
    /// The links to delete before any link is made.
    pub stale: Seq<Link>,
    /// Whether the lock file is checked once it is saved.
    pub check: bool,
    /// The choices made for the whole run.
    pub options: CreateLinkOptions,
    /// Where the run stands.
    pub phase: RunPhase,
    /// The making of the link at hand, while links are made.
    pub task: Option<TaskView>,
    /// The failure that ended the making of links, if one did.
    pub failure: Option<LinkErrorView>,
}

/// The state in which a run begins: no choice made, nothing failed, and to
/// delete, where pruning is asked for, the links of the lock file that are
/// out of date.
pub open spec fn initial(
    lock: Seq<Link>,
    lock_path: Seq<char>,
    desired: Seq<Link>,
    prune: bool,
    check: bool,
) -> RunView {
    RunView {
        lock,
        lock_path,
        desired,
        stale: if prune {
            outdated(lock, desired)
        } else {
            Seq::empty()
        },
        check,
        options: CreateLinkOptions { overwrite_all: false, backup_all: false, skip_all: false },
        phase: RunPhase::Pruning(0),
        task: None,
        failure: None,
    }
}

/// The run goes on to save the lock file.
pub open spec fn to_save(run: RunView) -> (RunView, RunRequestView) {
    (RunView { phase: RunPhase::Saving, task: None, ..run }, RunRequestView::Save)
}

/// The run ends.
pub open spec fn to_end(run: RunView, result: Result<Option<VerifyReportView>, LinkErrorView>) -> (
    RunView,
    RunRequestView,
) {
    (RunView { phase: RunPhase::Finished, task: None, ..run }, RunRequestView::Finished(result))
}

/// The run goes on to make the declared link at place `i`, and to save the
/// lock file where there is no such link.
pub open spec fn to_link_at(run: RunView, i: nat) -> (RunView, RunRequestView) {
    if i < run.desired.len() {
        let link = run.desired[i as int];
        (
            RunView {
                phase: RunPhase::Linking(i),
                task: Some(TaskView { name: link.0, target: link.1, phase: LinkPhase::Probing }),
                ..run
            },
            RunRequestView::Link(LinkRequestView::Probe(link.0)),
        )
    } else {
        to_save(run)
    }
}

/// The run goes on to delete the out-of-date link at place `i`, and to make
/// the declared links where there is no such link.
pub open spec fn to_prune_at(run: RunView, i: nat) -> (RunView, RunRequestView) {
    if i < run.stale.len() {
        (
            RunView { phase: RunPhase::Pruning(i), task: None, ..run },
            RunRequestView::Delete(run.stale[i as int].0),
        )
    } else {
        to_link_at(run, 0)
    }
}

/// The first request of a run that begins in `run`.
pub open spec fn begin(run: RunView) -> (RunView, RunRequestView) {
    to_prune_at(run, 0)
}

/// What a run does with a reply: its state afterwards, and its next
/// request.
///
/// - A link deleted is forgotten by the lock file; a link that could not
///   be deleted stays in it.  Either way the run goes on to the next link
///   to delete, and after the last to the first link to make.
/// - While a link is made the reply goes to that task.  When the task ends
///   with the link made, the lock file records the link; when it ends with
///   nothing made, the lock file stays as it is; either way the run goes
///   on to the next link, and after the last to saving the lock file.  When
///   the task ends with a failure, no further link is made and the run goes
///   on to saving the lock file.
/// - Once the lock file is saved the run ends with the failure that ended
///   the making of links if there was one.  Where there was none and the
///   checks are asked for, the run asks what is on disk, and ends with what
///   the checks of the lock file against the declared links and against
///   what was seen give.  Where no check is asked for it ends at once.
///   Where the lock file could not be saved the run ends with that failure.
/// - A reply that was not asked for ends the run as out of turn.
pub open spec fn run_next(run: RunView, reply: RunReplyView) -> (RunView, RunRequestView) {
    match (run.phase, reply) {
        (RunPhase::Pruning(i), RunReplyView::Deleted(done)) => if i < run.stale.len() {
            to_prune_at(
                RunView {
                    lock: if done {
                        removed(run.lock, run.stale[i as int].0)
                    } else {
                        run.lock
                    },
                    ..run
                },
                i + 1,
            )
        } else {
            to_end(run, Err(LinkErrorView::OutOfTurn))
        },
        (RunPhase::Linking(i), RunReplyView::Link(link_reply)) => if i < run.desired.len()
            && run.task is Some {
            let (task, options, request) = next(run.task->0, run.options, link_reply);
            match request {
                LinkRequestView::Finish(Ok(made)) => to_link_at(
                    RunView {
                        lock: if made {
                            inserted(run.lock, run.desired[i as int].0, run.desired[i as int].1)
                        } else {
                            run.lock
                        },
                        options,
                        ..run
                    },
                    i + 1,
                ),
                LinkRequestView::Finish(Err(error)) => to_save(
                    RunView { options, failure: Some(error), ..run },
                ),
                _ => (
                    RunView { options, task: Some(task), ..run },
                    RunRequestView::Link(request),
                ),
            }
        } else {
            to_end(run, Err(LinkErrorView::OutOfTurn))
        },
        (RunPhase::Saving, RunReplyView::Saved) => match run.failure {
            Some(error) => to_end(run, Err(error)),
            None => if run.check {
                (
                    RunView { phase: RunPhase::Inspecting, task: None, ..run },
                    RunRequestView::Inspect,
                )
            } else {
                to_end(run, Ok(None))
            },
        },
        (RunPhase::Inspecting, RunReplyView::Seen(seen)) => to_end(
            run,
            Ok(Some(report_of(run.lock, run.lock_path, Some(run.desired), seen))),
        ),
        (RunPhase::Saving, RunReplyView::SaveFailed(why)) => to_end(
            run,
            Err(LinkErrorView::Io(why)),
        ),
        _ => to_end(run, Err(LinkErrorView::OutOfTurn)),
    }
}

/// The phase of a run as the run holds it.
#[derive(Debug, Clone, Copy)]
enum Stage {
    Pruning(usize),
    Linking(usize),
    Saving,
    Inspecting,
    Finished,
}

/// A run in progress.
#[derive(Debug)]
pub struct Reconciler {
    lock: LockFile,
    desired: SymlinkTable,
    stale: Vec<(String, String)>,
    check: bool,
    options: CreateLinkOptions,
    stage: Stage,
    task: Option<LinkTask>,
    failure: Option<LinkError>,
}

impl View for Reconciler {
    type V = RunView;

    closed spec fn view(&self) -> RunView {
        RunView {
            lock: self.lock.links(),
            lock_path: self.lock.path(),
            desired: self.desired@,
            stale: links_of(self.stale@),
            check: self.check,
            options: self.options,
            phase: match self.stage {
                Stage::Pruning(i) => RunPhase::Pruning(i as nat),
                Stage::Linking(i) => RunPhase::Linking(i as nat),
                Stage::Saving => RunPhase::Saving,
                Stage::Inspecting => RunPhase::Inspecting,
                Stage::Finished => RunPhase::Finished,
            },
            task: match self.task {
                Some(task) => Some(task@),
                None => None,
            },
            failure: match self.failure {
                Some(error) => Some(error@),
                None => None,
            },
        }
    }
}

impl Reconciler {
    /// Begins a run on the lock file `lock_file` towards the declared links
    /// `symlinks`: the run, and its first request.  Where `prune` is set
    /// the run first deletes the links of the lock file that are out of
    /// date.  Where `check` is set the run ends by checking the lock file
    /// against the declared links and against the disk.
    pub fn new(lock_file: LockFile, symlinks: SymlinkTable, prune: bool, check: bool) -> (started:
        (Self, RunRequest))
        ensures
            (started.0@, started.1@) == begin(
                initial(lock_file.links(), lock_file.path(), symlinks@, prune, check),
            ),
    {
        let stale = if prune {
            lock_file.get_symlinks_to_delete(&symlinks)
        } else {
            let none: Vec<(String, String)> = Vec::new();
            assert(links_of(none@) =~= Seq::<Link>::empty());
            none
        };
        let mut run = Reconciler {
            lock: lock_file,
            desired: symlinks,
            stale,
            check,
            options: CreateLinkOptions::new(false, false, false),
            stage: Stage::Pruning(0),
            task: None,
            failure: None,
        };
        let request = run.to_prune_at(0);
        (run, request)
    }

    /// The lock file as the run has it now.
    pub fn lock_file(&self) -> (lock: &LockFile)
        ensures
            lock.links() == self@.lock,
            lock.path() == self@.lock_path,
    {
        &self.lock
    }

    /// The choices made for the whole run so far.
    pub fn options(&self) -> (options: &CreateLinkOptions)
        ensures
            *options == self@.options,
    {
        &self.options
    }

    /// Ends the run and hands out its lock file.
    pub fn into_lock_file(self) -> (lock: LockFile)
        ensures
            lock.links() == self@.lock,
            lock.path() == self@.lock_path,
    {
        self.lock
    }

    fn to_save(&mut self) -> (request: RunRequest)
        ensures
            (final(self)@, request@) == to_save(old(self)@),
    {
        self.stage = Stage::Saving;
        self.task = None;
        RunRequest::Save
    }

    fn to_end(&mut self, result: Result<Option<VerifyReport>, LinkError>) -> (request: RunRequest)
        ensures
            (final(self)@, request@) == to_end(
                old(self)@,
                match result {
                    Ok(Some(report)) => Ok(Some(report@)),
                    Ok(None) => Ok(None),
                    Err(error) => Err(error@),
                },
            ),
    {
        self.stage = Stage::Finished;
        self.task = None;
        RunRequest::Finished(result)
    }

    fn to_link_at(&mut self, i: usize) -> (request: RunRequest)
        ensures
            (final(self)@, request@) == to_link_at(old(self)@, i as nat),
    {
        match self.desired.entry(i) {
            Some((name, target)) => {
                let (task, request) = create_link(name.as_str(), target.as_str());
                self.stage = Stage::Linking(i);
                self.task = Some(task);
                RunRequest::Link(request)
            },
            None => self.to_save(),
        }
    }

    fn to_prune_at(&mut self, i: usize) -> (request: RunRequest)
        ensures
            (final(self)@, request@) == to_prune_at(old(self)@, i as nat),
    {
        if i < self.stale.len() {
            self.stage = Stage::Pruning(i);
            self.task = None;
            RunRequest::Delete(self.stale[i].0.clone())
        } else {
            self.to_link_at(0)
        }
    }

    /// Takes what came of the last request and answers with the next, as
    /// [`run_next`] says.
    pub fn step(&mut self, reply: RunReply) -> (request: RunRequest)
        ensures
            (final(self)@, request@) == run_next(old(self)@, reply@),
    {
        let ghost before = self@;
        match (&self.stage, reply) {
            (Stage::Pruning(at), RunReply::Deleted(done)) => {
                let i = *at;
                if i < self.stale.len() {
                    assert(before.stale[i as int].0 == self.stale@[i as int].0@);
                    if done {
                        self.lock.remove_symlink(self.stale[i].0.as_str());
                    }
                    self.to_prune_at(i + 1)
                } else {
                    self.to_end(Err(LinkError::OutOfTurn))
                }
            },
            (Stage::Linking(at), RunReply::Link(link_reply)) => {
                let i = *at;
                if i < self.desired.len() && self.task.is_some() {
                    let mut task = self.task.take().unwrap();
                    let request = task.step(&mut self.options, link_reply);
                    match request {
                        LinkRequest::Finish(Ok(made)) => {
                            if made {
                                match self.desired.entry(i) {
                                    Some((name, target)) => {
                                        self.lock.set_symlink(name.as_str(), target.as_str());
                                    },
                                    None => {},
                                }
                            }
                            self.to_link_at(i + 1)
                        },
                        LinkRequest::Finish(Err(error)) => {
                            self.failure = Some(error);
                            self.to_save()
                        },
                        other => {
                            self.task = Some(task);
                            RunRequest::Link(other)
                        },
                    }
                } else {
                    self.to_end(Err(LinkError::OutOfTurn))
                }
            },
            (Stage::Saving, RunReply::Saved) => {
                match &self.failure {
                    Some(LinkError::Io(why)) => {
                        let error = LinkError::Io(why.clone());
                        self.to_end(Err(error))
                    },
                    Some(LinkError::OutOfTurn) => self.to_end(Err(LinkError::OutOfTurn)),
                    None => {
                        if self.check {
                            self.stage = Stage::Inspecting;
                            self.task = None;
                            RunRequest::Inspect
                        } else {
                            self.to_end(Ok(None))
                        }
                    },
                }
            },
            (Stage::Inspecting, RunReply::Seen(seen)) => {
                let report = verify(&self.lock, Some(&self.desired), &seen);
                self.to_end(Ok(Some(report)))
            },
            (Stage::Saving, RunReply::SaveFailed(why)) => self.to_end(Err(LinkError::Io(why))),
            _ => self.to_end(Err(LinkError::OutOfTurn)),
        }
    }
}

/// What a run does with the given replies, handed to it one after the
/// other: its state after the last, and its answers in order.
pub open spec fn replay(run: RunView, replies: Seq<RunReplyView>) -> (RunView, Seq<RunRequestView>)
    decreases replies.len(),
{
    if replies.len() == 0 {
        (run, Seq::empty())
    } else {
        let (mid, requests) = replay(run, replies.drop_last());
        let (after, request) = run_next(mid, replies.last());
        (after, requests.push(request))
    }
}

/// The replies of a disk on which every declared link is found made: for
/// each link, in order, that a link to its target stands at its name; and
/// after the last that the lock file was saved.
pub open spec fn all_found_made(desired: Seq<Link>) -> Seq<RunReplyView> {
    Seq::new(
        desired.len(),
        |i: int| RunReplyView::Link(LinkReplyView::Occupant(OccupantView::Link(desired[i].1))),
    ).push(RunReplyView::Saved)
}

proof fn lemma_found_made_step(run: RunView, k: nat)
    requires
        k < run.desired.len(),
        !run.options.decided(),
    ensures
        run_next(
            to_link_at(run, k).0,
            RunReplyView::Link(
                LinkReplyView::Occupant(OccupantView::Link(run.desired[k as int].1)),
            ),
        ) == to_link_at(run, k + 1),
{
}

proof fn lemma_found_made_prefix(run: RunView, k: nat)
    requires
        k <= run.desired.len(),
        !run.options.decided(),
    ensures
        replay(to_link_at(run, 0).0, all_found_made(run.desired).take(k as int)) == (
            to_link_at(run, k).0,
            Seq::new(k, |i: int| to_link_at(run, (i + 1) as nat).1),
        ),
    decreases k,
{
    let replies = all_found_made(run.desired);
    if k == 0 {
        assert(replay(to_link_at(run, 0).0, replies.take(0)).1 =~= Seq::new(
            0,
            |i: int| to_link_at(run, (i + 1) as nat).1,
        ));
    } else {
        let j = (k - 1) as nat;
        lemma_found_made_prefix(run, j);
        lemma_found_made_step(run, j);
        assert(replies.take(k as int).drop_last() == replies.take(j as int));
        assert(replies.take(k as int).last() == RunReplyView::Link(
            LinkReplyView::Occupant(OccupantView::Link(run.desired[j as int].1)),
        ));
        assert(replay(to_link_at(run, 0).0, replies.take(k as int)).1 =~= Seq::new(
            k,
            |i: int| to_link_at(run, (i + 1) as nat).1,
        ));
    }
}

/// A second run changes nothing: where no link of the lock file is out of
/// date, or pruning is not asked for, and every declared link is found
/// made, the run asks only to look at each link's name and then to save the
/// lock file.  It asks for nothing to be deleted, moved or made, and once
/// the lock file is saved the lock file and the options are as they were;
/// the run has then ended without failure or, where the checks are asked
/// for, asks what is on disk.
pub proof fn lemma_second_run_changes_nothing(
    lock: Seq<Link>,
    lock_path: Seq<char>,
    desired: Seq<Link>,
    prune: bool,
    check: bool,
)
    requires
        prune ==> outdated(lock, desired).len() == 0,
    ensures
        ({
            let start = begin(initial(lock, lock_path, desired, prune, check));
            let end = replay(start.0, all_found_made(desired));
            let n = desired.len() as int;
            &&& start.1 == if n > 0 {
                RunRequestView::Link(LinkRequestView::Probe(desired[0].0))
            } else {
                RunRequestView::Save
            }
            &&& end.1.len() == n + 1
            &&& forall|i: int|
                0 <= i < n - 1 ==> #[trigger] end.1[i] == RunRequestView::Link(
                    LinkRequestView::Probe(desired[i + 1].0),
                )
            &&& n > 0 ==> end.1[n - 1] == RunRequestView::Save
            &&& end.1[n] == if check {
                RunRequestView::Inspect
            } else {
                RunRequestView::Finished(Ok(None))
            }
            &&& check ==> end.0.phase is Inspecting
            &&& !check ==> end.0.phase is Finished
            &&& end.0.lock == lock
            &&& end.0.lock_path == lock_path
            &&& end.0.options == initial(lock, lock_path, desired, prune, check).options
        }),
{
    let run = initial(lock, lock_path, desired, prune, check);
    let n = desired.len();
    let replies = all_found_made(desired);
    assert(run.stale.len() == 0);
    lemma_found_made_prefix(run, n);
    assert(replies.drop_last() =~= replies.take(n as int));
    assert(replies.last() == RunReplyView::Saved);
    let end = replay(begin(run).0, replies);
    assert forall|i: int| 0 <= i < n - 1 implies #[trigger] end.1[i] == RunRequestView::Link(
        LinkRequestView::Probe(desired[i + 1].0),
    ) by {
        assert(end.1[i] == to_link_at(run, (i + 1) as nat).1);
    }
    if n > 0 {
        assert(end.1[n - 1] == to_link_at(run, n).1);
    }
}

/// The lock file names only what the run answers for: whatever the reply,
/// every name in the lock file after it was in the lock file before it or
/// is the name of a declared link.
pub proof fn lemma_lock_names_are_accounted_for(run: RunView, reply: RunReplyView, name: Seq<char>)
    requires
        distinct_names(run.lock),
        has_name(run_next(run, reply).0.lock, name),
    ensures
        has_name(run.lock, name) || has_name(run.desired, name),
        distinct_names(run_next(run, reply).0.lock),
{
    let after = run_next(run, reply).0.lock;
    match (run.phase, reply) {
        (RunPhase::Pruning(i), RunReplyView::Deleted(done)) => {
            if i < run.stale.len() && done {
                lemma_removed(run.lock, run.stale[i as int].0);
                assert(as_map(after).dom().contains(name));
                assert(as_map(run.lock).dom().contains(name));
            }
        },
        (RunPhase::Linking(i), RunReplyView::Link(link_reply)) => {
            if i < run.desired.len() && run.task is Some {
                let link = run.desired[i as int];
                lemma_inserted(run.lock, link.0, link.1);
                if after != run.lock {
                    assert(after == inserted(run.lock, link.0, link.1));
                    assert(as_map(after).dom().contains(name));
                    if name != link.0 {
                        assert(as_map(run.lock).dom().contains(name));
                    }
                }
            }
        },
        _ => {},
    }
}

/// Whether a run that makes a link makes the declared link at its place.
pub open spec fn in_step(run: RunView) -> bool {
    run.phase matches RunPhase::Linking(i) ==> i < run.desired.len() && run.task == Some(
        TaskView {
            name: run.desired[i as int].0,
            target: run.desired[i as int].1,
            phase: run.task->0.phase,
        },
    )
}

/// A run begins in step, and what it may delete before it makes any link
/// are links of the lock file.
pub proof fn lemma_run_begins_in_step(
    lock: Seq<Link>,
    lock_path: Seq<char>,
    desired: Seq<Link>,
    prune: bool,
    check: bool,
)
    ensures
        in_step(begin(initial(lock, lock_path, desired, prune, check)).0),
        forall|i: int|
            0 <= i < initial(lock, lock_path, desired, prune, check).stale.len()
                ==> lock.contains(
                #[trigger] initial(lock, lock_path, desired, prune, check).stale[i],
            ),
{
    let stale = initial(lock, lock_path, desired, prune, check).stale;
    assert forall|i: int| 0 <= i < stale.len() implies lock.contains(#[trigger] stale[i]) by {
        assert(outdated(lock, desired).contains(stale[i]));
        lemma_outdated_members(lock, desired, stale[i]);
    }
}

/// A run touches nothing but its own links: whatever the reply, a run in
/// step stays in step; what it asks to be deleted before it makes any link
/// is one of the links it set out to delete; and what it asks to be
/// deleted, moved away or made while it makes links stands at the name of a
/// declared link.
pub proof fn lemma_run_keeps_to_its_links(run: RunView, reply: RunReplyView)
    requires
        in_step(run),
    ensures
        ({
            let after = run_next(run, reply);
            &&& in_step(after.0)
            &&& after.0.desired == run.desired
            &&& after.0.stale == run.stale
            &&& match after.1 {
                RunRequestView::Delete(path) => has_name(run.stale, path),
                RunRequestView::Link(LinkRequestView::Remove(path)) => has_name(run.desired, path),
                RunRequestView::Link(LinkRequestView::Rename { from, to }) => has_name(
                    run.desired,
                    from,
                ),
                RunRequestView::Link(LinkRequestView::Symlink { name, target }) => {
                    run.desired.contains((name, target))
                },
                _ => true,
            }
        }),
{
    let after = run_next(run, reply);
    match (run.phase, reply) {
        (RunPhase::Pruning(i), RunReplyView::Deleted(done)) => {
            if i + 1 < run.stale.len() {
                assert(has_name(run.stale, run.stale[i as int + 1].0));
            }
        },
        (RunPhase::Linking(i), RunReplyView::Link(link_reply)) => {
            if i < run.desired.len() && run.task is Some {
                lemma_task_keeps_to_its_link(run.task->0, run.options, link_reply);
                assert(run.desired[i as int].0 == run.task->0.name);
                assert(run.desired[i as int] == (run.task->0.name, run.task->0.target));
            }
        },
        _ => {},
    }
}

} // verus!
