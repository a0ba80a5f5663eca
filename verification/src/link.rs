//! Making one link, and what to do where its place is taken.
//!
//! The library decides and the caller acts.  [`create_link`] starts a task
//! and says what to do first; the caller does it and hands back what came
//! of it; [`LinkTask::step`] answers with what to do next, until the task
//! finishes.  No step touches the disk or the user itself.
use vstd::prelude::*;
use vstd::string::*;
use crate::path::{parent, parent_of};
use crate::text::{decimal, decimal_chars, lemma_decimal_not_empty, text_of};

verus! {

/// The choices that last for a whole run.  Each is set once the user picks
/// the matching "all" answer, and from then on no link of the run asks
/// again.
#[derive(Debug, Clone, Copy, PartialEq, Eq)]
pub struct CreateLinkOptions {
    pub overwrite_all: bool,
    pub backup_all: bool,
    pub skip_all: bool,
}

impl CreateLinkOptions {
    /// The options with the given choices.
    pub fn new(overwrite_all: bool, backup_all: bool, skip_all: bool) -> (options: Self)
        ensures
            options == (CreateLinkOptions { overwrite_all, backup_all, skip_all }),
    {
        Self { overwrite_all, backup_all, skip_all }
    }

    /// Whether a choice for the whole run has been made.
    pub open spec fn decided(&self) -> bool {
        self.overwrite_all || self.backup_all || self.skip_all
    }

    /// Whether a choice for the whole run has been made.
    pub fn is_decided(&self) -> (decided: bool)
        ensures
            decided == self.decided(),
    {
        self.overwrite_all || self.backup_all || self.skip_all
    }
}

/// A key that stands for no answer.
#[derive(Debug, Clone, Copy, PartialEq, Eq)]
pub struct ParseInputError;

/// What the user can answer where the place of a link is taken.
#[derive(Debug, Clone, Copy, PartialEq, Eq)]
pub enum CreateLinkPromptAction {
    Overwrite,
    Backup,
    Skip,
    OverwriteAll,
    BackupAll,
    SkipAll,
}

/// The answer that the key `key` stands for, if it stands for one.
pub open spec fn answer_of(key: char) -> Option<CreateLinkPromptAction> {
    if key == 'o' {
        Some(CreateLinkPromptAction::Overwrite)
    } else if key == 'O' {
        Some(CreateLinkPromptAction::OverwriteAll)
    } else if key == 'b' {
        Some(CreateLinkPromptAction::Backup)
    } else if key == 'B' {
        Some(CreateLinkPromptAction::BackupAll)
    } else if key == 's' {
        Some(CreateLinkPromptAction::Skip)
    } else if key == 'S' {
        Some(CreateLinkPromptAction::SkipAll)
    } else {
        None
    }
}

/// The answer that a line of input stands for: that of its first
/// character, and none where the line is empty.
pub open spec fn answer_of_input(key: Option<char>) -> Option<CreateLinkPromptAction> {
    match key {
        Some(k) => answer_of(k),
        None => None,
    }
}

impl CreateLinkPromptAction {
    /// The answer that the key `value` stands for.  Every key but
    /// `o`, `O`, `b`, `B`, `s` and `S` stands for none.
    pub fn try_from(value: char) -> (answer: Result<Self, ParseInputError>)
        ensures
            match answer {
                Ok(action) => answer_of(value) == Some(action),
                Err(_) => answer_of(value) is None,
            },
    {
        if value == 'o' {
            Ok(Self::Overwrite)
        } else if value == 'O' {
            Ok(Self::OverwriteAll)
        } else if value == 'b' {
            Ok(Self::Backup)
        } else if value == 'B' {
            Ok(Self::BackupAll)
        } else if value == 's' {
            Ok(Self::Skip)
        } else if value == 'S' {
            Ok(Self::SkipAll)
        } else {
            Err(ParseInputError)
        }
    }
}

/// What stands at the name of a link, the name itself looked at and no
/// link followed.
#[derive(Debug, PartialEq, Eq)]
pub enum Occupant {
    /// Nothing.
    Nothing,
    /// A symbolic link that points to this target.
    Link(String),
    /// Something that is not a symbolic link.
    Other,
}

/// [`Occupant`] with its texts as sequences of characters.
pub enum OccupantView {
    Nothing,
    Link(Seq<char>),
    Other,
}

impl View for Occupant {
    type V = OccupantView;

    open spec fn view(&self) -> OccupantView {
        match self {
            Occupant::Nothing => OccupantView::Nothing,
            Occupant::Link(target) => OccupantView::Link(target@),
            Occupant::Other => OccupantView::Other,
        }
    }
}

/// What stands where the directory of a link should be.
#[derive(Debug, Clone, Copy, PartialEq, Eq)]
pub enum ParentKind {
    /// Nothing.
    Missing,
    /// A directory.
    Directory,
    /// Something that is not a directory.
    NotDirectory,
}

/// Why a task ended without a result.
#[derive(Debug, PartialEq, Eq)]
pub enum LinkError {
    /// The caller could not do what was asked; the text says how.
    Io(String),
    /// The caller handed back something that was not asked for.
    OutOfTurn,
}

/// [`LinkError`] with its texts as sequences of characters.
pub enum LinkErrorView {
    Io(Seq<char>),
    OutOfTurn,
}

impl View for LinkError {
    type V = LinkErrorView;

    open spec fn view(&self) -> LinkErrorView {
        match self {
            LinkError::Io(why) => LinkErrorView::Io(why@),
            LinkError::OutOfTurn => LinkErrorView::OutOfTurn,
        }
    }
}

/// What a task asks of its caller.
#[derive(Debug, PartialEq, Eq)]
pub enum LinkRequest {
    /// Look at what stands at this path, without following a link.
    Probe(String),
    /// Ask the user what to do about the link `name`, whose place is
    /// taken, and hand back the first character of the answer.
    Ask { name: String, target: String },
    /// Tell whether anything stands at this path.
    ProbeBackup(String),
    /// Tell the time, in milliseconds since the start of 1970.
    ReadClock,
    /// Move what stands at `from` to `to`.
    Rename { from: String, to: String },
    /// Delete what stands at this path.
    Remove(String),
    /// Look at what stands at this path, where the directory of the link
    /// should be.
    ProbeParent(String),
    /// Make the directory at this path, and those above it that are missing.
    CreateDirs(String),
    /// Make the symbolic link `name` that points to `target`.
    Symlink { name: String, target: String },
    /// Nothing more: the task has ended.  `Ok(true)` says that the link was
    /// made, `Ok(false)` that it was left unmade.
    Finish(Result<bool, LinkError>),
}

/// [`LinkRequest`] with its texts as sequences of characters.
pub enum LinkRequestView {
    Probe(Seq<char>),
    Ask { name: Seq<char>, target: Seq<char> },
    ProbeBackup(Seq<char>),
    ReadClock,
    Rename { from: Seq<char>, to: Seq<char> },
    Remove(Seq<char>),
    ProbeParent(Seq<char>),
    CreateDirs(Seq<char>),
    Symlink { name: Seq<char>, target: Seq<char> },
    Finish(Result<bool, LinkErrorView>),
}

impl View for LinkRequest {
    type V = LinkRequestView;

    open spec fn view(&self) -> LinkRequestView {
        match self {
            LinkRequest::Probe(path) => LinkRequestView::Probe(path@),
            LinkRequest::Ask { name, target } => LinkRequestView::Ask {
                name: name@,
                target: target@,
            },
            LinkRequest::ProbeBackup(path) => LinkRequestView::ProbeBackup(path@),
            LinkRequest::ReadClock => LinkRequestView::ReadClock,
            LinkRequest::Rename { from, to } => LinkRequestView::Rename { from: from@, to: to@ },
            LinkRequest::Remove(path) => LinkRequestView::Remove(path@),
            LinkRequest::ProbeParent(path) => LinkRequestView::ProbeParent(path@),
            LinkRequest::CreateDirs(path) => LinkRequestView::CreateDirs(path@),
            LinkRequest::Symlink { name, target } => LinkRequestView::Symlink {
                name: name@,
                target: target@,
            },
            LinkRequest::Finish(result) => LinkRequestView::Finish(
                match result {
                    Ok(made) => Ok(*made),
                    Err(error) => Err(error@),
                },
            ),
        }
    }
}

/// What came of a request.
#[derive(Debug, PartialEq, Eq)]
pub enum LinkReply {
    /// What stands at the path of a [`LinkRequest::Probe`].
    Occupant(Occupant),
    /// The first character of the user's answer, if the answer had one.
    Key(Option<char>),
    /// Whether anything stands at the path of a
    /// [`LinkRequest::ProbeBackup`].
    Exists(bool),
    /// The time, in milliseconds since the start of 1970.
    Millis(u128),
    /// What stands at the path of a [`LinkRequest::ProbeParent`].
    Parent(ParentKind),
    /// The request was carried out.
    Done,
    /// The request could not be carried out; the text says how.
    Failed(String),
}

/// [`LinkReply`] with its texts as sequences of characters.
pub enum LinkReplyView {
    Occupant(OccupantView),
    Key(Option<char>),
    Exists(bool),
    Millis(u128),
    Parent(ParentKind),
    Done,
    Failed(Seq<char>),
}

impl View for LinkReply {
    type V = LinkReplyView;

    open spec fn view(&self) -> LinkReplyView {
        match self {
            LinkReply::Occupant(occupant) => LinkReplyView::Occupant(occupant@),
            LinkReply::Key(key) => LinkReplyView::Key(*key),
            LinkReply::Exists(taken) => LinkReplyView::Exists(*taken),
            LinkReply::Millis(now) => LinkReplyView::Millis(*now),
            LinkReply::Parent(kind) => LinkReplyView::Parent(*kind),
            LinkReply::Done => LinkReplyView::Done,
            LinkReply::Failed(why) => LinkReplyView::Failed(why@),
        }
    }
}

/// Where a task stands: what it last asked for.
#[derive(Debug, Clone, Copy, PartialEq, Eq)]
pub enum LinkPhase {
    /// What stands at the name of the link.
    Probing,
    /// The user's answer.
    Asking,
    /// Whether the plain backup name is taken.
    ProbingBackup,
    /// The time.
    ReadingClock,
    /// The move of what stands at the name to its backup name.
    Moving,
    /// The deletion of what stands at the name.
    Removing,
    /// What stands where the directory of the link should be.
    ProbingParent,
    /// The making of the directory of the link.
    CreatingDirs,
    /// The making of the link.
    Linking,
    /// Nothing: the task has ended.
    Finished,
}

/// The state of a task: the link it is to make, and where it stands.
pub struct TaskView {
    pub name: Seq<char>,
    pub target: Seq<char>,
    pub phase: LinkPhase,
}

/// The plain backup name of `name`.
pub open spec fn backup_name(name: Seq<char>) -> Seq<char> {
    name + ".backup"@
}

/// The backup name of `name` that carries the time `now`.
pub open spec fn dated_backup_name(name: Seq<char>, now: nat) -> Seq<char> {
    name + seq!['.'] + decimal(now) + ".backup"@
}

/// The question put to the user where the place of a link is taken.
pub open spec fn question(name: Seq<char>, target: Seq<char>) -> Seq<char> {
    "File already exists: "@ + name + " (trying to link to "@ + target
        + "), what do you want to do?\n[s]kip, [S]kip all, [o]verwrite, [O]verwrite all, [b]ackup, [B]ackup all?"@
}

/// What is taken to stand at `name` for the occupant `occupant`: the
/// target of a link, and the name itself for anything else.
pub open spec fn current_target(name: Seq<char>, occupant: OccupantView) -> Seq<char> {
    match occupant {
        OccupantView::Link(target) => target,
        _ => name,
    }
}

/// The options after the answer `answer`: an "all" answer sets its choice
/// for the rest of the run, and any other answer changes nothing.
pub open spec fn chosen(options: CreateLinkOptions, answer: Option<CreateLinkPromptAction>) -> CreateLinkOptions {
    match answer {
        Some(CreateLinkPromptAction::OverwriteAll) => CreateLinkOptions {
            overwrite_all: true,
            ..options
        },
        Some(CreateLinkPromptAction::BackupAll) => CreateLinkOptions { backup_all: true, ..options },
        Some(CreateLinkPromptAction::SkipAll) => CreateLinkOptions { skip_all: true, ..options },
        _ => options,
    }
}

/// A state of `task` in the phase `phase`.
pub open spec fn at(task: TaskView, phase: LinkPhase) -> TaskView {
    TaskView { name: task.name, target: task.target, phase }
}

/// The end of `task` with the result `result`.
pub open spec fn finish(task: TaskView, result: Result<bool, LinkErrorView>) -> (
    TaskView,
    LinkRequestView,
) {
    (at(task, LinkPhase::Finished), LinkRequestView::Finish(result))
}

/// The way on once the name of the link is free: to the directory of the
/// link where the name has one, and straight to the making of the link
/// where it has none.
pub open spec fn to_parent(task: TaskView) -> (TaskView, LinkRequestView) {
    match parent_of(task.name) {
        Some(dir) => (at(task, LinkPhase::ProbingParent), LinkRequestView::ProbeParent(dir)),
        None => to_link(task),
    }
}

/// The request to make the link.
pub open spec fn to_link(task: TaskView) -> (TaskView, LinkRequestView) {
    (
        at(task, LinkPhase::Linking),
        LinkRequestView::Symlink { name: task.name, target: task.target },
    )
}

/// What is done about a name that is taken, once it is settled whether to
/// skip, to back up or to overwrite.  Skipping comes before backing up, and
/// backing up before overwriting.  Where none of the three is chosen the
/// task goes on as if the name were free.
pub open spec fn resolve(task: TaskView, skip: bool, backup: bool, overwrite: bool) -> (
    TaskView,
    LinkRequestView,
) {
    if skip {
        finish(task, Ok(false))
    } else if backup {
        (
            at(task, LinkPhase::ProbingBackup),
            LinkRequestView::ProbeBackup(backup_name(task.name)),
        )
    } else if overwrite {
        (at(task, LinkPhase::Removing), LinkRequestView::Remove(task.name))
    } else {
        to_parent(task)
    }
}

/// What a task does with a reply: its state and the options afterwards,
/// and its next request.
///
/// A reply that tells of a failure ends the task with that failure.  A
/// reply that the task did not ask for ends it as out of turn, and so does
/// any reply to a task that has ended.  Otherwise:
///
/// - Nothing at the name: on to the directory.  Something there and a
///   choice made for the whole run: that choice is applied.  Something
///   there that is already the link wanted: the task ends, nothing made.
///   Anything else there: the user is asked.
/// - The user's answer: an "all" answer is kept in the options; the
///   answer is applied.  A key that stands for no answer leaves the
///   options as they are and applies them.
/// - The plain backup name free: what stands at the name is moved there.
///   Taken: the time is asked for, and what stands at the name is moved to
///   the backup name that carries the time.
/// - Moved or deleted: on to the directory.
/// - No directory: it is made.  A directory: the link is made.  Something
///   else: the task ends, nothing made.
/// - The link made: the task ends, the link made.
pub open spec fn next(task: TaskView, options: CreateLinkOptions, reply: LinkReplyView) -> (
    TaskView,
    CreateLinkOptions,
    LinkRequestView,
) {
    let (after, request) = advance(task, options, reply);
    (after, options_after(task, options, reply), request)
}

/// The options after a reply: they change only with the user's answer.
pub open spec fn options_after(task: TaskView, options: CreateLinkOptions, reply: LinkReplyView) -> CreateLinkOptions {
    match (task.phase, reply) {
        (LinkPhase::Asking, LinkReplyView::Key(key)) => chosen(options, answer_of_input(key)),
        _ => options,
    }
}

/// The state of a task after a reply, and its next request.
pub open spec fn advance(task: TaskView, options: CreateLinkOptions, reply: LinkReplyView) -> (
    TaskView,
    LinkRequestView,
) {
    match (task.phase, reply) {
        (LinkPhase::Finished, _) => finish(task, Err(LinkErrorView::OutOfTurn)),
        (_, LinkReplyView::Failed(why)) => finish(task, Err(LinkErrorView::Io(why))),
        (LinkPhase::Probing, LinkReplyView::Occupant(occupant)) => {
            if occupant is Nothing {
                to_parent(task)
            } else if options.decided() {
                resolve(task, options.skip_all, options.backup_all, options.overwrite_all)
            } else if current_target(task.name, occupant) == task.target {
                finish(task, Ok(false))
            } else {
                (
                    at(task, LinkPhase::Asking),
                    LinkRequestView::Ask { name: task.name, target: task.target },
                )
            }
        },
        (LinkPhase::Asking, LinkReplyView::Key(key)) => {
            let answer = answer_of_input(key);
            let kept = chosen(options, answer);
            resolve(
                task,
                answer == Some(CreateLinkPromptAction::Skip) || kept.skip_all,
                answer == Some(CreateLinkPromptAction::Backup) || kept.backup_all,
                answer == Some(CreateLinkPromptAction::Overwrite) || kept.overwrite_all,
            )
        },
        (LinkPhase::ProbingBackup, LinkReplyView::Exists(taken)) => {
            if taken {
                (at(task, LinkPhase::ReadingClock), LinkRequestView::ReadClock)
            } else {
                (
                    at(task, LinkPhase::Moving),
                    LinkRequestView::Rename { from: task.name, to: backup_name(task.name) },
                )
            }
        },
        (LinkPhase::ReadingClock, LinkReplyView::Millis(now)) => (
            at(task, LinkPhase::Moving),
            LinkRequestView::Rename {
                from: task.name,
                to: dated_backup_name(task.name, now as nat),
            },
        ),
        (LinkPhase::Moving, LinkReplyView::Done) => to_parent(task),
        (LinkPhase::Removing, LinkReplyView::Done) => to_parent(task),
        (LinkPhase::ProbingParent, LinkReplyView::Parent(kind)) => match kind {
            ParentKind::Missing => match parent_of(task.name) {
                Some(dir) => (at(task, LinkPhase::CreatingDirs), LinkRequestView::CreateDirs(dir)),
                None => to_link(task),
            },
            ParentKind::Directory => to_link(task),
            ParentKind::NotDirectory => finish(task, Ok(false)),
        },
        (LinkPhase::CreatingDirs, LinkReplyView::Done) => to_link(task),
        (LinkPhase::Linking, LinkReplyView::Done) => finish(task, Ok(true)),
        _ => finish(task, Err(LinkErrorView::OutOfTurn)),
    }
}

/// The making of one link, step by step.
#[derive(Debug)]
pub struct LinkTask {
    name: String,
    target: String,
    phase: LinkPhase,
}

impl View for LinkTask {
    type V = TaskView;

    closed spec fn view(&self) -> TaskView {
        TaskView { name: self.name@, target: self.target@, phase: self.phase }
    }
}

/// Starts the making of the link `link_name` that points to `link_target`:
/// the task, and its first request, which is to look at what stands at the
/// name.
pub fn create_link(link_name: &str, link_target: &str) -> (started: (LinkTask, LinkRequest))
    ensures
        started.0@ == (TaskView {
            name: link_name@,
            target: link_target@,
            phase: LinkPhase::Probing,
        }),
        started.1@ == LinkRequestView::Probe(link_name@),
{
    let task = LinkTask {
        name: link_name.to_owned(),
        target: link_target.to_owned(),
        phase: LinkPhase::Probing,
    };
    (task, LinkRequest::Probe(link_name.to_owned()))
}

/// The question to put to the user where the place of the link
/// `link_name` is taken.
pub fn prompt_existing_destination(link_name: &str, link_target: &str) -> (text: String)
    ensures
        text@ == question(link_name@, link_target@),
{
    let mut text = String::from_str("File already exists: ");
    text.append(link_name);
    text.append(" (trying to link to ");
    text.append(link_target);
    text.append(
        "), what do you want to do?\n[s]kip, [S]kip all, [o]verwrite, [O]verwrite all, [b]ackup, [B]ackup all?",
    );
    text
}

impl LinkTask {
    /// The name of the link that the task is to make.
    pub fn name(&self) -> (name: &String)
        ensures
            name@ == self@.name,
    {
        &self.name
    }

    /// The target of the link that the task is to make.
    pub fn target(&self) -> (target: &String)
        ensures
            target@ == self@.target,
    {
        &self.target
    }

    fn finish(&mut self, result: Result<bool, LinkError>) -> (request: LinkRequest)
        ensures
            (final(self)@, request@) == finish(
                old(self)@,
                match result {
                    Ok(made) => Ok(made),
                    Err(error) => Err(error@),
                },
            ),
    {
        self.phase = LinkPhase::Finished;
        LinkRequest::Finish(result)
    }

    fn to_link(&mut self) -> (request: LinkRequest)
        ensures
            (final(self)@, request@) == to_link(old(self)@),
    {
        self.phase = LinkPhase::Linking;
        LinkRequest::Symlink { name: self.name.clone(), target: self.target.clone() }
    }

    fn to_parent(&mut self) -> (request: LinkRequest)
        ensures
            (final(self)@, request@) == to_parent(old(self)@),
    {
        match parent(self.name.as_str()) {
            Some(dir) => {
                self.phase = LinkPhase::ProbingParent;
                LinkRequest::ProbeParent(dir)
            },
            None => self.to_link(),
        }
    }

    fn resolve(&mut self, skip: bool, backup: bool, overwrite: bool) -> (request: LinkRequest)
        ensures
            (final(self)@, request@) == resolve(old(self)@, skip, backup, overwrite),
    {
        if skip {
            self.finish(Ok(false))
        } else if backup {
            self.phase = LinkPhase::ProbingBackup;
            let mut path = self.name.clone();
            path.append(".backup");
            LinkRequest::ProbeBackup(path)
        } else if overwrite {
            self.phase = LinkPhase::Removing;
            LinkRequest::Remove(self.name.clone())
        } else {
            self.to_parent()
        }
    }

    /// Takes what came of the last request and answers with the next, as
    /// [`next`] says.  An "all" answer of the user is kept in `options`.
    pub fn step(&mut self, options: &mut CreateLinkOptions, reply: LinkReply) -> (request:
        LinkRequest)
        ensures
            (final(self)@, *final(options), request@) == next(old(self)@, *old(options), reply@),
    {
        match (&self.phase, reply) {
            (LinkPhase::Finished, _) => self.finish(Err(LinkError::OutOfTurn)),
            (_, LinkReply::Failed(why)) => self.finish(Err(LinkError::Io(why))),
            (LinkPhase::Probing, LinkReply::Occupant(occupant)) => {
                let free = match &occupant {
                    Occupant::Nothing => true,
                    _ => false,
                };
                if free {
                    self.to_parent()
                } else if options.is_decided() {
                    self.resolve(options.skip_all, options.backup_all, options.overwrite_all)
                } else {
                    let linked = match &occupant {
                        Occupant::Link(current) => *current == self.target,
                        _ => self.name == self.target,
                    };
                    if linked {
                        self.finish(Ok(false))
                    } else {
                        self.phase = LinkPhase::Asking;
                        LinkRequest::Ask { name: self.name.clone(), target: self.target.clone() }
                    }
                }
            },
            (LinkPhase::Asking, LinkReply::Key(key)) => {
                let answer = match key {
                    Some(k) => match CreateLinkPromptAction::try_from(k) {
                        Ok(action) => Some(action),
                        Err(_) => None,
                    },
                    None => None,
                };
                let mut skip = false;
                let mut backup = false;
                let mut overwrite = false;
                match answer {
                    Some(CreateLinkPromptAction::Overwrite) => {
                        overwrite = true;
                    },
                    Some(CreateLinkPromptAction::Backup) => {
                        backup = true;
                    },
                    Some(CreateLinkPromptAction::Skip) => {
                        skip = true;
                    },
                    Some(CreateLinkPromptAction::OverwriteAll) => {
                        options.overwrite_all = true;
                    },
                    Some(CreateLinkPromptAction::BackupAll) => {
                        options.backup_all = true;
                    },
                    Some(CreateLinkPromptAction::SkipAll) => {
                        options.skip_all = true;
                    },
                    None => {},
                }
                self.resolve(
                    skip || options.skip_all,
                    backup || options.backup_all,
                    overwrite || options.overwrite_all,
                )
            },
            (LinkPhase::ProbingBackup, LinkReply::Exists(taken)) => {
                if taken {
                    self.phase = LinkPhase::ReadingClock;
                    LinkRequest::ReadClock
                } else {
                    self.phase = LinkPhase::Moving;
                    let mut to = self.name.clone();
                    to.append(".backup");
                    LinkRequest::Rename { from: self.name.clone(), to }
                }
            },
            (LinkPhase::ReadingClock, LinkReply::Millis(now)) => {
                self.phase = LinkPhase::Moving;
                let stamp = text_of(&decimal_chars(now));
                let mut to = self.name.clone();
                to.push('.');
                to.append(stamp.as_str());
                to.append(".backup");
                assert(to@ =~= dated_backup_name(self@.name, now as nat));
                LinkRequest::Rename { from: self.name.clone(), to }
            },
            (LinkPhase::Moving, LinkReply::Done) => self.to_parent(),
            (LinkPhase::Removing, LinkReply::Done) => self.to_parent(),
            (LinkPhase::ProbingParent, LinkReply::Parent(kind)) => match kind {
                ParentKind::Missing => match parent(self.name.as_str()) {
                    Some(dir) => {
                        self.phase = LinkPhase::CreatingDirs;
                        LinkRequest::CreateDirs(dir)
                    },
                    None => self.to_link(),
                },
                ParentKind::Directory => self.to_link(),
                ParentKind::NotDirectory => self.finish(Ok(false)),
            },
            (LinkPhase::CreatingDirs, LinkReply::Done) => self.to_link(),
            (LinkPhase::Linking, LinkReply::Done) => self.finish(Ok(true)),
            _ => self.finish(Err(LinkError::OutOfTurn)),
        }
    }
}

/// Already linked: where the name holds a link to the very target wanted
/// and no choice was made for the whole run, the task ends at once with
/// nothing made, nothing asked and the options as they were.
pub proof fn lemma_already_linked(name: Seq<char>, target: Seq<char>, options: CreateLinkOptions)
    requires
        !options.decided(),
    ensures
        next(
            (TaskView { name, target, phase: LinkPhase::Probing }),
            options,
            LinkReplyView::Occupant(OccupantView::Link(target)),
        ) == (
            (TaskView { name, target, phase: LinkPhase::Finished }),
            options,
            LinkRequestView::Finish(Ok(false)),
        ),
{
}

/// A name that is free is never asked about: whatever the options, the
/// task goes on to the directory of the link.
pub proof fn lemma_free_name(name: Seq<char>, target: Seq<char>, options: CreateLinkOptions)
    ensures
        ({
            let task = TaskView { name, target, phase: LinkPhase::Probing };
            let after = next(task, options, LinkReplyView::Occupant(OccupantView::Nothing));
            &&& (after.0, after.2) == to_parent(task)
            &&& after.1 == options
        }),
{
}

/// Overwrite all: where the name holds a link to another target, no
/// choice was made yet and the user answers `O`, the link there is deleted
/// and the choice is kept; once the deletion is done and the directory of
/// the link is found in place, the link is made and the task ends with the
/// link made.
pub proof fn lemma_overwrite_all_makes_the_link(
    name: Seq<char>,
    target: Seq<char>,
    current: Seq<char>,
    dir: Seq<char>,
)
    requires
        current != target,
        parent_of(name) == Some(dir),
    ensures
        ({
            let fresh = CreateLinkOptions {
                overwrite_all: false,
                backup_all: false,
                skip_all: false,
            };
            let kept = CreateLinkOptions { overwrite_all: true, backup_all: false, skip_all: false };
            let start = TaskView { name, target, phase: LinkPhase::Probing };
            let probed = next(start, fresh, LinkReplyView::Occupant(OccupantView::Link(current)));
            let answered = next(probed.0, probed.1, LinkReplyView::Key(Some('O')));
            let removed = next(answered.0, answered.1, LinkReplyView::Done);
            let placed = next(removed.0, removed.1, LinkReplyView::Parent(ParentKind::Directory));
            let linked = next(placed.0, placed.1, LinkReplyView::Done);
            &&& probed.2 == LinkRequestView::Ask { name, target }
            &&& answered.1 == kept
            &&& answered.2 == LinkRequestView::Remove(name)
            &&& removed.2 == LinkRequestView::ProbeParent(dir)
            &&& placed.2 == LinkRequestView::Symlink { name, target }
            &&& linked.2 == LinkRequestView::Finish(Ok(true))
            &&& linked.1 == kept
        }),
{
}

/// Overwrite all stays: once that choice is kept in the options and
/// neither of the other two is, a name that is taken is deleted without the
/// user being asked, whatever stands there.
pub proof fn lemma_overwrite_all_stays(
    name: Seq<char>,
    target: Seq<char>,
    occupant: OccupantView,
    options: CreateLinkOptions,
)
    requires
        options.overwrite_all,
        !options.backup_all,
        !options.skip_all,
        !(occupant is Nothing),
    ensures
        next(
            (TaskView { name, target, phase: LinkPhase::Probing }),
            options,
            LinkReplyView::Occupant(occupant),
        ) == (
            (TaskView { name, target, phase: LinkPhase::Removing }),
            options,
            LinkRequestView::Remove(name),
        ),
{
}

/// Skip all stays: once that choice is kept in the options, a name that is
/// taken is left as it is without the user being asked.
pub proof fn lemma_skip_all_stays(
    name: Seq<char>,
    target: Seq<char>,
    occupant: OccupantView,
    options: CreateLinkOptions,
)
    requires
        options.skip_all,
        !(occupant is Nothing),
    ensures
        next(
            (TaskView { name, target, phase: LinkPhase::Probing }),
            options,
            LinkReplyView::Occupant(occupant),
        ) == (
            (TaskView { name, target, phase: LinkPhase::Finished }),
            options,
            LinkRequestView::Finish(Ok(false)),
        ),
{
}

/// The options only ever gain choices: what is set before a reply is set
/// after it.
pub proof fn lemma_choices_are_kept(task: TaskView, options: CreateLinkOptions, reply: LinkReplyView)
    ensures
        options.overwrite_all ==> next(task, options, reply).1.overwrite_all,
        options.backup_all ==> next(task, options, reply).1.backup_all,
        options.skip_all ==> next(task, options, reply).1.skip_all,
{
}

/// Backup collision: where the plain backup name is taken, what stands at
/// the name is moved to the backup name that carries the time, and that
/// name is not the plain backup name.
pub proof fn lemma_backup_collision(name: Seq<char>, target: Seq<char>, options: CreateLinkOptions, now: u128)
    ensures
        ({
            let task = TaskView { name, target, phase: LinkPhase::ProbingBackup };
            let probed = next(task, options, LinkReplyView::Exists(true));
            let timed = next(probed.0, probed.1, LinkReplyView::Millis(now));
            &&& probed.2 == LinkRequestView::ReadClock
            &&& timed.2 == LinkRequestView::Rename {
                from: name,
                to: dated_backup_name(name, now as nat),
            }
            &&& dated_backup_name(name, now as nat) != backup_name(name)
        }),
{
    let dated = dated_backup_name(name, now as nat);
    let plain = backup_name(name);
    assert(decimal(now as nat).len() >= 1) by {
        lemma_decimal_not_empty(now as nat);
    }
    assert(dated.len() == name.len() + 1 + decimal(now as nat).len() + ".backup"@.len());
    assert(plain.len() == name.len() + ".backup"@.len());
}

/// A task keeps to its own link: whatever the reply, the task stays the
/// making of the same link; what it asks to be deleted or moved away stands
/// at the name of that link, what it moves goes to one of the two backup
/// names of that name, and the link it asks to be made is that link.
pub proof fn lemma_task_keeps_to_its_link(
    task: TaskView,
    options: CreateLinkOptions,
    reply: LinkReplyView,
)
    ensures
        ({
            let after = next(task, options, reply);
            &&& after.0.name == task.name
            &&& after.0.target == task.target
            &&& match after.2 {
                LinkRequestView::Remove(path) => path == task.name,
                LinkRequestView::Rename { from, to } => from == task.name && (to == backup_name(
                    task.name,
                ) || exists|now: nat| to == dated_backup_name(task.name, now)),
                LinkRequestView::Symlink { name, target } => name == task.name && target
                    == task.target,
                LinkRequestView::ProbeBackup(path) => path == backup_name(task.name),
                LinkRequestView::ProbeParent(path) => parent_of(task.name) == Some(path),
                LinkRequestView::CreateDirs(path) => parent_of(task.name) == Some(path),
                LinkRequestView::Ask { name, target } => name == task.name && target
                    == task.target,
                LinkRequestView::Probe(path) => false,
                _ => true,
            }
        }),
{
    let after = next(task, options, reply);
    match (task.phase, reply) {
        (LinkPhase::ReadingClock, LinkReplyView::Millis(now)) => {
            assert(after.2 == LinkRequestView::Rename {
                from: task.name,
                to: dated_backup_name(task.name, now as nat),
            });
        },
        _ => {},
    }
}

} // verus!
