//! Declaration files: how a file and the files it extends resolve to the
//! links that should exist.
//!
//! A declaration file names two directories and a table of links, each
//! link a name below the destination directory and a target below the
//! source directory.  A root file names both directories itself.  A child
//! file extends another file and takes from it, already resolved, each
//! directory that it does not name.  The links of a file are always placed
//! with the file's own resolved directories; the links of the files it
//! extends are not taken over.
//!
//! Reading the files is the caller's part.  [`ConfigResolver`] tells the
//! caller which file to read next and takes what the caller read.
use vstd::prelude::*;
use crate::path::{append_path, appended, is_normal_absolute, join, joined_paths,
    lemma_normal_absolute_stands_alone, opt_text, parent, parent_of};
use crate::table::{absorb, absorbed, inserted, lemma_absorbed_onto_nothing, links_of, Link,
    SymlinkTable};
use crate::text::opt_view;

verus! {

/// The two directories of a declaration file.
#[derive(Debug, PartialEq, Eq)]
pub struct Config {
    /// The directory below which the targets of the links lie.
    pub source_dir: String,
    /// The directory below which the links are made.
    pub destination_dir: String,
}

/// [`Config`] with its texts as sequences of characters.
pub struct ConfigView {
    pub source_dir: Seq<char>,
    pub destination_dir: Seq<char>,
}

impl View for Config {
    type V = ConfigView;

    open spec fn view(&self) -> ConfigView {
        ConfigView { source_dir: self.source_dir@, destination_dir: self.destination_dir@ }
    }
}

/// A declaration file resolved: its directories, and its links with
/// absolute names and targets.
#[derive(Debug, PartialEq, Eq)]
pub struct ExtendedConfig {
    pub config: Config,
    /// link name -> link target
    pub absolute_symlinks: SymlinkTable,
}

/// [`ExtendedConfig`] with its texts as sequences of characters.
pub struct ExtendedConfigView {
    pub config: ConfigView,
    pub absolute_symlinks: Seq<Link>,
}

impl View for ExtendedConfig {
    type V = ExtendedConfigView;

    open spec fn view(&self) -> ExtendedConfigView {
        ExtendedConfigView { config: self.config@, absolute_symlinks: self.absolute_symlinks@ }
    }
}

/// The `config` section of a declaration file.
#[derive(Debug, PartialEq, Eq)]
pub enum ConfigCore {
    /// A file that stands alone and names both directories.
    RootConfig(Config),
    /// A file that extends another and may name either directory.
    ChildConfig { extends: String, source_dir: Option<String>, destination_dir: Option<String> },
}

/// [`ConfigCore`] with its texts as sequences of characters.
pub enum ConfigCoreView {
    RootConfig(ConfigView),
    ChildConfig {
        extends: Seq<char>,
        source_dir: Option<Seq<char>>,
        destination_dir: Option<Seq<char>>,
    },
}

impl View for ConfigCore {
    type V = ConfigCoreView;

    open spec fn view(&self) -> ConfigCoreView {
        match self {
            ConfigCore::RootConfig(config) => ConfigCoreView::RootConfig(config@),
            ConfigCore::ChildConfig { extends, source_dir, destination_dir } => {
                ConfigCoreView::ChildConfig {
                    extends: extends@,
                    source_dir: opt_view(*source_dir),
                    destination_dir: opt_view(*destination_dir),
                }
            },
        }
    }
}

/// What a declaration file holds: its `config` section, and its links as
/// written, each a name and a target, in the order of the file.
#[derive(Debug, PartialEq, Eq)]
pub struct ConfigFile {
    pub config: ConfigCore,
    pub symlinks: Option<Vec<(String, String)>>,
}

/// [`ConfigFile`] with its texts as sequences of characters.  A file
/// without a table of links holds no link.
pub struct ConfigFileView {
    pub config: ConfigCoreView,
    pub symlinks: Seq<Link>,
}

impl View for ConfigFile {
    type V = ConfigFileView;

    open spec fn view(&self) -> ConfigFileView {
        ConfigFileView {
            config: self.config@,
            symlinks: match self.symlinks {
                Some(links) => links_of(links@),
                None => Seq::empty(),
            },
        }
    }
}

/// Why a declaration file could not be resolved.
#[derive(Debug, PartialEq, Eq)]
pub enum ParseConfigFileErrorKind {
    /// The file could not be found or read; the text says how.
    IoError(String),
    /// The text of the file is not a declaration; the text says how.
    InvalidToml(String),
    /// The file extends, directly or through other files, itself.
    CyclicExtends,
}

/// [`ParseConfigFileErrorKind`] with its texts as sequences of characters.
pub enum ErrorKindView {
    IoError(Seq<char>),
    InvalidToml(Seq<char>),
    CyclicExtends,
}

impl View for ParseConfigFileErrorKind {
    type V = ErrorKindView;

    open spec fn view(&self) -> ErrorKindView {
        match self {
            ParseConfigFileErrorKind::IoError(why) => ErrorKindView::IoError(why@),
            ParseConfigFileErrorKind::InvalidToml(why) => ErrorKindView::InvalidToml(why@),
            ParseConfigFileErrorKind::CyclicExtends => ErrorKindView::CyclicExtends,
        }
    }
}

/// A failure to resolve a declaration file, with the file it occurred in.
#[derive(Debug, PartialEq, Eq)]
pub struct ParseConfigFileError {
    kind: ParseConfigFileErrorKind,
    config_file: String,
}

/// [`ParseConfigFileError`] with its texts as sequences of characters.
pub struct ParseErrorView {
    pub kind: ErrorKindView,
    pub config_file: Seq<char>,
}

impl View for ParseConfigFileError {
    type V = ParseErrorView;

    closed spec fn view(&self) -> ParseErrorView {
        ParseErrorView { kind: self.kind@, config_file: self.config_file@ }
    }
}

impl ParseConfigFileError {
    /// The failure `kind` in the file `file`.
    pub fn new(kind: ParseConfigFileErrorKind, file: &str) -> (error: Self)
        ensures
            error@ == (ParseErrorView { kind: kind@, config_file: file@ }),
    {
        ParseConfigFileError { kind, config_file: file.to_owned() }
    }

    /// What went wrong.
    pub fn kind(&self) -> (kind: &ParseConfigFileErrorKind)
        ensures
            kind@ == self@.kind,
    {
        &self.kind
    }

    /// The file in which it went wrong.
    pub fn config_file(&self) -> (file: &String)
        ensures
            file@ == self@.config_file,
    {
        &self.config_file
    }
}

/// The directories of a root file that lies in `dir`: each as the file
/// names it, taken from `dir`.
pub open spec fn root_config(dir: Seq<char>, named: ConfigView, home: Option<Seq<char>>) -> ConfigView {
    ConfigView {
        source_dir: joined_paths(dir, named.source_dir, home),
        destination_dir: joined_paths(dir, named.destination_dir, home),
    }
}

/// One directory of a child file that lies in `dir`: its own where it
/// names one, taken from `dir`, and its parent's resolved one where not.
pub open spec fn inherited_dir(
    dir: Seq<char>,
    own: Option<Seq<char>>,
    parent: Seq<char>,
    home: Option<Seq<char>>,
) -> Seq<char> {
    match own {
        Some(d) => joined_paths(dir, d, home),
        None => parent,
    }
}

/// The directories of a child file that lies in `dir`, given the resolved
/// directories of the file it extends.
pub open spec fn child_config(
    dir: Seq<char>,
    source_dir: Option<Seq<char>>,
    destination_dir: Option<Seq<char>>,
    parent: ConfigView,
    home: Option<Seq<char>>,
) -> ConfigView {
    ConfigView {
        source_dir: inherited_dir(dir, source_dir, parent.source_dir, home),
        destination_dir: inherited_dir(dir, destination_dir, parent.destination_dir, home),
    }
}

/// A link as written in a file with the directories `config`, made
/// absolute: its name taken from the destination directory, its target from
/// the source directory.
pub open spec fn absolute_link(config: ConfigView, link: Link, home: Option<Seq<char>>) -> Link {
    (
        joined_paths(config.destination_dir, link.0, home),
        joined_paths(config.source_dir, link.1, home),
    )
}

/// `table` after each of `links`, in order, is made absolute and set in it.
/// Where two links come to the same name, the later one stays.
pub open spec fn placed(
    table: Seq<Link>,
    config: ConfigView,
    links: Seq<Link>,
    home: Option<Seq<char>>,
) -> Seq<Link>
    decreases links.len(),
{
    if links.len() == 0 {
        table
    } else {
        let link = absolute_link(config, links.last(), home);
        inserted(placed(table, config, links.drop_last(), home), link.0, link.1)
    }
}

/// The absolute links of a file with the directories `config`.
pub open spec fn absolute_links(config: ConfigView, links: Seq<Link>, home: Option<Seq<char>>) -> Seq<
    Link,
> {
    placed(Seq::empty(), config, links, home)
}

/// The directory that holds the file `path`: the root where the path names
/// none.
pub open spec fn dir_of(path: Seq<char>) -> Seq<char> {
    match parent_of(path) {
        Some(dir) => dir,
        None => seq!['/'],
    }
}

/// A child file that waits for the file it extends to be read.
#[derive(Debug)]
pub struct Pending {
    path: String,
    source_dir: Option<String>,
    destination_dir: Option<String>,
}

/// [`Pending`] with its texts as sequences of characters.
pub struct PendingView {
    pub path: Seq<char>,
    pub source_dir: Option<Seq<char>>,
    pub destination_dir: Option<Seq<char>>,
}

impl View for Pending {
    type V = PendingView;

    closed spec fn view(&self) -> PendingView {
        PendingView {
            path: self.path@,
            source_dir: opt_view(self.source_dir),
            destination_dir: opt_view(self.destination_dir),
        }
    }
}

/// The views of the given waiting files.
pub closed spec fn pending_of(waiting: Seq<Pending>) -> Seq<PendingView> {
    Seq::new(waiting.len(), |i: int| waiting[i]@)
}

/// The directories of the first of the `waiting` files, each of which
/// extends the next, and the last of which extends a file with the
/// directories `base`.
pub open spec fn chain_config(waiting: Seq<PendingView>, base: ConfigView, home: Option<Seq<char>>) -> ConfigView
    decreases waiting.len(),
{
    if waiting.len() == 0 {
        base
    } else {
        child_config(
            dir_of(waiting[0].path),
            waiting[0].source_dir,
            waiting[0].destination_dir,
            chain_config(waiting.drop_first(), base, home),
            home,
        )
    }
}

/// Whether one of the `waiting` files is the file `path`.
pub open spec fn is_waiting(waiting: Seq<PendingView>, path: Seq<char>) -> bool {
    exists|i: int| 0 <= i < waiting.len() && (#[trigger] waiting[i]).path == path
}

/// What reading one declaration file gave.
#[derive(Debug, PartialEq, Eq)]
pub enum FileLoad {
    /// The file was read: its path, made canonical, and what it holds.
    Loaded { path: String, file: ConfigFile },
    /// The file could not be found or read; `why` says how.
    Unreadable { path: String, why: String },
    /// The text of the file is not a declaration; `why` says how.
    Malformed { path: String, why: String },
}

/// [`FileLoad`] with its texts as sequences of characters.
pub enum FileLoadView {
    Loaded { path: Seq<char>, file: ConfigFileView },
    Unreadable { path: Seq<char>, why: Seq<char> },
    Malformed { path: Seq<char>, why: Seq<char> },
}

impl View for FileLoad {
    type V = FileLoadView;

    open spec fn view(&self) -> FileLoadView {
        match self {
            FileLoad::Loaded { path, file } => FileLoadView::Loaded { path: path@, file: file@ },
            FileLoad::Unreadable { path, why } => FileLoadView::Unreadable {
                path: path@,
                why: why@,
            },
            FileLoad::Malformed { path, why } => FileLoadView::Malformed { path: path@, why: why@ },
        }
    }
}

/// What the resolver asks of its caller, or what it found.
#[derive(Debug, PartialEq, Eq)]
pub enum ResolveStep {
    /// Read the file at this path and hand back what reading it gave.
    Load(String),
    /// The file is resolved.
    Done(ExtendedConfig),
    /// The file cannot be resolved.
    Failed(ParseConfigFileError),
}

/// [`ResolveStep`] with its texts as sequences of characters.
pub enum ResolveStepView {
    Load(Seq<char>),
    Done(ExtendedConfigView),
    Failed(ParseErrorView),
}

impl View for ResolveStep {
    type V = ResolveStepView;

    open spec fn view(&self) -> ResolveStepView {
        match self {
            ResolveStep::Load(path) => ResolveStepView::Load(path@),
            ResolveStep::Done(resolved) => ResolveStepView::Done(resolved@),
            ResolveStep::Failed(error) => ResolveStepView::Failed(error@),
        }
    }
}

/// The state of a resolver: the home directory it resolves `~` with, the
/// child files that wait for what they extend, the first of them the file
/// asked for, and the links of that file as written.
pub struct ResolverView {
    pub home: Option<Seq<char>>,
    pub waiting: Seq<PendingView>,
    pub symlinks: Seq<Link>,
}

/// A resolver that waits for no file.
pub open spec fn idle(home: Option<Seq<char>>) -> ResolverView {
    ResolverView { home, waiting: Seq::empty(), symlinks: Seq::empty() }
}

/// What a resolver in `state` does with what reading a file gave: its
/// state afterwards, and its answer.
///
/// A file that could not be read, or that is no declaration, fails the
/// resolution with that file named.  So does a file that already waits:
/// it extends itself.  A child file joins those that wait, and the file it
/// extends, named from the child's directory, is asked for.  A root file
/// ends the resolution: its directories pass down the waiting files to the
/// file asked for, whose links are placed with what comes out.  After an
/// answer that is no request the resolver waits for no file.
pub open spec fn step_spec(state: ResolverView, load: FileLoadView) -> (
    ResolverView,
    ResolveStepView,
) {
    match load {
        FileLoadView::Unreadable { path, why } => (
            idle(state.home),
            ResolveStepView::Failed(
                ParseErrorView { kind: ErrorKindView::IoError(why), config_file: path },
            ),
        ),
        FileLoadView::Malformed { path, why } => (
            idle(state.home),
            ResolveStepView::Failed(
                ParseErrorView { kind: ErrorKindView::InvalidToml(why), config_file: path },
            ),
        ),
        FileLoadView::Loaded { path, file } => if is_waiting(state.waiting, path) {
            (
                idle(state.home),
                ResolveStepView::Failed(
                    ParseErrorView { kind: ErrorKindView::CyclicExtends, config_file: path },
                ),
            )
        } else {
            let symlinks = if state.waiting.len() == 0 {
                file.symlinks
            } else {
                state.symlinks
            };
            match file.config {
                ConfigCoreView::ChildConfig { extends, source_dir, destination_dir } => (
                    ResolverView {
                        home: state.home,
                        waiting: state.waiting.push(
                            PendingView { path, source_dir, destination_dir },
                        ),
                        symlinks,
                    },
                    ResolveStepView::Load(appended(dir_of(path), extends)),
                ),
                ConfigCoreView::RootConfig(named) => {
                    let config = chain_config(
                        state.waiting,
                        root_config(dir_of(path), named, state.home),
                        state.home,
                    );
                    (
                        idle(state.home),
                        ResolveStepView::Done(
                            ExtendedConfigView {
                                config,
                                absolute_symlinks: absolute_links(config, symlinks, state.home),
                            },
                        ),
                    )
                },
            }
        },
    }
}

/// Resolves a declaration file together with the files it extends.
#[derive(Debug)]
pub struct ConfigResolver {
    home: Option<String>,
    waiting: Vec<Pending>,
    symlinks: Vec<(String, String)>,
}

impl View for ConfigResolver {
    type V = ResolverView;

    closed spec fn view(&self) -> ResolverView {
        ResolverView {
            home: opt_view(self.home),
            waiting: pending_of(self.waiting@),
            symlinks: links_of(self.symlinks@),
        }
    }
}

fn home_of(home: &Option<String>) -> (text: Option<&str>)
    ensures
        opt_text(text) == opt_view(*home),
{
    match home {
        Some(h) => Some(h.as_str()),
        None => None,
    }
}

fn directory_of(path: &str) -> (dir: String)
    ensures
        dir@ == dir_of(path@),
{
    match parent(path) {
        Some(dir) => dir,
        None => {
            let mut dir = String::new();
            dir.push('/');
            assert(dir@ =~= seq!['/']);
            dir
        },
    }
}

fn inherit_dir(dir: &str, own: &Option<String>, parent: String, home: Option<&str>) -> (out: String)
    ensures
        out@ == inherited_dir(dir@, opt_view(*own), parent@, opt_text(home)),
{
    match own {
        Some(d) => join(dir, d.as_str(), home),
        None => parent,
    }
}

/// Makes each of `links` absolute with the directories `config` and sets it
/// in `table`, in order.
pub fn place_links(
    table: &mut SymlinkTable,
    config: &Config,
    links: &Vec<(String, String)>,
    home: Option<&str>,
)
    ensures
        final(table)@ == placed(old(table)@, config@, links_of(links@), opt_text(home)),
{
    let ghost all = links_of(links@);
    let mut i: usize = 0;
    while i < links.len()
        invariant
            i <= links.len(),
            all == links_of(links@),
            table@ == placed(old(table)@, config@, all.take(i as int), opt_text(home)),
        decreases links.len() - i,
    {
        proof {
            assert(all.take(i + 1).drop_last() == all.take(i as int));
            assert(all.take(i + 1).last() == (links@[i as int].0@, links@[i as int].1@));
        }
        let name = join(config.destination_dir.as_str(), links[i].0.as_str(), home);
        let target = join(config.source_dir.as_str(), links[i].1.as_str(), home);
        table.insert(name.as_str(), target.as_str());
        i = i + 1;
    }
    assert(all.take(i as int) == all);
}

impl ConfigResolver {
    /// A resolver that resolves `~` with `home` and waits for no file.
    pub fn new(home: Option<String>) -> (resolver: Self)
        ensures
            resolver@ == idle(opt_view(home)),
    {
        let resolver = ConfigResolver { home, waiting: Vec::new(), symlinks: Vec::new() };
        assert(resolver@.waiting =~= Seq::<PendingView>::empty());
        assert(resolver@.symlinks =~= Seq::<Link>::empty());
        resolver
    }

    /// The request with which the resolution of the file at `path` begins.
    pub fn begin(&self, path: &str) -> (step: ResolveStep)
        ensures
            step@ == ResolveStepView::Load(path@),
    {
        ResolveStep::Load(path.to_owned())
    }

    fn waits_for(&self, path: &String) -> (found: bool)
        ensures
            found == is_waiting(self@.waiting, path@),
    {
        let mut i: usize = 0;
        while i < self.waiting.len()
            invariant
                i <= self.waiting.len(),
                forall|j: int| 0 <= j < i ==> (#[trigger] self@.waiting[j]).path != path@,
            decreases self.waiting.len() - i,
        {
            if self.waiting[i].path == *path {
                assert(self@.waiting[i as int].path == path@);
                return true;
            }
            i = i + 1;
        }
        false
    }

    fn reset(&mut self)
        ensures
            final(self)@ == idle(old(self)@.home),
    {
        self.waiting = Vec::new();
        self.symlinks = Vec::new();
        assert(self@.waiting =~= Seq::<PendingView>::empty());
        assert(self@.symlinks =~= Seq::<Link>::empty());
    }

    fn pass_down(&self, base: Config) -> (config: Config)
        ensures
            config@ == chain_config(self@.waiting, base@, self@.home),
    {
        let ghost waiting = self@.waiting;
        let ghost home = self@.home;
        let ghost start = base@;
        let mut config = base;
        let mut i: usize = self.waiting.len();
        assert(waiting.skip(i as int) =~= Seq::<PendingView>::empty());
        while i > 0
            invariant
                i <= self.waiting.len(),
                waiting == self@.waiting,
                home == self@.home,
                config@ == chain_config(waiting.skip(i as int), start, home),
            decreases i,
        {
            i = i - 1;
            proof {
                assert(waiting.skip(i as int).drop_first() =~= waiting.skip(i + 1));
                assert(waiting.skip(i as int)[0] == waiting[i as int]);
            }
            let child = &self.waiting[i];
            let dir = directory_of(child.path.as_str());
            let Config { source_dir, destination_dir } = config;
            let source = inherit_dir(
                dir.as_str(),
                &child.source_dir,
                source_dir,
                home_of(&self.home),
            );
            let destination = inherit_dir(
                dir.as_str(),
                &child.destination_dir,
                destination_dir,
                home_of(&self.home),
            );
            config = Config { source_dir: source, destination_dir: destination };
        }
        assert(waiting.skip(0) =~= waiting);
        config
    }

    /// Takes what reading the file last asked for gave, and answers with
    /// the next request or with the end of the resolution, as
    /// [`step_spec`] says.
    pub fn step(&mut self, load: FileLoad) -> (answer: ResolveStep)
        ensures
            (final(self)@, answer@) == step_spec(old(self)@, load@),
    {
        match load {
            FileLoad::Unreadable { path, why } => {
                self.reset();
                ResolveStep::Failed(
                    ParseConfigFileError {
                        kind: ParseConfigFileErrorKind::IoError(why),
                        config_file: path,
                    },
                )
            },
            FileLoad::Malformed { path, why } => {
                self.reset();
                ResolveStep::Failed(
                    ParseConfigFileError {
                        kind: ParseConfigFileErrorKind::InvalidToml(why),
                        config_file: path,
                    },
                )
            },
            FileLoad::Loaded { path, file } => {
                if self.waits_for(&path) {
                    self.reset();
                    return ResolveStep::Failed(
                        ParseConfigFileError {
                            kind: ParseConfigFileErrorKind::CyclicExtends,
                            config_file: path,
                        },
                    );
                }
                let ConfigFile { config, symlinks } = file;
                if self.waiting.len() == 0 {
                    self.symlinks = match symlinks {
                        Some(links) => links,
                        None => Vec::new(),
                    };
                    assert(self@.symlinks =~= file@.symlinks);
                }
                let dir = directory_of(path.as_str());
                match config {
                    ConfigCore::ChildConfig { extends, source_dir, destination_dir } => {
                        let next = append_path(dir.as_str(), extends.as_str());
                        self.waiting.push(Pending { path, source_dir, destination_dir });
                        assert(self@.waiting =~= old(self)@.waiting.push(
                            (PendingView {
                                path: path@,
                                source_dir: opt_view(source_dir),
                                destination_dir: opt_view(destination_dir),
                            }),
                        ));
                        ResolveStep::Load(next)
                    },
                    ConfigCore::RootConfig(named) => {
                        let base = Config {
                            source_dir: join(
                                dir.as_str(),
                                named.source_dir.as_str(),
                                home_of(&self.home),
                            ),
                            destination_dir: join(
                                dir.as_str(),
                                named.destination_dir.as_str(),
                                home_of(&self.home),
                            ),
                        };
                        let config = self.pass_down(base);
                        let mut absolute_symlinks = SymlinkTable::new();
                        place_links(
                            &mut absolute_symlinks,
                            &config,
                            &self.symlinks,
                            home_of(&self.home),
                        );
                        self.reset();
                        ResolveStep::Done(ExtendedConfig { config, absolute_symlinks })
                    },
                }
            },
        }
    }
}

/// What the resolver of several files asks of its caller, or what it found.
#[derive(Debug, PartialEq, Eq)]
pub enum SymlinksStep {
    /// Read the file at this path and hand back what reading it gave.
    Load(String),
    /// Every file is resolved: the links that they declare together.
    Done(SymlinkTable),
    /// A file cannot be resolved, and so none of the links is given.
    Failed(ParseConfigFileError),
}

/// [`SymlinksStep`] with its texts as sequences of characters.
pub enum SymlinksStepView {
    Load(Seq<char>),
    Done(Seq<Link>),
    Failed(ParseErrorView),
}

impl View for SymlinksStep {
    type V = SymlinksStepView;

    open spec fn view(&self) -> SymlinksStepView {
        match self {
            SymlinksStep::Load(path) => SymlinksStepView::Load(path@),
            SymlinksStep::Done(symlinks) => SymlinksStepView::Done(symlinks@),
            SymlinksStep::Failed(error) => SymlinksStepView::Failed(error@),
        }
    }
}

/// The state of the resolver of several files: the files asked for, the
/// place of the one at hand, the resolver of that file, and the links of
/// the files before it.
pub struct SymlinksView {
    pub files: Seq<Seq<char>>,
    pub at: nat,
    pub resolver: ResolverView,
    pub symlinks: Seq<Link>,
}

/// The texts that the given strings hold.
pub open spec fn texts_of(texts: Seq<String>) -> Seq<Seq<char>> {
    Seq::new(texts.len(), |i: int| texts[i]@)
}

/// The resolver goes on to the file at place `i`, and ends with the links
/// gathered where there is no such file.  Once it has ended it holds no
/// link.
pub open spec fn to_file_at(state: SymlinksView, i: nat) -> (SymlinksView, SymlinksStepView) {
    if i < state.files.len() {
        (SymlinksView { at: i, ..state }, SymlinksStepView::Load(state.files[i as int]))
    } else {
        (
            SymlinksView { at: state.files.len(), symlinks: Seq::empty(), ..state },
            SymlinksStepView::Done(state.symlinks),
        )
    }
}

/// What the resolver of several files does with what reading a file gave.
///
/// What was read goes to the resolver of the file at hand, as
/// [`step_spec`] says.  Where that asks for another file, so does this.
/// Where it resolves the file, the links of the file are set in those
/// gathered so far, so that a later file decides the target of a name that
/// an earlier file declared too, and the resolver goes on to the next file.
/// Where it fails, this fails with the same failure and gives no link.
/// Once every file is resolved, or one has failed, the resolver has ended:
/// whatever it is handed then, it answers with no links.
pub open spec fn symlinks_next(state: SymlinksView, load: FileLoadView) -> (
    SymlinksView,
    SymlinksStepView,
) {
    if state.at >= state.files.len() {
        to_file_at(state, state.at)
    } else {
        let (resolver, answer) = step_spec(state.resolver, load);
        match answer {
            ResolveStepView::Load(path) => (
                SymlinksView { resolver, ..state },
                SymlinksStepView::Load(path),
            ),
            ResolveStepView::Done(resolved) => to_file_at(
                SymlinksView {
                    resolver,
                    symlinks: absorbed(state.symlinks, resolved.absolute_symlinks),
                    ..state
                },
                state.at + 1,
            ),
            ResolveStepView::Failed(error) => (
                SymlinksView {
                    resolver,
                    at: state.files.len(),
                    symlinks: Seq::empty(),
                    ..state
                },
                SymlinksStepView::Failed(error),
            ),
        }
    }
}

/// Resolves several declaration files, one after the other, to the links
/// that they declare together.
#[derive(Debug)]
pub struct SymlinksResolver {
    files: Vec<String>,
    at: usize,
    resolver: ConfigResolver,
    symlinks: SymlinkTable,
}

impl View for SymlinksResolver {
    type V = SymlinksView;

    closed spec fn view(&self) -> SymlinksView {
        SymlinksView {
            files: texts_of(self.files@),
            at: self.at as nat,
            resolver: self.resolver@,
            symlinks: self.symlinks@,
        }
    }
}

fn copy_texts(texts: &Vec<String>) -> (copy: Vec<String>)
    ensures
        texts_of(copy@) == texts_of(texts@),
{
    let mut copy: Vec<String> = Vec::new();
    let mut i: usize = 0;
    while i < texts.len()
        invariant
            i <= texts.len(),
            copy@.len() == i,
            forall|k: int| 0 <= k < i ==> (#[trigger] copy@[k])@ == texts@[k]@,
        decreases texts.len() - i,
    {
        copy.push(texts[i].clone());
        i = i + 1;
    }
    assert(texts_of(copy@) =~= texts_of(texts@));
    copy
}

/// Begins to resolve the declaration files `config_files`, in their order,
/// with `home` as the home directory: the resolver, and its first answer,
/// which asks for the first file, or gives no links where there is no file.
pub fn parse_symlinks_from_config_files(config_files: &Vec<String>, home: Option<String>) -> (started:
    (SymlinksResolver, SymlinksStep))
    ensures
        (started.0@, started.1@) == to_file_at(
            (SymlinksView {
                files: texts_of(config_files@),
                at: 0,
                resolver: idle(opt_view(home)),
                symlinks: Seq::empty(),
            }),
            0,
        ),
{
    let mut resolver = SymlinksResolver {
        files: copy_texts(config_files),
        at: 0,
        resolver: ConfigResolver::new(home),
        symlinks: SymlinkTable::new(),
    };
    let step = resolver.to_file_at(0);
    (resolver, step)
}

impl SymlinksResolver {
    fn to_file_at(&mut self, i: usize) -> (step: SymlinksStep)
        ensures
            (final(self)@, step@) == to_file_at(old(self)@, i as nat),
    {
        if i < self.files.len() {
            self.at = i;
            SymlinksStep::Load(self.files[i].clone())
        } else {
            self.at = self.files.len();
            let mut symlinks = SymlinkTable::new();
            core::mem::swap(&mut self.symlinks, &mut symlinks);
            SymlinksStep::Done(symlinks)
        }
    }

    /// Takes what reading the file last asked for gave, and answers with
    /// the next request or with the end of the resolution, as
    /// [`symlinks_next`] says.
    pub fn step(&mut self, load: FileLoad) -> (answer: SymlinksStep)
        ensures
            (final(self)@, answer@) == symlinks_next(old(self)@, load@),
    {
        if self.at >= self.files.len() {
            return self.to_file_at(self.at);
        }
        match self.resolver.step(load) {
            ResolveStep::Load(path) => SymlinksStep::Load(path),
            ResolveStep::Done(resolved) => {
                absorb(&mut self.symlinks, &resolved.absolute_symlinks);
                self.to_file_at(self.at + 1)
            },
            ResolveStep::Failed(error) => {
                self.at = self.files.len();
                self.symlinks = SymlinkTable::new();
                SymlinksStep::Failed(error)
            },
        }
    }
}

/// Later files win: two root files resolved one after the other give the
/// links of the first with those of the second set over them.
pub proof fn lemma_later_file_wins(
    home: Option<Seq<char>>,
    first_path: Seq<char>,
    first: ConfigFileView,
    second_path: Seq<char>,
    second: ConfigFileView,
)
    requires
        first.config is RootConfig,
        second.config is RootConfig,
    ensures
        ({
            let start = to_file_at(
                SymlinksView {
                    files: seq![first_path, second_path],
                    at: 0,
                    resolver: idle(home),
                    symlinks: Seq::empty(),
                },
                0,
            );
            let one = symlinks_next(
                start.0,
                FileLoadView::Loaded { path: first_path, file: first },
            );
            let two = symlinks_next(one.0, FileLoadView::Loaded { path: second_path, file: second });
            let first_config = root_config(dir_of(first_path), first.config->0, home);
            let second_config = root_config(dir_of(second_path), second.config->0, home);
            &&& start.1 == SymlinksStepView::Load(first_path)
            &&& one.1 == SymlinksStepView::Load(second_path)
            &&& two.1 == SymlinksStepView::Done(
                absorbed(
                    absolute_links(first_config, first.symlinks, home),
                    absolute_links(second_config, second.symlinks, home),
                ),
            )
        }),
{
    let waiting = idle(home).waiting;
    assert(!is_waiting(waiting, first_path));
    assert(!is_waiting(waiting, second_path));
    let first_config = root_config(dir_of(first_path), first.config->0, home);
    let first_links = absolute_links(first_config, first.symlinks, home);
    assert(crate::table::distinct_names(Seq::<Link>::empty()));
    lemma_placed_distinct(Seq::empty(), first_config, first.symlinks, home);
    lemma_absorbed_onto_nothing(first_links);
}

/// The links placed from an empty table hold no name twice.
pub proof fn lemma_placed_distinct(
    table: Seq<Link>,
    config: ConfigView,
    links: Seq<Link>,
    home: Option<Seq<char>>,
)
    requires
        crate::table::distinct_names(table),
    ensures
        crate::table::distinct_names(placed(table, config, links, home)),
    decreases links.len(),
{
    if links.len() > 0 {
        lemma_placed_distinct(table, config, links.drop_last(), home);
        let link = absolute_link(config, links.last(), home);
        crate::table::lemma_inserted(
            placed(table, config, links.drop_last(), home),
            link.0,
            link.1,
        );
    }
}

/// Inheritance: a child file that names only its destination directory
/// has the source directory of the file it extends, as that file resolved
/// it, and its own destination directory, taken from the directory the
/// child lies in.
pub proof fn lemma_child_inherits(
    dir: Seq<char>,
    destination_dir: Seq<char>,
    parent: ConfigView,
    home: Option<Seq<char>>,
)
    ensures
        child_config(dir, None, Some(destination_dir), parent, home) == (ConfigView {
            source_dir: parent.source_dir,
            destination_dir: joined_paths(dir, destination_dir, home),
        }),
        child_config(dir, None, None, parent, home) == parent,
{
}

/// Inheritance with absolute directories: where a root file names the
/// absolute directories `source_dir` and `destination_dir`, both in normal
/// form, and a child file that extends it names only the absolute
/// directory `own_destination`, in normal form too, the child has the
/// source directory `source_dir` and the destination directory
/// `own_destination`, wherever the two files lie.
pub proof fn lemma_child_overrides_destination(
    root_dir: Seq<char>,
    child_dir: Seq<char>,
    source_dir: Seq<char>,
    destination_dir: Seq<char>,
    own_destination: Seq<char>,
    home: Option<Seq<char>>,
)
    requires
        is_normal_absolute(source_dir, home is Some),
        is_normal_absolute(destination_dir, home is Some),
        is_normal_absolute(own_destination, home is Some),
    ensures
        child_config(
            child_dir,
            None,
            Some(own_destination),
            root_config(root_dir, ConfigView { source_dir, destination_dir }, home),
            home,
        ) == (ConfigView { source_dir, destination_dir: own_destination }),
{
    lemma_normal_absolute_stands_alone(root_dir, source_dir, home);
    lemma_normal_absolute_stands_alone(root_dir, destination_dir, home);
    lemma_normal_absolute_stands_alone(child_dir, own_destination, home);
}

/// A child file and the root file it extends, read one after the other,
/// resolve to the child's directories as [`child_config`] gives them from
/// the root's, and to the child's links placed with those directories.
pub proof fn lemma_child_then_root(
    home: Option<Seq<char>>,
    child_path: Seq<char>,
    child: ConfigFileView,
    root_path: Seq<char>,
    root: ConfigFileView,
)
    requires
        child.config is ChildConfig,
        root.config is RootConfig,
        child_path != root_path,
    ensures
        ({
            let first = step_spec(
                idle(home),
                FileLoadView::Loaded { path: child_path, file: child },
            );
            let second = step_spec(first.0, FileLoadView::Loaded { path: root_path, file: root });
            let config = child_config(
                dir_of(child_path),
                child.config->source_dir,
                child.config->destination_dir,
                root_config(dir_of(root_path), root.config->0, home),
                home,
            );
            &&& first.1 == ResolveStepView::Load(
                appended(dir_of(child_path), child.config->extends),
            )
            &&& second.0 == idle(home)
            &&& second.1 == ResolveStepView::Done(
                ExtendedConfigView {
                    config,
                    absolute_symlinks: absolute_links(config, child.symlinks, home),
                },
            )
        }),
{
    let first = step_spec(idle(home), FileLoadView::Loaded { path: child_path, file: child });
    assert(!is_waiting(idle(home).waiting, child_path));
    let waiting = first.0.waiting;
    assert(waiting.len() == 1);
    assert(waiting[0].path == child_path);
    assert(!is_waiting(waiting, root_path));
    assert(waiting.drop_first() =~= Seq::<PendingView>::empty());
    let base = root_config(dir_of(root_path), root.config->0, home);
    assert(chain_config(waiting.drop_first(), base, home) == base);
}

} // verus!
