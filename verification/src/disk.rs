//! What was seen on disk.
//!
//! The library never looks at the disk itself.  Its caller probes each path
//! it is asked about and records what it found; the checks then read the
//! record.  A path of which nothing was recorded counts as absent.
use vstd::prelude::*;

verus! {

/// What stands at a path, the path itself looked at and no link followed.
#[derive(Debug, PartialEq, Eq)]
pub enum PathKind {
    /// Nothing is there.
    Missing,
    /// A symbolic link.
    Symlink,
    /// Something that is not a symbolic link.
    NotSymlink,
    /// The probe failed; the text says how.
    Unreadable(String),
}

/// Where a path leads once every link on the way is followed.
#[derive(Debug, PartialEq, Eq)]
pub enum Resolution {
    /// It leads nowhere: the path, or what it points to, is not there.
    Missing,
    /// It leads to this path.
    Resolved(String),
    /// Following it failed; the text says how.
    Unreadable(String),
}

/// [`PathKind`] with its texts as sequences of characters.
pub enum PathKindView {
    Missing,
    Symlink,
    NotSymlink,
    Unreadable(Seq<char>),
}

/// [`Resolution`] with its texts as sequences of characters.
pub enum ResolutionView {
    Missing,
    Resolved(Seq<char>),
    Unreadable(Seq<char>),
}

impl View for PathKind {
    type V = PathKindView;

    open spec fn view(&self) -> PathKindView {
        match self {
            PathKind::Missing => PathKindView::Missing,
            PathKind::Symlink => PathKindView::Symlink,
            PathKind::NotSymlink => PathKindView::NotSymlink,
            PathKind::Unreadable(why) => PathKindView::Unreadable(why@),
        }
    }
}

impl View for Resolution {
    type V = ResolutionView;

    open spec fn view(&self) -> ResolutionView {
        match self {
            Resolution::Missing => ResolutionView::Missing,
            Resolution::Resolved(path) => ResolutionView::Resolved(path@),
            Resolution::Unreadable(why) => ResolutionView::Unreadable(why@),
        }
    }
}

/// What was seen at one path.
#[derive(Debug, PartialEq, Eq)]
pub struct Sighting {
    pub name: String,
    pub kind: PathKind,
    pub resolved: Resolution,
}

/// [`Sighting`] with its texts as sequences of characters.
pub struct SightingView {
    pub name: Seq<char>,
    pub kind: PathKindView,
    pub resolved: ResolutionView,
}

impl View for Sighting {
    type V = SightingView;

    open spec fn view(&self) -> SightingView {
        SightingView { name: self.name@, kind: self.kind@, resolved: self.resolved@ }
    }
}

/// The views of the given sightings.
pub open spec fn sightings_of(seen: Seq<Sighting>) -> Seq<SightingView> {
    Seq::new(seen.len(), |i: int| seen[i]@)
}

/// The latest sighting of `name` among `seen`, if there is one.
pub open spec fn sighting_of(seen: Seq<SightingView>, name: Seq<char>) -> Option<SightingView>
    decreases seen.len(),
{
    if seen.len() == 0 {
        None
    } else if seen.last().name == name {
        Some(seen.last())
    } else {
        sighting_of(seen.drop_last(), name)
    }
}

/// What stands at `name` as far as `seen` tells.
pub open spec fn kind_at(seen: Seq<SightingView>, name: Seq<char>) -> PathKindView {
    match sighting_of(seen, name) {
        Some(s) => s.kind,
        None => PathKindView::Missing,
    }
}

/// Where `name` leads as far as `seen` tells.
pub open spec fn resolution_at(seen: Seq<SightingView>, name: Seq<char>) -> ResolutionView {
    match sighting_of(seen, name) {
        Some(s) => s.resolved,
        None => ResolutionView::Missing,
    }
}

/// A record of what was seen on disk, path by path.
#[derive(Debug, PartialEq, Eq)]
pub struct DiskSnapshot {
    seen: Vec<Sighting>,
}

impl View for DiskSnapshot {
    type V = Seq<SightingView>;

    closed spec fn view(&self) -> Seq<SightingView> {
        sightings_of(self.seen@)
    }
}

impl DiskSnapshot {
    /// A record that holds nothing.
    pub fn new() -> (disk: Self)
        ensures
            disk@ == Seq::<SightingView>::empty(),
    {
        let disk = DiskSnapshot { seen: Vec::new() };
        assert(disk@ =~= Seq::<SightingView>::empty());
        disk
    }

    /// Records what was seen at `name`.  A later record of the same path
    /// replaces an earlier one.
    pub fn record(&mut self, name: &str, kind: PathKind, resolved: Resolution)
        ensures
            final(self)@ == old(self)@.push(
                (SightingView { name: name@, kind: kind@, resolved: resolved@ }),
            ),
            kind_at(final(self)@, name@) == kind@,
            resolution_at(final(self)@, name@) == resolved@,
    {
        let sighting = Sighting { name: name.to_owned(), kind, resolved };
        self.seen.push(sighting);
        assert(self@ =~= old(self)@.push(
            (SightingView { name: name@, kind: kind@, resolved: resolved@ }),
        ));
    }

    /// The number of records made.
    pub fn len(&self) -> (n: usize)
        ensures
            n == self@.len(),
    {
        self.seen.len()
    }

    fn find(&self, name: &String) -> (place: Option<usize>)
        ensures
            match place {
                Some(i) => i < self@.len() && sighting_of(self@, name@) == Some(self@[i as int]),
                None => sighting_of(self@, name@) is None,
            },
    {
        let mut place: Option<usize> = None;
        let mut i: usize = 0;
        while i < self.seen.len()
            invariant
                i <= self.seen.len(),
                match place {
                    Some(p) => p < i && sighting_of(self@.take(i as int), name@) == Some(
                        self@[p as int],
                    ),
                    None => sighting_of(self@.take(i as int), name@) is None,
                },
            decreases self.seen.len() - i,
        {
            proof {
                assert(self@.take(i + 1).drop_last() == self@.take(i as int));
                assert(self@.take(i + 1).last() == self@[i as int]);
            }
            if self.seen[i].name == *name {
                place = Some(i);
            }
            i = i + 1;
        }
        assert(self@.take(i as int) == self@);
        place
    }

    /// What stands at `name`: what was last recorded of it, and
    /// [`PathKind::Missing`] where nothing was.
    pub fn kind(&self, name: &str) -> (kind: &PathKind)
        ensures
            kind@ == kind_at(self@, name@),
    {
        let key = name.to_owned();
        match self.find(&key) {
            Some(i) => &self.seen[i].kind,
            None => &PathKind::Missing,
        }
    }

    /// Where `name` leads: what was last recorded of it, and
    /// [`Resolution::Missing`] where nothing was.
    pub fn resolution(&self, name: &str) -> (resolved: &Resolution)
        ensures
            resolved@ == resolution_at(self@, name@),
    {
        let key = name.to_owned();
        match self.find(&key) {
            Some(i) => &self.seen[i].resolved,
            None => &Resolution::Missing,
        }
    }
}

} // verus!
