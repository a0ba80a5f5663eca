//! Paths, read by their components.
//!
//! A path is a text in which `/` separates segments.  Empty segments (a run
//! of separators, a separator at the end) and `.` segments name nothing and
//! are passed over; a path that begins with `/` is rooted.  Normalizing a
//! path walks its segments from left to right and keeps the names it ends up
//! with, so `..` and `~` never survive where they can be resolved.
use vstd::prelude::*;
use crate::text::{append_chars, chars_of, copy_chars, text_of};

verus! {

/// A path taken apart: whether it starts at the root, and the names below.
pub struct PathParts {
    pub rooted: bool,
    pub names: Seq<Seq<char>>,
}

/// The segment that names the current directory.
pub open spec fn dot() -> Seq<char> {
    seq!['.']
}

/// The segment that names the parent directory.
pub open spec fn dot_dot() -> Seq<char> {
    seq!['.', '.']
}

/// The segment that names the home directory.
pub open spec fn tilde() -> Seq<char> {
    seq!['~']
}

/// Whether the path begins at the root.
pub open spec fn is_rooted(path: Seq<char>) -> bool {
    path.len() > 0 && path[0] == '/'
}

/// Reads `path` from left to right: the segments closed so far, and the
/// characters of the segment still open at the end.
pub open spec fn scan(path: Seq<char>) -> (Seq<Seq<char>>, Seq<char>)
    decreases path.len(),
{
    if path.len() == 0 {
        (Seq::empty(), Seq::empty())
    } else {
        let (closed, open) = scan(path.drop_last());
        if path.last() == '/' {
            if open.len() > 0 {
                (closed.push(open), Seq::empty())
            } else {
                (closed, Seq::empty())
            }
        } else {
            (closed, open.push(path.last()))
        }
    }
}

/// The segments of `path`: its maximal runs of characters other than `/`,
/// in order.
pub open spec fn segments(path: Seq<char>) -> Seq<Seq<char>> {
    let (closed, open) = scan(path);
    if open.len() > 0 {
        closed.push(open)
    } else {
        closed
    }
}

/// The given segments without those that are `.`.
pub open spec fn without_dots(segs: Seq<Seq<char>>) -> Seq<Seq<char>>
    decreases segs.len(),
{
    if segs.len() == 0 {
        Seq::empty()
    } else if segs.last() == dot() {
        without_dots(segs.drop_last())
    } else {
        without_dots(segs.drop_last()).push(segs.last())
    }
}

/// A path as it stands, taken apart: nothing is resolved but `.`.
pub open spec fn parts_of(path: Seq<char>) -> PathParts {
    PathParts { rooted: is_rooted(path), names: without_dots(segments(path)) }
}

/// One step of the walk: what `acc` becomes after the segment `seg`.
///
/// `.` changes nothing.  `..` drops the last name, and changes nothing where
/// there is none.  `~` starts over from the home directory where one is
/// known, and is kept as a name where none is.  Any other segment is a name.
pub open spec fn step(acc: PathParts, seg: Seq<char>, home: Option<PathParts>) -> PathParts {
    if seg == dot() {
        acc
    } else if seg == dot_dot() {
        if acc.names.len() > 0 {
            PathParts { rooted: acc.rooted, names: acc.names.drop_last() }
        } else {
            acc
        }
    } else if seg == tilde() && home is Some {
        home->0
    } else {
        PathParts { rooted: acc.rooted, names: acc.names.push(seg) }
    }
}

/// The walk over `segs` from left to right, starting from `acc`.
pub open spec fn walk(acc: PathParts, segs: Seq<Seq<char>>, home: Option<PathParts>) -> PathParts
    decreases segs.len(),
{
    if segs.len() == 0 {
        acc
    } else {
        step(walk(acc, segs.drop_last(), home), segs.last(), home)
    }
}

/// The names joined by single separators.
pub open spec fn joined(names: Seq<Seq<char>>) -> Seq<char>
    decreases names.len(),
{
    if names.len() == 0 {
        Seq::empty()
    } else if names.len() == 1 {
        names[0]
    } else {
        joined(names.drop_last()) + seq!['/'] + names.last()
    }
}

/// The text of a path taken apart.
pub open spec fn render(parts: PathParts) -> Seq<char> {
    if parts.rooted {
        seq!['/'] + joined(parts.names)
    } else {
        joined(parts.names)
    }
}

/// The home directory as the walk uses it.
pub open spec fn home_parts(home: Option<Seq<char>>) -> Option<PathParts> {
    match home {
        Some(h) => Some(parts_of(h)),
        None => None,
    }
}

/// The parts of `path` once normalized.
pub open spec fn normalized_parts(path: Seq<char>, home: Option<Seq<char>>) -> PathParts {
    walk(
        PathParts { rooted: is_rooted(path), names: Seq::empty() },
        segments(path),
        home_parts(home),
    )
}

/// The normal form of `path`, with `home` as the home directory.
pub open spec fn normalized(path: Seq<char>, home: Option<Seq<char>>) -> Seq<char> {
    render(normalized_parts(path, home))
}

/// `second` put behind `first`: a rooted `second` stands alone, and a
/// separator is added only where `first` does not already end in one.
pub open spec fn appended(first: Seq<char>, second: Seq<char>) -> Seq<char> {
    if is_rooted(second) {
        second
    } else if first.len() == 0 || first.last() == '/' {
        first + second
    } else {
        first + seq!['/'] + second
    }
}

/// The normal form of `second` put behind `first`.
pub open spec fn joined_paths(first: Seq<char>, second: Seq<char>, home: Option<Seq<char>>) -> Seq<
    char,
> {
    normalized(appended(first, second), home)
}

/// The directory that holds `path`: the path without its last name, or
/// nothing where it has no name.
pub open spec fn parent_of(path: Seq<char>) -> Option<Seq<char>> {
    let parts = parts_of(path);
    if parts.names.len() == 0 {
        None
    } else {
        Some(render(PathParts { rooted: parts.rooted, names: parts.names.drop_last() }))
    }
}

/// What an optional text holds.
pub open spec fn opt_text(text: Option<&str>) -> Option<Seq<char>> {
    match text {
        Some(t) => Some(t@),
        None => None,
    }
}

/// The texts that the given character vectors hold.
pub open spec fn names_of(segs: Seq<Vec<char>>) -> Seq<Seq<char>> {
    Seq::new(segs.len(), |i: int| segs[i]@)
}

proof fn lemma_names_push(segs: Seq<Vec<char>>, seg: Vec<char>)
    ensures
        names_of(segs.push(seg)) == names_of(segs).push(seg@),
{
    assert(names_of(segs.push(seg)) =~= names_of(segs).push(seg@));
}

proof fn lemma_names_drop_last(segs: Seq<Vec<char>>)
    requires
        segs.len() > 0,
    ensures
        names_of(segs.drop_last()) == names_of(segs).drop_last(),
{
    assert(names_of(segs.drop_last()) =~= names_of(segs).drop_last());
}

fn is_dot(seg: &Vec<char>) -> (b: bool)
    ensures
        b == (seg@ == dot()),
{
    let b = seg.len() == 1 && seg[0] == '.';
    proof {
        if b {
            assert(seg@ =~= dot());
        }
    }
    b
}

fn is_dot_dot(seg: &Vec<char>) -> (b: bool)
    ensures
        b == (seg@ == dot_dot()),
{
    let b = seg.len() == 2 && seg[0] == '.' && seg[1] == '.';
    proof {
        if b {
            assert(seg@ =~= dot_dot());
        }
    }
    b
}

fn is_tilde(seg: &Vec<char>) -> (b: bool)
    ensures
        b == (seg@ == tilde()),
{
    let b = seg.len() == 1 && seg[0] == '~';
    proof {
        if b {
            assert(seg@ =~= tilde());
        }
    }
    b
}

fn starts_at_root(chars: &Vec<char>) -> (b: bool)
    ensures
        b == is_rooted(chars@),
{
    chars.len() > 0 && chars[0] == '/'
}

fn split_segments(chars: &Vec<char>) -> (segs: Vec<Vec<char>>)
    ensures
        names_of(segs@) == segments(chars@),
{
    let mut segs: Vec<Vec<char>> = Vec::new();
    let mut open: Vec<char> = Vec::new();
    let mut i: usize = 0;
    assert(names_of(segs@) =~= Seq::<Seq<char>>::empty());
    while i < chars.len()
        invariant
            i <= chars.len(),
            (names_of(segs@), open@) == scan(chars@.take(i as int)),
        decreases chars.len() - i,
    {
        let c = chars[i];
        proof {
            assert(chars@.take(i + 1).drop_last() == chars@.take(i as int));
            assert(chars@.take(i + 1).last() == c);
        }
        if c == '/' {
            if open.len() > 0 {
                proof {
                    lemma_names_push(segs@, open);
                }
                segs.push(open);
                open = Vec::new();
            }
        } else {
            open.push(c);
        }
        i = i + 1;
    }
    assert(chars@.take(i as int) == chars@);
    if open.len() > 0 {
        proof {
            lemma_names_push(segs@, open);
        }
        segs.push(open);
    }
    segs
}

fn copy_names(segs: &Vec<Vec<char>>) -> (copy: Vec<Vec<char>>)
    ensures
        names_of(copy@) == names_of(segs@),
{
    let mut copy: Vec<Vec<char>> = Vec::new();
    let mut i: usize = 0;
    while i < segs.len()
        invariant
            i <= segs.len(),
            names_of(copy@) == names_of(segs@).take(i as int),
        decreases segs.len() - i,
    {
        let seg = copy_chars(&segs[i]);
        proof {
            lemma_names_push(copy@, seg);
            assert(names_of(segs@).take(i + 1) =~= names_of(segs@).take(i as int).push(seg@));
        }
        copy.push(seg);
        i = i + 1;
    }
    assert(names_of(segs@).take(i as int) == names_of(segs@));
    copy
}

fn drop_dots(segs: &Vec<Vec<char>>) -> (kept: Vec<Vec<char>>)
    ensures
        names_of(kept@) == without_dots(names_of(segs@)),
{
    let mut kept: Vec<Vec<char>> = Vec::new();
    let mut i: usize = 0;
    while i < segs.len()
        invariant
            i <= segs.len(),
            names_of(kept@) == without_dots(names_of(segs@).take(i as int)),
        decreases segs.len() - i,
    {
        proof {
            let all = names_of(segs@);
            assert(all.take(i + 1).drop_last() == all.take(i as int));
            assert(all.take(i + 1).last() == segs@[i as int]@);
        }
        if !is_dot(&segs[i]) {
            let seg = copy_chars(&segs[i]);
            proof {
                lemma_names_push(kept@, seg);
            }
            kept.push(seg);
        }
        i = i + 1;
    }
    assert(names_of(segs@).take(i as int) == names_of(segs@));
    kept
}

fn render_parts(rooted: bool, names: &Vec<Vec<char>>) -> (out: Vec<char>)
    ensures
        out@ == render((PathParts { rooted, names: names_of(names@) })),
{
    let mut out: Vec<char> = Vec::new();
    if rooted {
        out.push('/');
    }
    let ghost head = out@;
    let mut i: usize = 0;
    while i < names.len()
        invariant
            i <= names.len(),
            head == if rooted { seq!['/'] } else { Seq::<char>::empty() },
            out@ == head + joined(names_of(names@).take(i as int)),
        decreases names.len() - i,
    {
        proof {
            let all = names_of(names@);
            assert(all.take(i + 1).drop_last() == all.take(i as int));
            assert(all.take(i + 1).last() == names@[i as int]@);
            if i == 0 {
                assert(joined(all.take(1)) == names@[0]@);
                assert(joined(all.take(0)) == Seq::<char>::empty());
            }
        }
        if i > 0 {
            out.push('/');
        }
        append_chars(&mut out, &names[i]);
        proof {
            let all = names_of(names@);
            assert(out@ =~= head + joined(all.take(i + 1)));
        }
        i = i + 1;
    }
    assert(names_of(names@).take(i as int) == names_of(names@));
    assert(out@ =~= render(PathParts { rooted, names: names_of(names@) }));
    out
}

/// The normal form of `path`.
///
/// The segments of `path` are taken from left to right.  A leading `/` is
/// kept.  `.` is dropped; `..` removes the name before it and is dropped
/// itself where there is none to remove; `~` starts the path over from
/// `home` where a home directory is given, and stays as a name where none
/// is.  The names left are joined by single separators.
pub fn normalize_path(path: &str, home: Option<&str>) -> (out: String)
    ensures
        out@ == normalized(path@, opt_text(home)),
{
    let chars = chars_of(path);
    let segs = split_segments(&chars);
    let mut rooted = starts_at_root(&chars);
    let mut names: Vec<Vec<char>> = Vec::new();
    let mut home_rooted = false;
    let mut home_names: Vec<Vec<char>> = Vec::new();
    match home {
        Some(h) => {
            let home_chars = chars_of(h);
            home_rooted = starts_at_root(&home_chars);
            let home_segs = split_segments(&home_chars);
            home_names = drop_dots(&home_segs);
        },
        None => {},
    }
    let ghost start = PathParts { rooted, names: Seq::<Seq<char>>::empty() };
    let ghost hp = home_parts(opt_text(home));
    assert(names_of(names@) =~= Seq::<Seq<char>>::empty());
    let mut i: usize = 0;
    while i < segs.len()
        invariant
            i <= segs.len(),
            hp == home_parts(opt_text(home)),
            home is Some ==> hp == Some(
                (PathParts { rooted: home_rooted, names: names_of(home_names@) }),
            ),
            home is None ==> hp is None,
            (PathParts { rooted, names: names_of(names@) }) == walk(
                start,
                names_of(segs@).take(i as int),
                hp,
            ),
        decreases segs.len() - i,
    {
        proof {
            let all = names_of(segs@);
            assert(all.take(i + 1).drop_last() == all.take(i as int));
            assert(all.take(i + 1).last() == segs@[i as int]@);
        }
        let seg = &segs[i];
        if is_dot(seg) {
        } else if is_dot_dot(seg) {
            if names.len() > 0 {
                proof {
                    lemma_names_drop_last(names@);
                }
                names.pop();
            }
        } else if is_tilde(seg) && home.is_some() {
            rooted = home_rooted;
            names = copy_names(&home_names);
        } else {
            let name = copy_chars(seg);
            proof {
                lemma_names_push(names@, name);
            }
            names.push(name);
        }
        i = i + 1;
    }
    assert(names_of(segs@).take(i as int) == names_of(segs@));
    let out = render_parts(rooted, &names);
    text_of(&out)
}

/// `second` put behind `first`, as it stands: a rooted `second` replaces
/// `first`, and otherwise a separator comes between the two unless `first`
/// is empty or ends in one.
pub fn append_path(first: &str, second: &str) -> (out: String)
    ensures
        out@ == appended(first@, second@),
{
    let head = chars_of(first);
    let tail = chars_of(second);
    let mut whole: Vec<char> = Vec::new();
    if starts_at_root(&tail) {
        append_chars(&mut whole, &tail);
    } else {
        append_chars(&mut whole, &head);
        if head.len() > 0 && head[head.len() - 1] != '/' {
            whole.push('/');
        }
        append_chars(&mut whole, &tail);
    }
    assert(whole@ =~= appended(first@, second@));
    text_of(&whole)
}

/// `second` put behind `first`, in normal form.
///
/// A rooted `second` replaces `first`; otherwise the two are put together
/// with a separator between them, and the whole is normalized as
/// [`normalize_path`] does.
pub fn join(first: &str, second: &str, home: Option<&str>) -> (out: String)
    ensures
        out@ == joined_paths(first@, second@, opt_text(home)),
{
    let whole = append_path(first, second);
    normalize_path(whole.as_str(), home)
}

/// The directory that holds `path`, by its components: the path without
/// its last name.  A path without a name (empty, or the root alone) has
/// none.
pub fn parent(path: &str) -> (out: Option<String>)
    ensures
        match out {
            Some(dir) => parent_of(path@) == Some(dir@),
            None => parent_of(path@) is None,
        },
{
    let chars = chars_of(path);
    let segs = split_segments(&chars);
    let mut names = drop_dots(&segs);
    if names.len() == 0 {
        None
    } else {
        proof {
            lemma_names_drop_last(names@);
        }
        names.pop();
        let out = render_parts(starts_at_root(&chars), &names);
        Some(text_of(&out))
    }
}

/// Whether `seg` can be a segment: it is not empty and holds no separator.
pub open spec fn is_segment(seg: Seq<char>) -> bool {
    seg.len() > 0 && forall|k: int| 0 <= k < seg.len() ==> seg[k] != '/'
}

proof fn lemma_scan_gives_segments(path: Seq<char>)
    ensures
        forall|i: int| 0 <= i < scan(path).0.len() ==> is_segment(#[trigger] scan(path).0[i]),
        forall|k: int| 0 <= k < scan(path).1.len() ==> scan(path).1[k] != '/',
    decreases path.len(),
{
    if path.len() > 0 {
        lemma_scan_gives_segments(path.drop_last());
        let (closed, open) = scan(path.drop_last());
        let after = scan(path);
        if path.last() == '/' {
            if open.len() > 0 {
                assert(is_segment(open));
                assert forall|i: int| 0 <= i < after.0.len() implies is_segment(
                    #[trigger] after.0[i],
                ) by {
                    if i < closed.len() {
                        assert(after.0[i] == closed[i]);
                    }
                }
            }
        } else {
            assert forall|k: int| 0 <= k < after.1.len() implies after.1[k] != '/' by {
                if k < open.len() {
                    assert(after.1[k] == open[k]);
                }
            }
        }
    }
}

/// Every segment of a path is a run of at least one character and holds no
/// separator.
pub proof fn lemma_segments_are_segments(path: Seq<char>)
    ensures
        forall|i: int| 0 <= i < segments(path).len() ==> is_segment(#[trigger] segments(path)[i]),
{
    lemma_scan_gives_segments(path);
    let (closed, open) = scan(path);
    assert forall|i: int| 0 <= i < segments(path).len() implies is_segment(
        #[trigger] segments(path)[i],
    ) by {
        if i < closed.len() {
            assert(segments(path)[i] == closed[i]);
        }
    }
}

/// A rooted path stays rooted: the normal form of a path that begins at the
/// root begins at the root, provided that the home directory, where one is
/// given, begins there too.
pub proof fn lemma_rooted_stays_rooted(path: Seq<char>, home: Option<Seq<char>>)
    requires
        is_rooted(path),
        home matches Some(h) ==> is_rooted(h),
    ensures
        normalized_parts(path, home).rooted,
        is_rooted(normalized(path, home)),
{
    lemma_walk_stays_rooted(
        PathParts { rooted: true, names: Seq::empty() },
        segments(path),
        home_parts(home),
    );
}

proof fn lemma_walk_stays_rooted(acc: PathParts, segs: Seq<Seq<char>>, home: Option<PathParts>)
    requires
        acc.rooted,
        home matches Some(h) ==> h.rooted,
    ensures
        walk(acc, segs, home).rooted,
    decreases segs.len(),
{
    if segs.len() > 0 {
        lemma_walk_stays_rooted(acc, segs.drop_last(), home);
    }
}

/// Whether none of `names` is `.` or `..`.
pub open spec fn no_dots(names: Seq<Seq<char>>) -> bool {
    forall|i: int| 0 <= i < names.len() ==> #[trigger] names[i] != dot() && names[i] != dot_dot()
}

proof fn lemma_walk_leaves_no_dots(acc: PathParts, segs: Seq<Seq<char>>, home: Option<PathParts>)
    requires
        no_dots(acc.names),
        home matches Some(h) ==> no_dots(h.names),
    ensures
        no_dots(walk(acc, segs, home).names),
    decreases segs.len(),
{
    if segs.len() > 0 {
        lemma_walk_leaves_no_dots(acc, segs.drop_last(), home);
        let before = walk(acc, segs.drop_last(), home);
        let after = step(before, segs.last(), home);
        let seg = segs.last();
        assert forall|i: int| 0 <= i < after.names.len() implies #[trigger] after.names[i] != dot()
            && after.names[i] != dot_dot() by {
            if seg == dot() {
            } else if seg == dot_dot() {
                assert(after.names[i] == before.names[i]);
            } else if seg == tilde() && home is Some {
            } else if i < before.names.len() {
                assert(after.names[i] == before.names[i]);
            }
        }
    }
}

proof fn lemma_without_dots(segs: Seq<Seq<char>>)
    ensures
        forall|i: int|
            0 <= i < without_dots(segs).len() ==> #[trigger] without_dots(segs)[i] != dot()
                && segs.contains(without_dots(segs)[i]),
    decreases segs.len(),
{
    if segs.len() > 0 {
        let rest = segs.drop_last();
        lemma_without_dots(rest);
        let kept = without_dots(segs);
        assert forall|i: int| 0 <= i < kept.len() implies #[trigger] kept[i] != dot()
            && segs.contains(kept[i]) by {
            if i < without_dots(rest).len() {
                let j = choose|j: int| 0 <= j < rest.len() && rest[j] == without_dots(rest)[i];
                assert(segs[j] == kept[i]);
            } else {
                assert(segs[segs.len() - 1] == kept[i]);
            }
        }
    }
}

/// A normal form holds no `.` and no `..`, provided that the home
/// directory, where one is given, holds no `..`.
pub proof fn lemma_normal_form_has_no_dots(path: Seq<char>, home: Option<Seq<char>>)
    requires
        home matches Some(h) ==> !segments(h).contains(dot_dot()),
    ensures
        no_dots(normalized_parts(path, home).names),
{
    match home {
        Some(h) => {
            lemma_without_dots(segments(h));
            let kept = without_dots(segments(h));
            assert forall|i: int| 0 <= i < kept.len() implies #[trigger] kept[i] != dot()
                && kept[i] != dot_dot() by {
                assert(segments(h).contains(kept[i]));
            }
        },
        None => {},
    }
    lemma_walk_leaves_no_dots(
        PathParts { rooted: is_rooted(path), names: Seq::empty() },
        segments(path),
        home_parts(home),
    );
}

/// Whether `names` are names that the walk leaves as they are: segments
/// other than `.` and `..`, and other than `~` where a home directory is
/// known.
pub open spec fn settled(names: Seq<Seq<char>>, home_known: bool) -> bool {
    forall|i: int|
        0 <= i < names.len() ==> is_segment(#[trigger] names[i]) && names[i] != dot() && names[i]
            != dot_dot() && (home_known ==> names[i] != tilde())
}

proof fn lemma_scan_goes_on(path: Seq<char>, more: Seq<char>)
    requires
        forall|k: int| 0 <= k < more.len() ==> more[k] != '/',
    ensures
        scan(path + more) == (scan(path).0, scan(path).1 + more),
    decreases more.len(),
{
    if more.len() == 0 {
        assert(path + more =~= path);
        assert(scan(path).1 + more =~= scan(path).1);
    } else {
        let rest = more.drop_last();
        lemma_scan_goes_on(path, rest);
        assert((path + more).drop_last() =~= path + rest);
        assert((path + more).last() == more.last());
        assert((scan(path).1 + rest).push(more.last()) =~= scan(path).1 + more);
    }
}

proof fn lemma_scan_closes(path: Seq<char>)
    ensures
        scan(path + seq!['/']) == (segments(path), Seq::<char>::empty()),
{
    assert((path + seq!['/']).drop_last() =~= path);
}

proof fn lemma_scan_of_root()
    ensures
        scan(seq!['/']) == (Seq::<Seq<char>>::empty(), Seq::<char>::empty()),
        scan(Seq::<char>::empty()) == (Seq::<Seq<char>>::empty(), Seq::<char>::empty()),
{
    let root = seq!['/'];
    assert(root.drop_last() =~= Seq::<char>::empty());
    assert(scan(root.drop_last()) == (Seq::<Seq<char>>::empty(), Seq::<char>::empty()));
    assert(root.last() == '/');
}

proof fn lemma_render_reads_back(rooted: bool, names: Seq<Seq<char>>)
    requires
        forall|i: int| 0 <= i < names.len() ==> is_segment(#[trigger] names[i]),
    ensures
        segments(render(PathParts { rooted, names })) == names,
        is_rooted(render(PathParts { rooted, names })) == rooted,
    decreases names.len(),
{
    let head = if rooted {
        seq!['/']
    } else {
        Seq::<char>::empty()
    };
    let text = render(PathParts { rooted, names });
    assert(text =~= head + joined(names));
    if names.len() == 0 {
        assert(text =~= head);
        lemma_scan_of_root();
        assert(segments(text) =~= names);
    } else {
        let rest = names.drop_last();
        let last = names.last();
        assert(is_segment(last));
        assert forall|i: int| 0 <= i < rest.len() implies is_segment(#[trigger] rest[i]) by {
            assert(rest[i] == names[i]);
        }
        lemma_render_reads_back(rooted, rest);
        let before = render(PathParts { rooted, names: rest });
        if rest.len() == 0 {
            assert(before =~= head);
            assert(joined(names) == last);
            assert(text =~= before + last);
            lemma_scan_goes_on(before, last);
            lemma_scan_of_root();
            assert(scan(before).1.len() == 0);
            assert(scan(before).1 + last =~= last);
            assert(segments(text) =~= names);
        } else {
            assert(joined(names) == joined(rest) + seq!['/'] + last);
            assert(text =~= (before + seq!['/']) + last);
            lemma_scan_closes(before);
            lemma_scan_goes_on(before + seq!['/'], last);
            assert(Seq::<char>::empty() + last =~= last);
            assert(segments(text) =~= rest.push(last));
            assert(rest.push(last) =~= names);
        }
        if !rooted {
            assert(names[0].len() > 0);
            if rest.len() == 0 {
                assert(text[0] == last[0]);
            } else {
                assert(is_rooted(before) == false);
                assert(before.len() > 0) by {
                    lemma_joined_not_empty(rest);
                }
                assert(text[0] == before[0]);
            }
        }
    }
}

proof fn lemma_joined_not_empty(names: Seq<Seq<char>>)
    requires
        names.len() > 0,
        forall|i: int| 0 <= i < names.len() ==> is_segment(#[trigger] names[i]),
    ensures
        joined(names).len() > 0,
{
    assert(is_segment(names[names.len() - 1]));
    assert(is_segment(names[0]));
}

proof fn lemma_walk_keeps_settled(acc: PathParts, segs: Seq<Seq<char>>, home: Option<PathParts>)
    requires
        settled(acc.names, home is Some),
        home matches Some(h) ==> settled(h.names, true),
        forall|i: int| 0 <= i < segs.len() ==> is_segment(#[trigger] segs[i]),
    ensures
        settled(walk(acc, segs, home).names, home is Some),
    decreases segs.len(),
{
    if segs.len() > 0 {
        let rest = segs.drop_last();
        assert forall|i: int| 0 <= i < rest.len() implies is_segment(#[trigger] rest[i]) by {
            assert(rest[i] == segs[i]);
        }
        lemma_walk_keeps_settled(acc, rest, home);
        let before = walk(acc, rest, home);
        let seg = segs.last();
        let after = step(before, seg, home);
        assert(is_segment(seg));
        assert forall|i: int| 0 <= i < after.names.len() implies is_segment(
            #[trigger] after.names[i],
        ) && after.names[i] != dot() && after.names[i] != dot_dot() && (home is Some
            ==> after.names[i] != tilde()) by {
            if seg == dot() {
            } else if seg == dot_dot() {
                assert(after.names[i] == before.names[i]);
            } else if seg == tilde() && home is Some {
            } else if i < before.names.len() {
                assert(after.names[i] == before.names[i]);
            }
        }
    }
}

proof fn lemma_walk_over_settled(acc: PathParts, names: Seq<Seq<char>>, home: Option<PathParts>)
    requires
        settled(names, home is Some),
    ensures
        walk(acc, names, home) == (PathParts { rooted: acc.rooted, names: acc.names + names }),
    decreases names.len(),
{
    if names.len() == 0 {
        assert(acc.names + names =~= acc.names);
    } else {
        let rest = names.drop_last();
        assert forall|i: int| 0 <= i < rest.len() implies is_segment(#[trigger] rest[i])
            && rest[i] != dot() && rest[i] != dot_dot() && (home is Some ==> rest[i]
            != tilde()) by {
            assert(rest[i] == names[i]);
        }
        lemma_walk_over_settled(acc, rest, home);
        assert(is_segment(names[names.len() - 1]));
        assert((acc.names + rest).push(names.last()) =~= acc.names + names);
    }
}

/// A normal form is its own normal form, provided that the home
/// directory, where one is given, holds no `..` and no `~`.
pub proof fn lemma_normal_form_is_stable(path: Seq<char>, home: Option<Seq<char>>)
    requires
        home matches Some(h) ==> !segments(h).contains(dot_dot()) && !segments(h).contains(
            tilde(),
        ),
    ensures
        normalized(normalized(path, home), home) == normalized(path, home),
{
    let known = home is Some;
    let start = PathParts { rooted: is_rooted(path), names: Seq::empty() };
    lemma_segments_are_segments(path);
    match home {
        Some(h) => {
            lemma_segments_are_segments(h);
            lemma_without_dots(segments(h));
            let kept = without_dots(segments(h));
            assert forall|i: int| 0 <= i < kept.len() implies is_segment(#[trigger] kept[i])
                && kept[i] != dot() && kept[i] != dot_dot() && kept[i] != tilde() by {
                assert(segments(h).contains(kept[i]));
                let j = choose|j: int| 0 <= j < segments(h).len() && segments(h)[j] == kept[i];
                assert(is_segment(segments(h)[j]));
            }
        },
        None => {},
    }
    lemma_walk_keeps_settled(start, segments(path), home_parts(home));
    let parts = normalized_parts(path, home);
    lemma_render_reads_back(parts.rooted, parts.names);
    let again = PathParts { rooted: parts.rooted, names: Seq::empty() };
    lemma_walk_over_settled(again, parts.names, home_parts(home));
    assert(again.names + parts.names =~= parts.names);
}

/// Whether `path` is an absolute path in normal form: it begins at the
/// root, and below the root it holds settled names with single separators
/// between them.
pub open spec fn is_normal_absolute(path: Seq<char>, home_known: bool) -> bool {
    exists|names: Seq<Seq<char>>| #[trigger]
        settled(names, home_known) && path == render(PathParts { rooted: true, names })
}

/// A path made of settled names is in normal form: normalizing it changes
/// nothing.
pub proof fn lemma_settled_path_is_normal(
    rooted: bool,
    names: Seq<Seq<char>>,
    home: Option<Seq<char>>,
)
    requires
        settled(names, home is Some),
    ensures
        normalized(render(PathParts { rooted, names }), home) == render(
            PathParts { rooted, names },
        ),
        is_rooted(render(PathParts { rooted, names })) == rooted,
{
    lemma_render_reads_back(rooted, names);
    let start = PathParts { rooted, names: Seq::empty() };
    lemma_walk_over_settled(start, names, home_parts(home));
    assert(start.names + names =~= names);
}

/// An absolute path in normal form stands for itself wherever it is put:
/// put behind any path it is the same path.
pub proof fn lemma_normal_absolute_stands_alone(
    first: Seq<char>,
    path: Seq<char>,
    home: Option<Seq<char>>,
)
    requires
        is_normal_absolute(path, home is Some),
    ensures
        joined_paths(first, path, home) == path,
{
    let names = choose|names: Seq<Seq<char>>| #[trigger]
        settled(names, home is Some) && path == render(PathParts { rooted: true, names });
    lemma_settled_path_is_normal(true, names, home);
}

} // verus!
