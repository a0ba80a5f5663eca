//! A table of symbolic links: for each link name, the target it points to.
//!
//! The table keeps its entries in the order in which their names were first
//! set, and holds no name twice.  Whatever enumerates a table goes by that
//! order, so that the same table always gives the same answer.
use vstd::prelude::*;

verus! {

/// One link: its name and its target.
pub type Link = (Seq<char>, Seq<char>);

/// The links that the given entries hold.
pub open spec fn links_of(entries: Seq<(String, String)>) -> Seq<Link> {
    Seq::new(entries.len(), |i: int| (entries[i].0@, entries[i].1@))
}

/// Whether some link of `links` has the name `name`.
pub open spec fn has_name(links: Seq<Link>, name: Seq<char>) -> bool {
    exists|i: int| 0 <= i < links.len() && (#[trigger] links[i]).0 == name
}

/// Whether no two links of `links` have the same name.
pub open spec fn distinct_names(links: Seq<Link>) -> bool {
    forall|i: int, j: int|
        0 <= i < j < links.len() ==> (#[trigger] links[i]).0 != (#[trigger] links[j]).0
}

/// Where the link named `name` stands in `links`, if there is one.
pub open spec fn index_of(links: Seq<Link>, name: Seq<char>) -> Option<int> {
    if has_name(links, name) {
        Some(choose|i: int| 0 <= i < links.len() && (#[trigger] links[i]).0 == name)
    } else {
        None
    }
}

/// The target of the link named `name`, if there is one.
pub open spec fn lookup(links: Seq<Link>, name: Seq<char>) -> Option<Seq<char>> {
    match index_of(links, name) {
        Some(i) => Some(links[i].1),
        None => None,
    }
}

/// The mapping from names to targets that `links` stands for.
pub open spec fn as_map(links: Seq<Link>) -> Map<Seq<char>, Seq<char>> {
    Map::new(|name: Seq<char>| has_name(links, name), |name: Seq<char>| lookup(links, name)->0)
}

/// `links` after `name` is set to `target`: the link of that name changes
/// in place, and a new name goes to the end.
pub open spec fn inserted(links: Seq<Link>, name: Seq<char>, target: Seq<char>) -> Seq<Link> {
    match index_of(links, name) {
        Some(i) => links.update(i, (name, target)),
        None => links.push((name, target)),
    }
}

/// `links` without the link named `name`.
pub open spec fn removed(links: Seq<Link>, name: Seq<char>) -> Seq<Link> {
    match index_of(links, name) {
        Some(i) => links.remove(i),
        None => links,
    }
}

/// Among links with distinct names, a name is found where it stands.
pub proof fn lemma_index_of(links: Seq<Link>, i: int)
    requires
        distinct_names(links),
        0 <= i < links.len(),
    ensures
        has_name(links, links[i].0),
        index_of(links, links[i].0) == Some(i),
        lookup(links, links[i].0) == Some(links[i].1),
{
    let name = links[i].0;
    assert(has_name(links, name));
    let j = choose|j: int| 0 <= j < links.len() && (#[trigger] links[j]).0 == name;
    if j < i {
        assert(links[j].0 != links[i].0);
    }
    if i < j {
        assert(links[i].0 != links[j].0);
    }
}

/// Setting a name keeps the names distinct, and changes the mapping at that
/// name alone.
pub proof fn lemma_inserted(links: Seq<Link>, name: Seq<char>, target: Seq<char>)
    requires
        distinct_names(links),
    ensures
        distinct_names(inserted(links, name, target)),
        as_map(inserted(links, name, target)) == as_map(links).insert(name, target),
{
    let after = inserted(links, name, target);
    match index_of(links, name) {
        Some(i) => {
            assert forall|a: int, b: int| 0 <= a < b < after.len() implies (#[trigger] after[a]).0
                != (#[trigger] after[b]).0 by {
                assert(links[a].0 != links[b].0);
            }
            assert forall|k: Seq<char>| has_name(after, k) == (k == name || has_name(links, k)) by {
                if has_name(after, k) {
                    let j = choose|j: int| 0 <= j < after.len() && (#[trigger] after[j]).0 == k;
                    assert(links[j].0 == k || k == name);
                }
                if has_name(links, k) {
                    let j = choose|j: int| 0 <= j < links.len() && (#[trigger] links[j]).0 == k;
                    assert(after[j].0 == k);
                }
                if k == name {
                    assert(after[i].0 == k);
                }
            }
            assert forall|k: Seq<char>| has_name(after, k) implies lookup(after, k) == (if k
                == name {
                Some(target)
            } else {
                lookup(links, k)
            }) by {
                let j = choose|j: int| 0 <= j < after.len() && (#[trigger] after[j]).0 == k;
                lemma_index_of(after, j);
                if k != name {
                    assert(links[j].0 == k);
                    lemma_index_of(links, j);
                } else {
                    lemma_index_of(after, i);
                }
            }
        },
        None => {
            assert forall|a: int, b: int| 0 <= a < b < after.len() implies (#[trigger] after[a]).0
                != (#[trigger] after[b]).0 by {
                if b == links.len() {
                    assert(links[a].0 != name);
                } else {
                    assert(links[a].0 != links[b].0);
                }
            }
            assert forall|k: Seq<char>| has_name(after, k) == (k == name || has_name(links, k)) by {
                if has_name(after, k) {
                    let j = choose|j: int| 0 <= j < after.len() && (#[trigger] after[j]).0 == k;
                    if j < links.len() {
                        assert(links[j].0 == k);
                    }
                }
                if has_name(links, k) {
                    let j = choose|j: int| 0 <= j < links.len() && (#[trigger] links[j]).0 == k;
                    assert(after[j].0 == k);
                }
                if k == name {
                    assert(after[links.len() as int].0 == k);
                }
            }
            assert forall|k: Seq<char>| has_name(after, k) implies lookup(after, k) == (if k
                == name {
                Some(target)
            } else {
                lookup(links, k)
            }) by {
                let j = choose|j: int| 0 <= j < after.len() && (#[trigger] after[j]).0 == k;
                lemma_index_of(after, j);
                if j < links.len() {
                    assert(links[j].0 == k);
                    lemma_index_of(links, j);
                }
            }
        },
    }
    assert(as_map(after) =~= as_map(links).insert(name, target));
}

/// Removing a name keeps the names distinct, and takes that name alone out
/// of the mapping.
pub proof fn lemma_removed(links: Seq<Link>, name: Seq<char>)
    requires
        distinct_names(links),
    ensures
        distinct_names(removed(links, name)),
        as_map(removed(links, name)) == as_map(links).remove(name),
{
    let after = removed(links, name);
    match index_of(links, name) {
        Some(i) => {
            lemma_index_of(links, i);
            assert forall|a: int, b: int| 0 <= a < b < after.len() implies (#[trigger] after[a]).0
                != (#[trigger] after[b]).0 by {
                let a0 = if a < i { a } else { a + 1 };
                let b0 = if b < i { b } else { b + 1 };
                assert(links[a0].0 != links[b0].0);
            }
            assert forall|k: Seq<char>| has_name(after, k) == (k != name && has_name(links, k)) by {
                if has_name(after, k) {
                    let j = choose|j: int| 0 <= j < after.len() && (#[trigger] after[j]).0 == k;
                    let j0 = if j < i { j } else { j + 1 };
                    assert(links[j0].0 == k);
                    if j0 < i {
                        assert(links[j0].0 != links[i].0);
                    } else {
                        assert(links[i].0 != links[j0].0);
                    }
                }
                if k != name && has_name(links, k) {
                    let j = choose|j: int| 0 <= j < links.len() && (#[trigger] links[j]).0 == k;
                    let j1 = if j < i { j } else { j - 1 };
                    assert(after[j1].0 == k);
                }
            }
            assert forall|k: Seq<char>| has_name(after, k) implies lookup(after, k) == lookup(
                links,
                k,
            ) by {
                let j = choose|j: int| 0 <= j < after.len() && (#[trigger] after[j]).0 == k;
                let j0 = if j < i { j } else { j + 1 };
                lemma_index_of(after, j);
                assert(links[j0].0 == k);
                lemma_index_of(links, j0);
            }
        },
        None => {},
    }
    assert(as_map(after) =~= as_map(links).remove(name));
}

/// Two lists of links with distinct names stand for the same mapping exactly
/// when each holds the links of the other.
pub proof fn lemma_same_map(a: Seq<Link>, b: Seq<Link>)
    requires
        distinct_names(a),
        distinct_names(b),
    ensures
        as_map(a) == as_map(b) <==> (forall|k: Seq<char>| lookup(a, k) == lookup(b, k)),
{
    if as_map(a) == as_map(b) {
        assert forall|k: Seq<char>| lookup(a, k) == lookup(b, k) by {
            assert(as_map(a).dom().contains(k) == has_name(a, k));
            assert(as_map(b).dom().contains(k) == has_name(b, k));
            if has_name(a, k) {
                assert(as_map(a)[k] == lookup(a, k)->0);
                assert(as_map(b)[k] == lookup(b, k)->0);
            }
        }
    }
    if forall|k: Seq<char>| lookup(a, k) == lookup(b, k) {
        assert forall|k: Seq<char>| has_name(a, k) == has_name(b, k) by {
            assert(lookup(a, k) == lookup(b, k));
        }
        assert(as_map(a) =~= as_map(b));
    }
}

/// `table` after each of `links`, in order, is set in it.
pub open spec fn absorbed(table: Seq<Link>, links: Seq<Link>) -> Seq<Link>
    decreases links.len(),
{
    if links.len() == 0 {
        table
    } else {
        inserted(absorbed(table, links.drop_last()), links.last().0, links.last().1)
    }
}

/// Setting links one after another keeps the names distinct.
pub proof fn lemma_absorbed_distinct(table: Seq<Link>, links: Seq<Link>)
    requires
        distinct_names(table),
    ensures
        distinct_names(absorbed(table, links)),
    decreases links.len(),
{
    if links.len() > 0 {
        lemma_absorbed_distinct(table, links.drop_last());
        lemma_inserted(absorbed(table, links.drop_last()), links.last().0, links.last().1);
    }
}

/// Last write wins: after the links of one table are set in another, each
/// name of the first has the target that the first gives it, and every
/// other name has the target it had.
pub proof fn lemma_absorbed_map(table: Seq<Link>, links: Seq<Link>)
    requires
        distinct_names(table),
        distinct_names(links),
    ensures
        as_map(absorbed(table, links)) == as_map(table).union_prefer_right(as_map(links)),
    decreases links.len(),
{
    if links.len() == 0 {
        assert(as_map(links) =~= Map::<Seq<char>, Seq<char>>::empty());
        assert(as_map(table).union_prefer_right(as_map(links)) =~= as_map(table));
    } else {
        let rest = links.drop_last();
        let last = links.last();
        assert(distinct_names(rest)) by {
            assert forall|i: int, j: int| 0 <= i < j < rest.len() implies (#[trigger] rest[i]).0
                != (#[trigger] rest[j]).0 by {
                assert(links[i].0 != links[j].0);
            }
        }
        lemma_absorbed_map(table, rest);
        lemma_absorbed_distinct(table, rest);
        lemma_inserted(absorbed(table, rest), last.0, last.1);
        assert(inserted(rest, last.0, last.1) == links) by {
            if has_name(rest, last.0) {
                let i = choose|i: int| 0 <= i < rest.len() && (#[trigger] rest[i]).0 == last.0;
                assert(links[i].0 != links[links.len() - 1].0);
            }
            assert(rest.push(last) =~= links);
        }
        lemma_inserted(rest, last.0, last.1);
        assert(as_map(table).union_prefer_right(as_map(rest)).insert(last.0, last.1) =~= as_map(
            table,
        ).union_prefer_right(as_map(rest).insert(last.0, last.1)));
    }
}

/// Setting the links of a table in an empty table gives that table, where
/// the table holds no name twice.
pub proof fn lemma_absorbed_onto_nothing(links: Seq<Link>)
    requires
        distinct_names(links),
    ensures
        absorbed(Seq::empty(), links) == links,
    decreases links.len(),
{
    if links.len() > 0 {
        let rest = links.drop_last();
        assert(distinct_names(rest)) by {
            assert forall|i: int, j: int| 0 <= i < j < rest.len() implies (#[trigger] rest[i]).0
                != (#[trigger] rest[j]).0 by {
                assert(links[i].0 != links[j].0);
            }
        }
        lemma_absorbed_onto_nothing(rest);
        if has_name(rest, links.last().0) {
            let i = choose|i: int| 0 <= i < rest.len() && (#[trigger] rest[i]).0 == links.last().0;
            assert(links[i].0 != links[links.len() - 1].0);
        }
        assert(rest.push(links.last()) =~= links);
    } else {
        assert(links =~= Seq::<Link>::empty());
    }
}

/// A table of links, keyed by link name.
#[derive(Debug, PartialEq, Eq)]
pub struct SymlinkTable {
    entries: Vec<(String, String)>,
}

impl View for SymlinkTable {
    type V = Seq<Link>;

    closed spec fn view(&self) -> Seq<Link> {
        links_of(self.entries@)
    }
}

impl SymlinkTable {
    #[verifier::type_invariant]
    closed spec fn names_are_distinct(&self) -> bool {
        distinct_names(links_of(self.entries@))
    }

    /// The mapping that the table stands for.
    pub open spec fn map(&self) -> Map<Seq<char>, Seq<char>> {
        as_map(self@)
    }

    /// A table without links.
    pub fn new() -> (table: Self)
        ensures
            table@ == Seq::<Link>::empty(),
    {
        let table = SymlinkTable { entries: Vec::new() };
        assert(table@ =~= Seq::<Link>::empty());
        table
    }

    /// The number of links.
    pub fn len(&self) -> (n: usize)
        ensures
            n == self@.len(),
            distinct_names(self@),
    {
        proof {
            use_type_invariant(self);
        }
        self.entries.len()
    }

    /// The link at place `i`, counting from zero in the table's order.
    pub fn entry(&self, i: usize) -> (link: Option<(&String, &String)>)
        ensures
            distinct_names(self@),
            match link {
                Some((name, target)) => i < self@.len() && self@[i as int] == (name@, target@),
                None => i >= self@.len(),
            },
    {
        proof {
            use_type_invariant(self);
        }
        if i < self.entries.len() {
            Some((&self.entries[i].0, &self.entries[i].1))
        } else {
            None
        }
    }

    fn find(&self, name: &String) -> (place: Option<usize>)
        ensures
            distinct_names(self@),
            match place {
                Some(i) => index_of(self@, name@) == Some(i as int) && i < self@.len(),
                None => index_of(self@, name@) is None,
            },
    {
        proof {
            use_type_invariant(self);
        }
        let mut i: usize = 0;
        while i < self.entries.len()
            invariant
                i <= self.entries.len(),
                distinct_names(self@),
                forall|j: int| 0 <= j < i ==> (#[trigger] self@[j]).0 != name@,
            decreases self.entries.len() - i,
        {
            if self.entries[i].0 == *name {
                proof {
                    assert(self@[i as int].0 == name@);
                    lemma_index_of(self@, i as int);
                }
                return Some(i);
            }
            i = i + 1;
        }
        assert(!has_name(self@, name@));
        None
    }

    /// The target of the link named `name`, if the table has one.
    pub fn get(&self, name: &str) -> (target: Option<&String>)
        ensures
            distinct_names(self@),
            match target {
                Some(t) => lookup(self@, name@) == Some(t@),
                None => lookup(self@, name@) is None,
            },
    {
        let key = name.to_owned();
        match self.find(&key) {
            Some(i) => Some(&self.entries[i].1),
            None => None,
        }
    }

    /// Whether the table has a link named `name`.
    pub fn contains(&self, name: &str) -> (found: bool)
        ensures
            distinct_names(self@),
            found == has_name(self@, name@),
            found == self.map().contains_key(name@),
    {
        let key = name.to_owned();
        self.find(&key).is_some()
    }

    /// Sets the link named `name` to point to `target`, and returns the
    /// target that it had before, if it was there.
    pub fn insert(&mut self, name: &str, target: &str) -> (previous: Option<String>)
        ensures
            final(self)@ == inserted(old(self)@, name@, target@),
            final(self).map() == old(self).map().insert(name@, target@),
            distinct_names(final(self)@),
            match previous {
                Some(t) => lookup(old(self)@, name@) == Some(t@),
                None => lookup(old(self)@, name@) is None,
            },
    {
        let key = name.to_owned();
        let value = target.to_owned();
        proof {
            use_type_invariant(&*self);
            lemma_inserted(self@, name@, target@);
        }
        match self.find(&key) {
            Some(i) => {
                let previous = self.entries[i].1.clone();
                let mut entries: Vec<(String, String)> = Vec::new();
                core::mem::swap(&mut self.entries, &mut entries);
                entries.set(i, (key, value));
                assert(links_of(entries@) =~= inserted(old(self)@, name@, target@));
                self.entries = entries;
                Some(previous)
            },
            None => {
                let mut entries: Vec<(String, String)> = Vec::new();
                core::mem::swap(&mut self.entries, &mut entries);
                entries.push((key, value));
                assert(links_of(entries@) =~= inserted(old(self)@, name@, target@));
                self.entries = entries;
                None
            },
        }
    }

    /// Takes the link named `name` out of the table, and returns the target
    /// that it had, if it was there.
    pub fn remove(&mut self, name: &str) -> (previous: Option<String>)
        ensures
            final(self)@ == removed(old(self)@, name@),
            final(self).map() == old(self).map().remove(name@),
            distinct_names(final(self)@),
            match previous {
                Some(t) => lookup(old(self)@, name@) == Some(t@),
                None => lookup(old(self)@, name@) is None,
            },
    {
        let key = name.to_owned();
        proof {
            use_type_invariant(&*self);
            lemma_removed(self@, name@);
        }
        match self.find(&key) {
            Some(i) => {
                let mut entries: Vec<(String, String)> = Vec::new();
                core::mem::swap(&mut self.entries, &mut entries);
                let link = entries.remove(i);
                assert(links_of(entries@) =~= removed(old(self)@, name@));
                self.entries = entries;
                Some(link.1)
            },
            None => None,
        }
    }

    /// Takes every link out of the table.
    pub fn clear(&mut self)
        ensures
            final(self)@ == Seq::<Link>::empty(),
    {
        self.entries = Vec::new();
        assert(self@ =~= Seq::<Link>::empty());
    }

    /// The links of the table as pairs of name and target, in its order.
    pub fn to_pairs(&self) -> (pairs: Vec<(String, String)>)
        ensures
            links_of(pairs@) == self@,
    {
        let mut pairs: Vec<(String, String)> = Vec::new();
        let mut i: usize = 0;
        while i < self.entries.len()
            invariant
                i <= self.entries.len(),
                pairs@.len() == i,
                links_of(pairs@) == self@.take(i as int),
            decreases self.entries.len() - i,
        {
            let name = self.entries[i].0.clone();
            let target = self.entries[i].1.clone();
            assert(name@ == self@[i as int].0 && target@ == self@[i as int].1);
            let ghost before = pairs@;
            pairs.push((name, target));
            assert forall|j: int| 0 <= j < i + 1 implies links_of(pairs@)[j] == self@.take(
                i + 1,
            )[j] by {
                if j < i {
                    assert(links_of(before)[j] == self@.take(i as int)[j]);
                    assert(pairs@[j] == before[j]);
                }
            }
            assert(links_of(pairs@) =~= self@.take(i + 1));
            i = i + 1;
        }
        assert(self@.take(i as int) == self@);
        pairs
    }
}

/// Sets each link of `links` in `table`, in the order of `links`.
pub fn absorb(table: &mut SymlinkTable, links: &SymlinkTable)
    ensures
        final(table)@ == absorbed(old(table)@, links@),
        final(table).map() == old(table).map().union_prefer_right(links.map()),
{
    let ghost all = links@;
    let n = links.len();
    proof {
        use_type_invariant(&*table);
        lemma_absorbed_map(table@, all);
    }
    let mut i: usize = 0;
    while i < n
        invariant
            i <= n,
            n == all.len(),
            all == links@,
            table@ == absorbed(old(table)@, all.take(i as int)),
        decreases n - i,
    {
        proof {
            assert(all.take(i + 1).drop_last() == all.take(i as int));
            assert(all.take(i + 1).last() == all[i as int]);
        }
        match links.entry(i) {
            Some((name, target)) => {
                table.insert(name.as_str(), target.as_str());
            },
            None => {},
        }
        i = i + 1;
    }
    assert(all.take(i as int) == all);
}

/// The table that holds each of `pairs`, set in order: of two pairs with the
/// same name the later one stays.
pub fn table_of(pairs: &Vec<(String, String)>) -> (table: SymlinkTable)
    ensures
        table@ == absorbed(Seq::empty(), links_of(pairs@)),
{
    let ghost all = links_of(pairs@);
    let mut table = SymlinkTable::new();
    let mut i: usize = 0;
    while i < pairs.len()
        invariant
            i <= pairs.len(),
            all == links_of(pairs@),
            table@ == absorbed(Seq::empty(), all.take(i as int)),
        decreases pairs.len() - i,
    {
        proof {
            assert(all.take(i + 1).drop_last() == all.take(i as int));
            assert(all.take(i + 1).last() == (pairs@[i as int].0@, pairs@[i as int].1@));
        }
        table.insert(pairs[i].0.as_str(), pairs[i].1.as_str());
        i = i + 1;
    }
    assert(all.take(i as int) == all);
    table
}

} // verus!
