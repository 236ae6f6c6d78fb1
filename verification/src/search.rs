//! The text-search index: per search group, one haystack that only grows.

use vstd::prelude::*;

verus! {

/// A record that can put itself into the haystacks of a searcher.
pub trait Searchable: Sized {
    /// What writing this record does to a searcher: it takes it from
    /// `before` to `after`. Unless a record says more, it may write anything.
    open spec fn fills(&self, before: &Searcher, after: &Searcher) -> bool {
        true
    }

    /// Writes what can be searched for in this record into `query`.
    fn fill_haystack(&self, query: &mut Searcher)
        requires
            old(query).inv(),
        ensures
            final(query).inv(),
            self.fills(old(query), final(query)),
    ;
}

/// Whether `needle` occurs in `haystack` as a run of consecutive characters.
pub open spec fn occurs_in(needle: Seq<char>, haystack: Seq<char>) -> bool {
    exists|i: int|
        0 <= i && i + needle.len() <= haystack.len() && #[trigger] haystack.subrange(
            i,
            i + needle.len(),
        ) == needle
}

/// Whether `needle` occurs in `haystack`.
///
/// Calls `str::contains` with a string for a pattern, which std documents as
/// telling whether the pattern matches a sub-slice of the string.
#[verifier::external_body]
pub(crate) fn contains_text(haystack: &str, needle: &str) -> (b: bool)
    ensures
        b == occurs_in(needle@, haystack@),
{
    haystack.contains(needle)
}

/// A haystack with the name of its group.
pub struct Group {
    pub name: String,
    pub haystack: String,
}

/// The haystacks, by group.
pub struct Searcher {
    groups: Vec<Group>,
}

/// The position of the group with the given name, if there is one.
pub open spec fn position_of(groups: Seq<Group>, name: Seq<char>) -> Option<int> {
    if exists|i: int| 0 <= i < groups.len() && #[trigger] groups[i].name@ == name {
        Some(choose|i: int| 0 <= i < groups.len() && #[trigger] groups[i].name@ == name)
    } else {
        None
    }
}

/// The texts one after another, as one text.
pub open spec fn joined(texts: Seq<String>) -> Seq<char>
    decreases texts.len(),
{
    if texts.len() == 0 {
        Seq::empty()
    } else {
        joined(texts.drop_last()) + texts.last()@
    }
}

impl Searcher {
    /// Whether the searcher is well formed: no group occurs twice.
    pub closed spec fn inv(&self) -> bool {
        forall|i: int, j: int|
            0 <= i < j < self.groups@.len() ==> (#[trigger] self.groups@[i]).name@ != (
            #[trigger] self.groups@[j]).name@
    }

    /// The haystack of a group, or `None` where nothing was written to it.
    pub closed spec fn haystack(&self, group: Seq<char>) -> Option<Seq<char>> {
        match position_of(self.groups@, group) {
            Some(i) => Some(self.groups@[i].haystack@),
            None => None,
        }
    }

    /// A searcher without groups.
    pub fn new() -> (s: Self)
        ensures
            s.inv(),
            forall|g: Seq<char>| s.haystack(g) is None,
    {
        Searcher { groups: Vec::new() }
    }

    /// The position of a group, if it exists.
    fn find(&self, group: &str) -> (r: Option<usize>)
        ensures
            match r {
                Some(i) => i < self.groups@.len() && self.groups@[i as int].name@ == group@,
                None => forall|j: int|
                    0 <= j < self.groups@.len() ==> (#[trigger] self.groups@[j]).name@ != group@,
            },
    {
        let mut i: usize = 0;
        let wanted: String = group.to_owned();
        while i < self.groups.len()
            invariant
                0 <= i <= self.groups.len(),
                wanted@ == group@,
                forall|j: int| 0 <= j < i ==> (#[trigger] self.groups@[j]).name@ != group@,
            decreases self.groups.len() - i,
        {
            if self.groups[i].name == wanted {
                return Some(i);
            }
            i += 1;
        }
        None
    }

    /// What `find` tells of a group is what `haystack` holds of it.
    proof fn lemma_found(&self, group: Seq<char>, i: int)
        requires
            self.inv(),
            0 <= i < self.groups@.len(),
            self.groups@[i].name@ == group,
        ensures
            self.haystack(group) == Some(self.groups@[i].haystack@),
    {
        let p = choose|p: int| 0 <= p < self.groups@.len() && #[trigger] self.groups@[p].name@ == group;
        if p < i {
            assert(self.groups@[p].name@ != self.groups@[i].name@);
        } else if i < p {
            assert(self.groups@[i].name@ != self.groups@[p].name@);
        }
    }

    /// Appends `haystack` to the haystack of `group`, which begins empty.
    pub fn write(&mut self, group: String, haystack: String)
        requires
            old(self).inv(),
        ensures
            final(self).inv(),
            final(self).haystack(group@) == Some(
                match old(self).haystack(group@) {
                    Some(h) => h + haystack@,
                    None => haystack@,
                },
            ),
            forall|g: Seq<char>| g != group@ ==> final(self).haystack(g) == old(self).haystack(g),
    {
        match self.find(group.as_str()) {
            Some(i) => {
                proof {
                    old(self).lemma_found(group@, i as int);
                }
                let ghost before = self.groups@;
                self.groups[i].haystack.append(haystack.as_str());
                proof {
                    assert(self.groups@.len() == before.len());
                    assert(forall|j: int|
                        0 <= j < before.len() && j != i ==> self.groups@[j] == before[j]);
                    assert(self.groups@[i as int].name@ == before[i as int].name@);
                    assert(self.inv());
                    self.lemma_found(group@, i as int);
                    assert forall|g: Seq<char>| g != group@ implies self.haystack(g) == old(
                        self,
                    ).haystack(g) by {
                        self.lemma_other(old(self), g, i as int);
                    }
                }
            },
            None => {
                let ghost before = self.groups@;
                let ghost name = group@;
                self.groups.push(Group { name: group, haystack });
                proof {
                    assert(self.groups@.drop_last() =~= before);
                    assert(self.inv());
                    self.lemma_found(name, before.len() as int);
                    assert(old(self).haystack(name) is None);
                    assert forall|g: Seq<char>| g != name implies self.haystack(g) == old(
                        self,
                    ).haystack(g) by {
                        self.lemma_pushed(old(self), g);
                    }
                }
            },
        }
    }

    /// A change to the haystack of one group leaves the other groups alone.
    proof fn lemma_other(&self, before: &Searcher, g: Seq<char>, i: int)
        requires
            self.inv(),
            before.inv(),
            0 <= i < before.groups@.len(),
            self.groups@.len() == before.groups@.len(),
            forall|j: int| 0 <= j < before.groups@.len() && j != i ==> self.groups@[j] == before.groups@[j],
            self.groups@[i].name@ == before.groups@[i].name@,
            g != before.groups@[i].name@,
        ensures
            self.haystack(g) == before.haystack(g),
    {
        if exists|p: int| 0 <= p < before.groups@.len() && #[trigger] before.groups@[p].name@ == g {
            let p = choose|p: int| 0 <= p < before.groups@.len() && #[trigger] before.groups@[p].name@ == g;
            assert(self.groups@[p] == before.groups@[p]);
            self.lemma_found(g, p);
            before.lemma_found(g, p);
        } else {
            assert forall|p: int| 0 <= p < self.groups@.len() implies (#[trigger] self.groups@[p]).name@ != g by {
                assert(before.groups@[p].name@ != g);
            }
        }
    }

    /// A new group leaves the other groups alone.
    proof fn lemma_pushed(&self, before: &Searcher, g: Seq<char>)
        requires
            self.inv(),
            before.inv(),
            self.groups@.len() == before.groups@.len() + 1,
            self.groups@.drop_last() == before.groups@,
            g != self.groups@.last().name@,
        ensures
            self.haystack(g) == before.haystack(g),
    {
        if exists|p: int| 0 <= p < before.groups@.len() && #[trigger] before.groups@[p].name@ == g {
            let p = choose|p: int| 0 <= p < before.groups@.len() && #[trigger] before.groups@[p].name@ == g;
            assert(self.groups@[p] == self.groups@.drop_last()[p]);
            self.lemma_found(g, p);
            before.lemma_found(g, p);
        } else {
            assert forall|p: int| 0 <= p < self.groups@.len() implies (#[trigger] self.groups@[p]).name@ != g by {
                if p < before.groups@.len() {
                    assert(self.groups@[p] == self.groups@.drop_last()[p]);
                    assert(before.groups@[p].name@ != g);
                }
            }
        }
    }

    /// Whether `query` occurs in the haystack of `group`. Nothing occurs in a
    /// group that was never written to.
    pub fn search_one(&self, group: &str, query: &str) -> (found: bool)
        requires
            self.inv(),
        ensures
            found == match self.haystack(group@) {
                Some(h) => occurs_in(query@, h),
                None => false,
            },
    {
        match self.find(group) {
            Some(i) => {
                proof {
                    self.lemma_found(group@, i as int);
                }
                contains_text(self.groups[i].haystack.as_str(), query)
            },
            None => false,
        }
    }

    /// Appends every text of `haystack`, in order, to the haystack of `group`,
    /// which begins empty. The group exists afterwards even where there was
    /// no text.
    pub fn write_many(&mut self, group: String, haystack: Vec<String>)
        requires
            old(self).inv(),
        ensures
            final(self).inv(),
            final(self).haystack(group@) == Some(
                match old(self).haystack(group@) {
                    Some(h) => h + joined(haystack@),
                    None => joined(haystack@),
                },
            ),
            forall|g: Seq<char>| g != group@ ==> final(self).haystack(g) == old(self).haystack(g),
    {
        let ghost start: Seq<char> = match old(self).haystack(group@) {
            Some(h) => h,
            None => Seq::empty(),
        };
        self.write(group.clone(), String::new());
        assert(self.haystack(group@) == Some(start + joined(haystack@.take(0)))) by {
            assert(haystack@.take(0) =~= Seq::<String>::empty());
            assert(start + Seq::<char>::empty() =~= start);
        }
        let mut i: usize = 0;
        while i < haystack.len()
            invariant
                0 <= i <= haystack.len(),
                self.inv(),
                self.haystack(group@) == Some(start + joined(haystack@.take(i as int))),
                forall|g: Seq<char>| g != group@ ==> self.haystack(g) == old(self).haystack(g),
            decreases haystack.len() - i,
        {
            proof {
                assert(haystack@.take(i as int + 1).drop_last() =~= haystack@.take(i as int));
                assert(start + joined(haystack@.take(i as int)) + haystack@[i as int]@ =~= start
                    + joined(haystack@.take(i as int + 1)));
            }
            self.write(group.clone(), haystack[i].clone());
            i += 1;
        }
        proof {
            assert(haystack@.take(i as int) =~= haystack@);
            assert(Seq::<char>::empty() + joined(haystack@) =~= joined(haystack@));
        }
    }

    /// Whether any of the words of `query` occurs in the haystack of `group`.
    /// Nothing occurs in a group that was never written to.
    pub fn search(&self, group: &str, query: &Vec<String>) -> (found: bool)
        requires
            self.inv(),
        ensures
            found == match self.haystack(group@) {
                Some(h) => exists|i: int|
                    0 <= i < query@.len() && occurs_in((#[trigger] query@[i])@, h),
                None => false,
            },
    {
        match self.find(group) {
            Some(at) => {
                proof {
                    self.lemma_found(group@, at as int);
                }
                let mut i: usize = 0;
                while i < query.len()
                    invariant
                        0 <= i <= query.len(),
                        at < self.groups@.len(),
                        self.haystack(group@) == Some(self.groups@[at as int].haystack@),
                        forall|j: int|
                            0 <= j < i ==> !occurs_in(
                                (#[trigger] query@[j])@,
                                self.groups@[at as int].haystack@,
                            ),
                    decreases query.len() - i,
                {
                    if contains_text(self.groups[at].haystack.as_str(), query[i].as_str()) {
                        assert(occurs_in(query@[i as int]@, self.groups@[at as int].haystack@));
                        return true;
                    }
                    i += 1;
                }
                false
            },
            None => false,
        }
    }

    /// Whether the searcher is well formed and nothing was written to any
    /// group.
    pub open spec fn holds_nothing(&self) -> bool {
        self.inv() && forall|g: Seq<char>| self.haystack(g) is None
    }

    /// The searcher that holds what one record writes, and nothing else: it
    /// is what the record makes of a searcher that holds nothing.
    pub fn from_entry<E: Searchable>(entry: &E) -> (s: Self)
        ensures
            s.inv(),
            exists|start: Searcher| #[trigger] start.holds_nothing() && entry.fills(&start, &s),
    {
        let mut query: Searcher = Self::new();
        let ghost start = query;
        entry.fill_haystack(&mut query);
        proof {
            assert(start.holds_nothing() && entry.fills(&start, &query));
        }
        query
    }
}

} // verus!
