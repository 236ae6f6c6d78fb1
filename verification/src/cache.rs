//! The cache decorator: an origin and a mirror of it.
//!
//! The mirror is rebuilt as a whole, never patched: whenever the origin
//! reports another version than the one seen last, or the mirror was marked
//! as dirty, the mirror is emptied and filled again with everything the
//! origin hands out. Reads are served from the mirror alone.

use crate::version::{bumped, next_version, VersionGen};
use crate::{
    are_clones, are_clones_of, extended_by_clones, updated_by_clones, Table, TableClear, TableExtend, TableFetch, TableRead, TableUpdate,
    TableVersion,
};
use core::convert::Infallible;
use crate::in_mem::{filled, lemma_present_filled, present, InMemTable};
use vstd::prelude::*;

verus! {

/// Which side failed: the origin, or the mirror.
#[derive(Debug)]
pub enum Error<O, C> {
    Origin(O),
    Cache(C),
}

/// An origin with its mirror, the version of the origin that the mirror was
/// last built from, and a mark that says that the mirror is to be built anew
/// whatever the origin reports.
pub struct Cache<O, C> {
    origin: O,
    cache: C,
    last_origin_version: u64,
    dirty: bool,
}

impl<O, C> Cache<O, C> {
    /// The origin.
    pub closed spec fn origin_spec(&self) -> O {
        self.origin
    }

    /// The mirror.
    pub closed spec fn mirror_spec(&self) -> C {
        self.cache
    }

    /// The version of the origin that was seen last.
    pub closed spec fn last_spec(&self) -> u64 {
        self.last_origin_version
    }

    /// Whether the mirror is marked to be built anew.
    pub closed spec fn dirty_spec(&self) -> bool {
        self.dirty
    }

    /// Whether the mirror is to be rebuilt when the origin reports `version`:
    /// it is marked, or the version is not the one seen last.
    pub open spec fn is_stale(&self, version: u64) -> bool {
        self.dirty_spec() || version != self.last_spec()
    }

    /// Whether two caches have seen the same version last and carry the same
    /// mark.
    pub open spec fn same_mark(&self, other: &Self) -> bool {
        self.last_spec() == other.last_spec() && self.dirty_spec() == other.dirty_spec()
    }

    /// A cache over the given origin and mirror. It has seen nothing of the
    /// origin yet: its mirror is marked, so that the first refresh builds it,
    /// and the version seen last is a fresh one.
    pub fn new(gen: &mut VersionGen, origin: O, cache: C) -> (c: Self)
        ensures
            c.origin_spec() == origin,
            c.mirror_spec() == cache,
            c.dirty_spec(),
            c.last_spec() == old(gen).peek(),
            final(gen).peek() == bumped(old(gen).peek()),
    {
        Cache { origin, cache, last_origin_version: next_version(gen), dirty: true }
    }

    /// Marks the mirror, so that the next refresh rebuilds it whatever
    /// version the origin reports.
    pub fn mark_as_dirty(&mut self)
        ensures
            final(self).origin_spec() == old(self).origin_spec(),
            final(self).mirror_spec() == old(self).mirror_spec(),
            final(self).last_spec() == old(self).last_spec(),
            final(self).dirty_spec(),
    {
        self.dirty = true;
    }

    /// The origin.
    pub fn origin(&self) -> (o: &O)
        ensures
            *o == self.origin_spec(),
    {
        &self.origin
    }

    /// The mirror.
    pub fn mirror(&self) -> (c: &C)
        ensures
            *c == self.mirror_spec(),
    {
        &self.cache
    }
}

impl<O: Table, C: Table> Table for Cache<O, C> {
    /// A cache is well formed where its origin and its mirror are.
    open spec fn inv(&self) -> bool {
        self.origin_spec().inv() && self.mirror_spec().inv()
    }
}

/// Whether `mirror` is a mirror that was emptied and then filled with clones
/// of `rows`.
pub open spec fn rebuilt_from<E: Clone, C: TableExtend<E> + TableClear>(
    mirror: C,
    rows: Seq<E>,
) -> bool {
    exists|emptied: C| emptied.cleared() && #[trigger] extended_by_clones(&emptied, rows, &mirror)
}

/// What a refresh comes to once the origin, now `looked`, has reported
/// `version`: nothing more where the mirror is not marked and that is the
/// version seen last; else the origin is fetched from, the mirror is rebuilt
/// from what it hands out, and the mark is gone.
pub open spec fn settled<E: Clone, O: TableFetch<E>, C: TableExtend<E> + TableClear>(
    before: Cache<O, C>,
    looked: O,
    version: u64,
    after: Cache<O, C>,
) -> bool {
    if !before.is_stale(version) {
        after.origin_spec() == looked && after.mirror_spec() == before.mirror_spec()
            && after.same_mark(&before)
    } else {
        after.last_spec() == version && !after.dirty_spec() && exists|rows: Vec<E>| #[trigger]
            looked.fetched(&after.origin_spec(), &rows) && rebuilt_from(after.mirror_spec(), rows@)
    }
}

/// What a rebuild that fails at the mirror with `error` comes to: the origin,
/// then `looked`, handed out rows and became `origin_after`; then either
/// emptying the mirror failed, or the mirror was emptied and filling it with
/// these rows failed.
pub open spec fn rebuild_refused<
    E: Clone,
    CE,
    O: TableFetch<E>,
    C: TableExtend<E, Error = CE> + TableClear<Error = CE>,
>(looked: O, origin_after: O, mirror: C, mirror_after: C, error: CE) -> bool {
    exists|rows: Vec<E>| #[trigger]
        looked.fetched(&origin_after, &rows) && (mirror.clear_fails(&mirror_after, &error)
            || exists|emptied: C|
            emptied.cleared() && #[trigger] emptied.extend_fails(&rows, &mirror_after, &error))
}

impl<E, OE, CE, O, C> TableFetch<E> for Cache<O, C> where
    E: Clone,
    O: TableFetch<E, Error = OE> + TableVersion<Error = OE>,
    C: TableExtend<E, Error = CE> + TableRead<E, Error = CE> + TableClear<Error = CE>,
 {
    type Error = Error<OE, CE>;

    /// A refresh looks at the origin's version and settles on it.
    open spec fn refreshed(&self, after: &Self) -> bool {
        exists|looked: O, version: u64| #[trigger]
            self.origin_spec().versioned(&looked, version) && settled::<E, O, C>(
                *self,
                looked,
                version,
                *after,
            )
    }

    /// A fetch refreshes and hands out clones of what reading the mirror then
    /// gives.
    open spec fn fetched(&self, after: &Self, rows: &Vec<E>) -> bool {
        self.refreshed(after) && exists|refs: Vec<&E>| #[trigger]
            after.mirror_spec().reads(&refs) && are_clones_of(refs@, rows@)
    }

    /// A refresh fails where a part fails, and keeps the version seen last
    /// and the mark. At the origin: the look at the version failed, or the
    /// mirror was stale and the fetch failed; the mirror is untouched. At the
    /// mirror: the mirror was stale, the origin handed out its rows, and
    /// emptying or filling the mirror failed.
    open spec fn refresh_fails(&self, after: &Self, error: &Error<OE, CE>) -> bool {
        after.same_mark(self) && match *error {
            Error::Origin(e) => after.mirror_spec() == self.mirror_spec() && (
            self.origin_spec().version_fails(&after.origin_spec(), &e) || exists|
                looked: O,
                version: u64,
            | #[trigger]
                self.origin_spec().versioned(&looked, version) && self.is_stale(version)
                    && looked.fetch_fails(&after.origin_spec(), &e)),
            Error::Cache(e) => exists|looked: O, version: u64| #[trigger]
                self.origin_spec().versioned(&looked, version) && self.is_stale(version)
                    && rebuild_refused::<E, CE, O, C>(
                    looked,
                    after.origin_spec(),
                    self.mirror_spec(),
                    after.mirror_spec(),
                    e,
                ),
        }
    }

    /// A fetch fails where its refresh fails, or where the refresh went
    /// through and reading the mirror failed.
    open spec fn fetch_fails(&self, after: &Self, error: &Error<OE, CE>) -> bool {
        self.refresh_fails(after, error) || (self.refreshed(after) && match *error {
            Error::Cache(e) => after.mirror_spec().read_fails(&e),
            Error::Origin(_) => false,
        })
    }

    fn fetch(&mut self, gen: &mut VersionGen) -> (r: Result<Vec<E>, Error<OE, CE>>) {
        match self.refresh(gen) {
            Ok(()) => {},
            Err(e) => {
                return Err(e);
            },
        }
        match self.cache.read() {
            Err(e) => {
                proof {
                    assert(self.cache.read_fails(&e));
                }
                Err(Error::Cache(e))
            },
            Ok(refs) => {
                let mut rows: Vec<E> = Vec::new();
                let mut i: usize = 0;
                while i < refs.len()
                    invariant
                        0 <= i <= refs.len(),
                        rows@.len() == i,
                        forall|j: int| 0 <= j < i ==> cloned(*(#[trigger] refs@[j]), rows@[j]),
                    decreases refs.len() - i,
                {
                    let one: &E = refs[i];
                    rows.push(one.clone());
                    i += 1;
                }
                proof {
                    assert(self.cache.reads(&refs) && are_clones_of(refs@, rows@));
                }
                Ok(rows)
            },
        }
    }

    /// Looks at the origin's version and, where the mirror is marked or the
    /// version is not the one seen last, rebuilds the mirror and takes the
    /// mark away. A refresh that fails keeps the version seen last and the mark,
    /// so that the next one tries again; where the origin fails the mirror is
    /// left alone.
    fn refresh(&mut self, gen: &mut VersionGen) -> (r: Result<(), Error<OE, CE>>)
        ensures
            r is Err ==> final(self).same_mark(old(self)),
            r matches Err(Error::Origin(_)) ==> final(self).mirror_spec() == old(
                self,
            ).mirror_spec(),
    {
        let new_version: u64 = match self.origin.version(gen) {
            Ok(v) => v,
            Err(e) => {
                proof {
                    assert(old(self).origin_spec().version_fails(&self.origin_spec(), &e));
                }
                return Err(Error::Origin(e));
            },
        };
        let ghost looked = self.origin;
        if self.dirty || self.last_origin_version != new_version {
            let origin_entries: Vec<E> = match self.origin.fetch(gen) {
                Ok(rows) => rows,
                Err(e) => {
                    proof {
                        assert(old(self).origin_spec().versioned(&looked, new_version)
                            && old(self).is_stale(new_version) && looked.fetch_fails(
                            &self.origin_spec(),
                            &e,
                        ));
                    }
                    return Err(Error::Origin(e));
                },
            };
            let ghost rows: Vec<E> = origin_entries;
            match self.cache.clear() {
                Ok(()) => {},
                Err(e) => {
                    proof {
                        assert(looked.fetched(&self.origin_spec(), &rows) && old(
                            self,
                        ).mirror_spec().clear_fails(&self.mirror_spec(), &e));
                        assert(rebuild_refused::<E, CE, O, C>(
                            looked,
                            self.origin_spec(),
                            old(self).mirror_spec(),
                            self.mirror_spec(),
                            e,
                        ));
                        assert(old(self).origin_spec().versioned(&looked, new_version)
                            && old(self).is_stale(new_version) && rebuild_refused::<E, CE, O, C>(
                            looked,
                            self.origin_spec(),
                            old(self).mirror_spec(),
                            self.mirror_spec(),
                            e,
                        ));
                    }
                    return Err(Error::Cache(e));
                },
            }
            let ghost emptied = self.cache;
            match self.cache.extend_owned(gen, origin_entries) {
                Ok(_) => {},
                Err(e) => {
                    proof {
                        assert(emptied.cleared() && emptied.extend_fails(
                            &rows,
                            &self.mirror_spec(),
                            &e,
                        ));
                        assert(looked.fetched(&self.origin_spec(), &rows));
                        assert(rebuild_refused::<E, CE, O, C>(
                            looked,
                            self.origin_spec(),
                            old(self).mirror_spec(),
                            self.mirror_spec(),
                            e,
                        ));
                        assert(old(self).origin_spec().versioned(&looked, new_version)
                            && old(self).is_stale(new_version) && rebuild_refused::<E, CE, O, C>(
                            looked,
                            self.origin_spec(),
                            old(self).mirror_spec(),
                            self.mirror_spec(),
                            e,
                        ));
                    }
                    return Err(Error::Cache(e));
                },
            }
            self.last_origin_version = new_version;
            self.dirty = false;
            proof {
                assert(emptied.cleared() && extended_by_clones(&emptied, rows@, &self.cache));
                assert(rebuilt_from(self.mirror_spec(), rows@));
                assert(looked.fetched(&self.origin_spec(), &rows));
            }
        }
        proof {
            assert(settled::<E, O, C>(*old(self), looked, new_version, *self));
            assert(old(self).origin_spec().versioned(&looked, new_version));
        }
        Ok(())
    }
}

impl<E, CE, O, C> TableRead<E> for Cache<O, C> where
    O: TableFetch<E>,
    C: TableRead<E, Error = CE>,
 {
    type Error = Error<O::Error, CE>;

    /// Reading a cache is reading its mirror, however stale.
    open spec fn reads(&self, rows: &Vec<&E>) -> bool {
        self.mirror_spec().reads(rows)
    }

    /// Reading a cache fails where reading its mirror fails, with the
    /// mirror's error.
    open spec fn read_fails(&self, error: &Error<O::Error, CE>) -> bool {
        match *error {
            Error::Cache(e) => self.mirror_spec().read_fails(&e),
            Error::Origin(_) => false,
        }
    }

    fn read(&self) -> (r: Result<Vec<&E>, Error<O::Error, CE>>) {
        match self.cache.read() {
            Ok(rows) => Ok(rows),
            Err(e) => Err(Error::Cache(e)),
        }
    }
}

impl<E, O, C> TableExtend<E> for Cache<O, C> where
    E: Clone,
    C: TableExtend<E>,
    O: TableExtend<E>,
 {
    type Ok = O::Ok;

    type Error = Error<O::Error, C::Error>;

    /// The mirror and the origin each take clones of the entries.
    open spec fn extended(&self, entries: &Vec<E>, after: &Self) -> bool {
        extended_by_clones(&self.mirror_spec(), entries@, &after.mirror_spec())
            && extended_by_clones(&self.origin_spec(), entries@, &after.origin_spec())
            && after.same_mark(self)
    }

    /// The acknowledgment of an append is the one that the origin gave for
    /// the same entries.
    open spec fn extend_acknowledges(&self, entries: &Vec<E>, after: &Self, ok: &O::Ok) -> bool {
        self.origin_spec().extend_acknowledges(entries, &after.origin_spec(), ok)
    }

    /// An append fails where a part fails. At the mirror: the origin is left
    /// alone. At the origin: the mirror has taken clones of the entries.
    open spec fn extend_fails(
        &self,
        entries: &Vec<E>,
        after: &Self,
        error: &Error<O::Error, C::Error>,
    ) -> bool {
        after.same_mark(self) && match *error {
            Error::Cache(e) => after.origin_spec() == self.origin_spec()
                && self.mirror_spec().extend_fails(entries, &after.mirror_spec(), &e),
            Error::Origin(e) => extended_by_clones(
                &self.mirror_spec(),
                entries@,
                &after.mirror_spec(),
            ) && self.origin_spec().extend_fails(entries, &after.origin_spec(), &e),
        }
    }

    /// Appends to the mirror, then to the origin. Where the mirror fails the
    /// origin is left alone.
    fn extend(&mut self, gen: &mut VersionGen, entries: &Vec<E>) -> (r: Result<
        O::Ok,
        Error<O::Error, C::Error>,
    >)
        ensures
            final(self).same_mark(old(self)),
            r matches Err(Error::Cache(_)) ==> final(self).origin_spec() == old(
                self,
            ).origin_spec(),
            r matches Err(Error::Origin(_)) ==> extended_by_clones(
                &old(self).mirror_spec(),
                entries@,
                &final(self).mirror_spec(),
            ),
    {
        match self.cache.extend(gen, entries) {
            Ok(_) => {},
            Err(e) => {
                return Err(Error::Cache(e));
            },
        }
        match self.origin.extend(gen, entries) {
            Ok(ok) => {
                proof {
                    assert(are_clones(entries@, entries@) && old(self).extended(entries, self));
                }
                Ok(ok)
            },
            Err(e) => Err(Error::Origin(e)),
        }
    }
}

impl<E, O, C> TableUpdate<E> for Cache<O, C> where
    E: Clone,
    C: TableUpdate<E>,
    O: TableUpdate<E>,
 {
    type Ok = O::Ok;

    type Error = Error<O::Error, C::Error>;

    /// The mirror and the origin each take clones of the entries.
    open spec fn updated(&self, from_row: usize, entries: &Vec<E>, after: &Self) -> bool {
        updated_by_clones(&self.mirror_spec(), from_row, entries@, &after.mirror_spec())
            && updated_by_clones(&self.origin_spec(), from_row, entries@, &after.origin_spec())
            && after.same_mark(self)
    }

    /// The acknowledgment of a write is the one that the origin gave for the
    /// same row and entries.
    open spec fn update_acknowledges(
        &self,
        from_row: usize,
        entries: &Vec<E>,
        after: &Self,
        ok: &O::Ok,
    ) -> bool {
        self.origin_spec().update_acknowledges(from_row, entries, &after.origin_spec(), ok)
    }

    /// A write fails where a part fails. At the mirror: the origin is left
    /// alone. At the origin: the mirror has had clones of the entries
    /// written.
    open spec fn update_fails(
        &self,
        from_row: usize,
        entries: &Vec<E>,
        after: &Self,
        error: &Error<O::Error, C::Error>,
    ) -> bool {
        after.same_mark(self) && match *error {
            Error::Cache(e) => after.origin_spec() == self.origin_spec()
                && self.mirror_spec().update_fails(from_row, entries, &after.mirror_spec(), &e),
            Error::Origin(e) => updated_by_clones(
                &self.mirror_spec(),
                from_row,
                entries@,
                &after.mirror_spec(),
            ) && self.origin_spec().update_fails(from_row, entries, &after.origin_spec(), &e),
        }
    }

    /// Writes to the mirror, then to the origin. Where the mirror fails the
    /// origin is left alone.
    fn update(&mut self, gen: &mut VersionGen, from_row: usize, entries: &Vec<E>) -> (r: Result<
        O::Ok,
        Error<O::Error, C::Error>,
    >)
        ensures
            final(self).same_mark(old(self)),
            r matches Err(Error::Cache(_)) ==> final(self).origin_spec() == old(
                self,
            ).origin_spec(),
            r matches Err(Error::Origin(_)) ==> updated_by_clones(
                &old(self).mirror_spec(),
                from_row,
                entries@,
                &final(self).mirror_spec(),
            ),
    {
        match self.cache.update(gen, from_row, entries) {
            Ok(_) => {},
            Err(e) => {
                return Err(Error::Cache(e));
            },
        }
        match self.origin.update(gen, from_row, entries) {
            Ok(ok) => {
                proof {
                    assert(are_clones(entries@, entries@) && old(self).updated(
                        from_row,
                        entries,
                        self,
                    ));
                }
                Ok(ok)
            },
            Err(e) => Err(Error::Origin(e)),
        }
    }
}

impl<O: Table, C> TableVersion for Cache<O, C> where C: TableVersion {
    type Error = Error<Infallible, C::Error>;

    /// The version of a cache is that of its mirror.
    open spec fn versioned(&self, after: &Self, version: u64) -> bool {
        self.mirror_spec().versioned(&after.mirror_spec(), version) && after.origin_spec()
            == self.origin_spec() && after.same_mark(self)
    }

    /// A look at the version fails where that at the mirror fails, with the
    /// mirror's error; the origin is left alone.
    open spec fn version_fails(&self, after: &Self, error: &Error<Infallible, C::Error>) -> bool {
        after.origin_spec() == self.origin_spec() && after.same_mark(self)
            && match *error {
            Error::Cache(e) => self.mirror_spec().version_fails(&after.mirror_spec(), &e),
            Error::Origin(_) => false,
        }
    }

    fn version(&mut self, gen: &mut VersionGen) -> (r: Result<u64, Error<Infallible, C::Error>>) {
        match self.cache.version(gen) {
            Ok(v) => Ok(v),
            Err(e) => Err(Error::Cache(e)),
        }
    }
}

/// What a refresh leaves in a mirror that is a table in memory, once the
/// origin, now `looked`, has reported `version`: where the mirror is not
/// marked and that is the version seen last, the mirror is untouched; else
/// there are rows that the origin handed out, and the mirror holds clones of
/// exactly these.
pub open spec fn coherent<E: Clone, M, O: TableFetch<E>>(
    before: Cache<O, InMemTable<E, M>>,
    looked: O,
    version: u64,
    after: Cache<O, InMemTable<E, M>>,
) -> bool {
    if !before.is_stale(version) {
        after.mirror_spec() == before.mirror_spec()
    } else {
        exists|rows: Vec<E>| #[trigger]
            looked.fetched(&after.origin_spec(), &rows) && are_clones(
                rows@,
                present(after.mirror_spec()@),
            )
    }
}

/// Cache coherence. After a refresh over a mirror in memory, the records of
/// the mirror, which reading it gives, are what the origin's fetch handed
/// out, record by record, where the mirror was marked or the origin reported
/// another version than the one seen last; and where the mirror was not
/// marked and the origin reported the same version, the mirror was not
/// rebuilt.
pub proof fn lemma_refresh_coherent<E: Clone, M, OE, O>(
    before: Cache<O, InMemTable<E, M>>,
    after: Cache<O, InMemTable<E, M>>,
) where O: TableFetch<E, Error = OE> + TableVersion<Error = OE>
    requires
        TableFetch::<E>::refreshed(&before, &after),
    ensures
        exists|looked: O, version: u64| #[trigger]
            before.origin_spec().versioned(&looked, version) && coherent(
                before,
                looked,
                version,
                after,
            ),
{
    let (looked, version) = choose|looked: O, version: u64| #[trigger]
        before.origin_spec().versioned(&looked, version) && settled::<
            E,
            O,
            InMemTable<E, M>,
        >(before, looked, version, after);
    if before.is_stale(version) {
        let rows = choose|rows: Vec<E>| #[trigger]
            looked.fetched(&after.origin_spec(), &rows) && rebuilt_from(after.mirror_spec(), rows@);
        let emptied = choose|emptied: InMemTable<E, M>|
            emptied.cleared() && #[trigger] extended_by_clones(
                &emptied,
                rows@,
                &after.mirror_spec(),
            );
        let copies = choose|copies: Vec<E>| #[trigger]
            are_clones(rows@, copies@) && emptied.extended(&copies, &after.mirror_spec());
        assert(after.mirror_spec()@ =~= filled(copies@));
        lemma_present_filled(copies@);
        assert(looked.fetched(&after.origin_spec(), &rows) && are_clones(
            rows@,
            present(after.mirror_spec()@),
        ));
    }
    assert(before.origin_spec().versioned(&looked, version) && coherent(
        before,
        looked,
        version,
        after,
    ));
}

/// Cache busting. A refresh of a cache whose mirror is marked rebuilds the
/// mirror whatever version the origin reports: the origin handed out rows,
/// the mirror was emptied and filled with clones of them, the version that
/// the origin reported is the one seen last, and the mark is gone.
pub proof fn lemma_dirty_refresh_rebuilds<E: Clone, OE, CE, O, C>(
    before: Cache<O, C>,
    after: Cache<O, C>,
) where
    O: TableFetch<E, Error = OE> + TableVersion<Error = OE>,
    C: TableExtend<E, Error = CE> + TableRead<E, Error = CE> + TableClear<Error = CE>,

    requires
        before.dirty_spec(),
        TableFetch::<E>::refreshed(&before, &after),
    ensures
        !after.dirty_spec(),
        exists|looked: O, rows: Vec<E>| #[trigger]
            looked.fetched(&after.origin_spec(), &rows) && before.origin_spec().versioned(
                &looked,
                after.last_spec(),
            ) && rebuilt_from(after.mirror_spec(), rows@),
{
    let (looked, version) = choose|looked: O, version: u64| #[trigger]
        before.origin_spec().versioned(&looked, version) && settled::<E, O, C>(
            before,
            looked,
            version,
            after,
        );
    let rows = choose|rows: Vec<E>| #[trigger]
        looked.fetched(&after.origin_spec(), &rows) && rebuilt_from(after.mirror_spec(), rows@);
    assert(looked.fetched(&after.origin_spec(), &rows) && before.origin_spec().versioned(
        &looked,
        after.last_spec(),
    ) && rebuilt_from(after.mirror_spec(), rows@));
}

} // verus!
