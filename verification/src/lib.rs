//! Versioned, cacheable and indexable tables over a slow remote record store.
//!
//! The capability traits below are the single-purpose contracts that every
//! storage adapter and decorator satisfies. Each trait names, as spec
//! predicates, what one successful call does to the component and what a
//! failed one does; decorators state their own contracts over the predicates
//! of the parts they wrap, so that a decorator over parts that cannot fail is
//! known not to fail. Records are addressed by row position, counted from
//! zero.

pub mod cache;
pub mod cell;
pub mod clock;
pub mod config;
pub mod entries;
pub mod fork;
pub mod in_mem;
pub mod index;
pub mod pattern;
pub mod payload;
pub mod prelude;
pub mod properties;
pub mod range;
pub mod row;
pub mod search;
pub mod sheet;
pub mod text;
pub mod version;

use crate::version::VersionGen;
use vstd::prelude::*;

verus! {

/// Whether `copies` holds, position by position, a clone of each of `items`.
pub open spec fn are_clones<E: Clone>(items: Seq<E>, copies: Seq<E>) -> bool {
    items.len() == copies.len() && forall|i: int|
        0 <= i < items.len() ==> cloned(#[trigger] items[i], copies[i])
}

/// Whether `refs` refers, position by position, to each of `records`.
pub open spec fn refers_to<E>(refs: Seq<&E>, records: Seq<E>) -> bool {
    refs.len() == records.len() && forall|i: int|
        0 <= i < refs.len() ==> *(#[trigger] refs[i]) == records[i]
}

/// Whether `copies` holds, position by position, a clone of what each of
/// `refs` refers to.
pub open spec fn are_clones_of<E: Clone>(refs: Seq<&E>, copies: Seq<E>) -> bool {
    refs.len() == copies.len() && forall|i: int|
        0 <= i < refs.len() ==> cloned(*(#[trigger] refs[i]), copies[i])
}

/// Clones every item, in order.
pub fn clone_all<E: Clone>(items: &Vec<E>) -> (copies: Vec<E>)
    ensures
        are_clones(items@, copies@),
{
    let mut copies: Vec<E> = Vec::new();
    let mut i: usize = 0;
    while i < items.len()
        invariant
            0 <= i <= items.len(),
            copies@.len() == i,
            forall|j: int| 0 <= j < i ==> cloned(#[trigger] items@[j], copies@[j]),
        decreases items.len() - i,
    {
        let copy: E = items[i].clone();
        copies.push(copy);
        i += 1;
    }
    copies
}

/// What every component says of itself: whether it is well formed. Every
/// operation of a capability asks for a well-formed component and leaves one,
/// whether it succeeds or fails.
pub trait Table {
    spec fn inv(&self) -> bool;
}

/// Refresh, then hand out every record. May reach over the network.
pub trait TableFetch<E>: Table {
    type Error;

    /// What one successful refresh does: it takes the component from `self`
    /// to `after`.
    spec fn refreshed(&self, after: &Self) -> bool;

    /// What one successful fetch does: it refreshes the component from
    /// `self` to `after` and hands out `rows`.
    spec fn fetched(&self, after: &Self, rows: &Vec<E>) -> bool;

    /// What a refresh that fails with `error` does: it takes the component
    /// from `self` to `after`. Unless a component says more, any failure may
    /// come and leave anything.
    open spec fn refresh_fails(&self, after: &Self, error: &Self::Error) -> bool {
        true
    }

    /// What a fetch that fails with `error` does: it takes the component from
    /// `self` to `after`. Unless a component says more, any failure may come
    /// and leave anything.
    open spec fn fetch_fails(&self, after: &Self, error: &Self::Error) -> bool {
        true
    }

    fn fetch(&mut self, gen: &mut VersionGen) -> (r: Result<Vec<E>, Self::Error>)
        requires
            old(self).inv(),
        ensures
            final(self).inv(),
            r matches Ok(rows) ==> old(self).fetched(final(self), &rows),
            r matches Err(e) ==> old(self).fetch_fails(final(self), &e),
    ;

    fn refresh(&mut self, gen: &mut VersionGen) -> (r: Result<(), Self::Error>)
        requires
            old(self).inv(),
        ensures
            final(self).inv(),
            r is Ok ==> old(self).refreshed(final(self)),
            r matches Err(e) ==> old(self).refresh_fails(final(self), &e),
    ;
}

/// Hand out the records that the component holds now, without reaching out.
pub trait TableRead<E>: Table {
    type Error;

    /// Whether `rows` are the records that the component holds now, in the
    /// order of their rows.
    spec fn reads(&self, rows: &Vec<&E>) -> bool;

    /// Whether reading the component as it is now may fail with `error`.
    /// Unless a component says more, any failure may come.
    open spec fn read_fails(&self, error: &Self::Error) -> bool {
        true
    }

    fn read(&self) -> (r: Result<Vec<&E>, Self::Error>)
        requires
            self.inv(),
        ensures
            r matches Ok(rows) ==> self.reads(&rows),
            r matches Err(e) ==> self.read_fails(&e),
    ;
}

/// What appending clones of `entries` does to a component.
pub open spec fn extended_by_clones<E: Clone, T: TableExtend<E>>(
    before: &T,
    entries: Seq<E>,
    after: &T,
) -> bool {
    exists|copies: Vec<E>| #[trigger] are_clones(entries, copies@) && before.extended(&copies, after)
}

/// What writing clones of `entries` at the rows from `from_row` on does to a
/// component.
pub open spec fn updated_by_clones<E: Clone, T: TableUpdate<E>>(
    before: &T,
    from_row: usize,
    entries: Seq<E>,
    after: &T,
) -> bool {
    exists|copies: Vec<E>| #[trigger]
        are_clones(entries, copies@) && before.updated(from_row, &copies, after)
}

/// Append records.
pub trait TableExtend<E: Clone>: Table + Sized {
    type Ok;

    type Error;

    /// What appending `entries` does: it takes the component from `self` to
    /// `after`.
    spec fn extended(&self, entries: &Vec<E>, after: &Self) -> bool;

    /// Whether `ok` is the acknowledgment that a successful append of
    /// `entries` gives when it takes the component from `self` to `after`.
    /// Unless a component says more, it may be any.
    open spec fn extend_acknowledges(&self, entries: &Vec<E>, after: &Self, ok: &Self::Ok) -> bool {
        true
    }

    /// What an append of `entries` that fails with `error` does: it takes the
    /// component from `self` to `after`. Unless a component says more, any
    /// failure may come and leave anything.
    open spec fn extend_fails(&self, entries: &Vec<E>, after: &Self, error: &Self::Error) -> bool {
        true
    }

    /// Appends clones of `entries`.
    fn extend(&mut self, gen: &mut VersionGen, entries: &Vec<E>) -> (r: Result<Self::Ok, Self::Error>)
        requires
            old(self).inv(),
        ensures
            final(self).inv(),
            r is Ok ==> exists|copies: Vec<E>| #[trigger]
                are_clones(entries@, copies@) && old(self).extended(&copies, final(self)),
            r matches Ok(ok) ==> old(self).extend_acknowledges(entries, final(self), &ok),
            r matches Err(e) ==> old(self).extend_fails(entries, final(self), &e),
    ;

    /// Appends clones of `entries`, which are handed over.
    fn extend_owned(&mut self, gen: &mut VersionGen, entries: Vec<E>) -> (r: Result<
        Self::Ok,
        Self::Error,
    >)
        requires
            old(self).inv(),
        ensures
            final(self).inv(),
            r is Ok ==> exists|copies: Vec<E>| #[trigger]
                are_clones(entries@, copies@) && old(self).extended(&copies, final(self)),
            r matches Ok(ok) ==> old(self).extend_acknowledges(&entries, final(self), &ok),
            r matches Err(e) ==> old(self).extend_fails(&entries, final(self), &e),
    {
        self.extend(gen, &entries)
    }

    /// Appends one entry: a clone of it is handed on as a list of one.
    fn extend_one(&mut self, gen: &mut VersionGen, entry: &E) -> (r: Result<Self::Ok, Self::Error>)
        requires
            old(self).inv(),
        ensures
            final(self).inv(),
            r is Ok ==> exists|one: Vec<E>| #[trigger]
                are_clones(seq![*entry], one@) && exists|copies: Vec<E>| #[trigger]
                    are_clones(one@, copies@) && old(self).extended(&copies, final(self)),
            r matches Ok(ok) ==> exists|one: Vec<E>| #[trigger]
                are_clones(seq![*entry], one@) && old(self).extend_acknowledges(
                    &one,
                    final(self),
                    &ok,
                ),
            r matches Err(e) ==> exists|one: Vec<E>| #[trigger]
                are_clones(seq![*entry], one@) && old(self).extend_fails(&one, final(self), &e),
    {
        let mut one: Vec<E> = Vec::new();
        one.push(entry.clone());
        let r = self.extend(gen, &one);
        proof {
            assert(are_clones(seq![*entry], one@));
            if r is Err {
                assert(are_clones(seq![*entry], one@) && old(self).extend_fails(
                    &one,
                    self,
                    &r->Err_0,
                ));
            } else {
                assert(are_clones(seq![*entry], one@) && old(self).extend_acknowledges(
                    &one,
                    self,
                    &r->Ok_0,
                ));
            }
        }
        r
    }
}

/// Overwrite records at and after a row, growing the table where needed.
pub trait TableUpdate<E: Clone>: Table + Sized {
    type Ok;

    type Error;

    /// What writing `entries` at the rows from `from_row` on does: it takes
    /// the component from `self` to `after`.
    spec fn updated(&self, from_row: usize, entries: &Vec<E>, after: &Self) -> bool;

    /// Whether `ok` is the acknowledgment that a successful write of
    /// `entries` at the rows from `from_row` on gives when it takes the
    /// component from `self` to `after`. Unless a component says more, it may
    /// be any.
    open spec fn update_acknowledges(
        &self,
        from_row: usize,
        entries: &Vec<E>,
        after: &Self,
        ok: &Self::Ok,
    ) -> bool {
        true
    }

    /// What a write of `entries` at the rows from `from_row` on that fails
    /// with `error` does: it takes the component from `self` to `after`.
    /// Unless a component says more, any failure may come and leave anything.
    open spec fn update_fails(
        &self,
        from_row: usize,
        entries: &Vec<E>,
        after: &Self,
        error: &Self::Error,
    ) -> bool {
        true
    }

    /// Writes clones of `entries` at the rows from `from_row` on. The last
    /// row written must have a position.
    fn update(&mut self, gen: &mut VersionGen, from_row: usize, entries: &Vec<E>) -> (r: Result<
        Self::Ok,
        Self::Error,
    >)
        requires
            old(self).inv(),
            from_row + entries@.len() <= usize::MAX,
        ensures
            final(self).inv(),
            r is Ok ==> exists|copies: Vec<E>| #[trigger]
                are_clones(entries@, copies@) && old(self).updated(from_row, &copies, final(self)),
            r matches Ok(ok) ==> old(self).update_acknowledges(
                from_row,
                entries,
                final(self),
                &ok,
            ),
            r matches Err(e) ==> old(self).update_fails(from_row, entries, final(self), &e),
    ;

    /// Writes clones of `entries`, which are handed over, at the rows from
    /// `from_row` on.
    fn update_owned(&mut self, gen: &mut VersionGen, from_row: usize, entries: Vec<E>) -> (r:
        Result<Self::Ok, Self::Error>)
        requires
            old(self).inv(),
            from_row + entries@.len() <= usize::MAX,
        ensures
            final(self).inv(),
            r is Ok ==> exists|copies: Vec<E>| #[trigger]
                are_clones(entries@, copies@) && old(self).updated(from_row, &copies, final(self)),
            r matches Ok(ok) ==> old(self).update_acknowledges(
                from_row,
                &entries,
                final(self),
                &ok,
            ),
            r matches Err(e) ==> old(self).update_fails(from_row, &entries, final(self), &e),
    {
        self.update(gen, from_row, &entries)
    }

    /// Writes one entry at `row`: a clone of it is handed on as a list of one.
    fn update_one(&mut self, gen: &mut VersionGen, row: usize, entry: &E) -> (r: Result<
        Self::Ok,
        Self::Error,
    >)
        requires
            old(self).inv(),
            row < usize::MAX,
        ensures
            final(self).inv(),
            r is Ok ==> exists|one: Vec<E>| #[trigger]
                are_clones(seq![*entry], one@) && exists|copies: Vec<E>| #[trigger]
                    are_clones(one@, copies@) && old(self).updated(row, &copies, final(self)),
            r matches Ok(ok) ==> exists|one: Vec<E>| #[trigger]
                are_clones(seq![*entry], one@) && old(self).update_acknowledges(
                    row,
                    &one,
                    final(self),
                    &ok,
                ),
            r matches Err(e) ==> exists|one: Vec<E>| #[trigger]
                are_clones(seq![*entry], one@) && old(self).update_fails(
                    row,
                    &one,
                    final(self),
                    &e,
                ),
    {
        let mut one: Vec<E> = Vec::new();
        one.push(entry.clone());
        let r = self.update(gen, row, &one);
        proof {
            assert(are_clones(seq![*entry], one@));
            if r is Err {
                assert(are_clones(seq![*entry], one@) && old(self).update_fails(
                    row,
                    &one,
                    self,
                    &r->Err_0,
                ));
            } else {
                assert(are_clones(seq![*entry], one@) && old(self).update_acknowledges(
                    row,
                    &one,
                    self,
                    &r->Ok_0,
                ));
            }
        }
        r
    }
}

/// Empty the component.
pub trait TableClear: Table {
    type Error;

    /// Whether the component is as a successful clear leaves it.
    spec fn cleared(&self) -> bool;

    /// What emptying that fails with `error` does: it takes the component
    /// from `self` to `after`. Unless a component says more, any failure may
    /// come and leave anything.
    open spec fn clear_fails(&self, after: &Self, error: &Self::Error) -> bool {
        true
    }

    fn clear(&mut self) -> (r: Result<(), Self::Error>)
        requires
            old(self).inv(),
        ensures
            final(self).inv(),
            r is Ok ==> final(self).cleared(),
            r matches Err(e) ==> old(self).clear_fails(final(self), &e),
    ;
}

/// Report the current version, looking it up afresh where the component
/// needs to.
pub trait TableVersion: Table {
    type Error;

    /// What one successful look at the version does: it takes the component
    /// from `self` to `after` and reports `version`.
    spec fn versioned(&self, after: &Self, version: u64) -> bool;

    /// What a look at the version that fails with `error` does: it takes the
    /// component from `self` to `after`. Unless a component says more, any
    /// failure may come and leave anything.
    open spec fn version_fails(&self, after: &Self, error: &Self::Error) -> bool {
        true
    }

    fn version(&mut self, gen: &mut VersionGen) -> (r: Result<u64, Self::Error>)
        requires
            old(self).inv(),
        ensures
            final(self).inv(),
            r matches Ok(v) ==> old(self).versioned(final(self), v),
            r matches Err(e) ==> old(self).version_fails(final(self), &e),
    ;
}

} // verus!
