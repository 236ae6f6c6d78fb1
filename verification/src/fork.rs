//! The fan-out synchronizer: one origin and a declared list of subscribers.
//!
//! Every write goes to the origin first and then, only if the origin took
//! it, to each subscriber in the order of the list. A subscriber that fails
//! stops the fan-out: the origin and the subscribers before it keep the write,
//! the subscribers after it never see it. Nothing is rolled back.
//!
//! The subscribers of one list are of one type. Subscribers of another type
//! join by nesting: a fan-out is itself an origin, so a second fan-out with
//! the first for its origin carries a second list, which is served after the
//! first.

use crate::version::VersionGen;
use crate::{
    are_clones, extended_by_clones, updated_by_clones, Table, TableClear, TableExtend, TableFetch,
    TableUpdate,
};
use vstd::prelude::*;

verus! {

/// A fetch failed at the origin.
#[derive(Debug)]
pub enum ErrorFetch<O> {
    Origin(O),
}

/// An append failed: at the origin, or at the subscriber with the given
/// position in the list.
#[derive(Debug)]
pub enum ErrorExtend<O, S> {
    Origin(O),
    Subscriber(usize, S),
}

/// An overwrite failed: at the origin, or at the subscriber with the given
/// position in the list.
#[derive(Debug)]
pub enum ErrorUpdate<O, S> {
    Origin(O),
    Subscriber(usize, S),
}

/// Emptying failed at the subscriber with the given position in the list.
#[derive(Debug)]
pub enum ErrorClear<S> {
    Subscriber(usize, S),
}

/// Which operation failed, and where.
#[derive(Debug)]
pub enum Error<F, EO, ES, UO, US, C> {
    Fetch(ErrorFetch<F>),
    Extend(ErrorExtend<EO, ES>),
    Update(ErrorUpdate<UO, US>),
    Clear(ErrorClear<C>),
}

/// An origin and its subscribers, in declared order.
pub struct Fork<O, S> {
    pub origin: O,
    pub subscribers: Vec<S>,
}

impl<O, S> Fork<O, S> {
    /// A fan-out from `origin` to `subscribers`, in the order of the list.
    pub fn new(origin: O, subscribers: Vec<S>) -> (f: Self)
        ensures
            f.origin == origin,
            f.subscribers == subscribers,
    {
        Fork { origin, subscribers }
    }
}

impl<O: Table, S: Table> Table for Fork<O, S> {
    /// A fan-out is well formed where its origin and all its subscribers
    /// are.
    open spec fn inv(&self) -> bool {
        self.origin.inv() && forall|i: int|
            0 <= i < self.subscribers@.len() ==> (#[trigger] self.subscribers@[i]).inv()
    }
}

/// Whether `sub` is a subscriber that was emptied and then filled with clones
/// of `rows`.
pub open spec fn reloaded<E: Clone, S: TableExtend<E> + TableClear>(sub: S, rows: Seq<E>) -> bool {
    exists|emptied: S| emptied.cleared() && #[trigger] extended_by_clones(&emptied, rows, &sub)
}

/// Whether the subscribers before position `upto` took clones of `entries`
/// and the others are as they were.
pub open spec fn fanned_out<E: Clone, S: TableExtend<E>>(
    before: Seq<S>,
    entries: Seq<E>,
    after: Seq<S>,
    upto: int,
) -> bool {
    &&& after.len() == before.len()
    &&& forall|i: int|
        0 <= i < upto && i < before.len() ==> extended_by_clones(
            &before[i],
            entries,
            &#[trigger] after[i],
        )
    &&& forall|i: int| upto <= i < before.len() ==> #[trigger] after[i] == before[i]
}

/// Whether the subscribers before position `upto` had clones of `entries`
/// written at the rows from `from_row` on and the others are as they were.
pub open spec fn written_out<E: Clone, S: TableUpdate<E>>(
    before: Seq<S>,
    from_row: usize,
    entries: Seq<E>,
    after: Seq<S>,
    upto: int,
) -> bool {
    &&& after.len() == before.len()
    &&& forall|i: int|
        0 <= i < upto && i < before.len() ==> updated_by_clones(
            &before[i],
            from_row,
            entries,
            &#[trigger] after[i],
        )
    &&& forall|i: int| upto <= i < before.len() ==> #[trigger] after[i] == before[i]
}

/// Whether the fan-out of an append stopped at position `k`: the subscribers
/// before `k` took clones of `entries`, those after `k` are as they were.
pub open spec fn fanned_until<E: Clone, S: TableExtend<E>>(
    before: Seq<S>,
    entries: Seq<E>,
    after: Seq<S>,
    k: int,
) -> bool {
    &&& 0 <= k < before.len()
    &&& after.len() == before.len()
    &&& forall|i: int|
        0 <= i < k ==> extended_by_clones(&before[i], entries, &#[trigger] after[i])
    &&& forall|i: int| k < i < before.len() ==> #[trigger] after[i] == before[i]
}

/// Whether the fan-out of a write stopped at position `k`: the subscribers
/// before `k` had clones of `entries` written at the rows from `from_row`
/// on, those after `k` are as they were.
pub open spec fn written_until<E: Clone, S: TableUpdate<E>>(
    before: Seq<S>,
    from_row: usize,
    entries: Seq<E>,
    after: Seq<S>,
    k: int,
) -> bool {
    &&& 0 <= k < before.len()
    &&& after.len() == before.len()
    &&& forall|i: int|
        0 <= i < k ==> updated_by_clones(&before[i], from_row, entries, &#[trigger] after[i])
    &&& forall|i: int| k < i < before.len() ==> #[trigger] after[i] == before[i]
}

/// Whether emptying stopped at position `k`: the subscribers before `k` are
/// empty, those after `k` are as they were.
pub open spec fn emptied_until<S: TableClear>(before: Seq<S>, after: Seq<S>, k: int) -> bool {
    &&& 0 <= k < before.len()
    &&& after.len() == before.len()
    &&& forall|i: int| 0 <= i < k ==> (#[trigger] after[i]).cleared()
    &&& forall|i: int| k < i < before.len() ==> #[trigger] after[i] == before[i]
}

/// Whether filling stopped at position `k` with `error`: the subscribers
/// before `k` were emptied and filled with clones of `rows`, those after `k`
/// are empty, and the one at `k` was emptied and then failed to take the
/// rows.
pub open spec fn refilled_until<E: Clone, S: TableExtend<E> + TableClear>(
    after: Seq<S>,
    rows: Vec<E>,
    k: int,
    error: <S as TableExtend<E>>::Error,
) -> bool {
    &&& 0 <= k < after.len()
    &&& forall|i: int| 0 <= i < k ==> reloaded(#[trigger] after[i], rows@)
    &&& forall|i: int| k < i < after.len() ==> (#[trigger] after[i]).cleared()
    &&& exists|emptied: S| emptied.cleared() && #[trigger] emptied.extend_fails(&rows, &after[k], &error)
}

impl<E, O, S> TableExtend<E> for Fork<O, S> where
    E: Clone,
    O: TableFetch<E> + TableExtend<E> + TableUpdate<E>,
    S: TableExtend<E> + TableUpdate<E> + TableClear,
 {
    type Ok = ();

    type Error = Error<
        <O as TableFetch<E>>::Error,
        <O as TableExtend<E>>::Error,
        <S as TableExtend<E>>::Error,
        <O as TableUpdate<E>>::Error,
        <S as TableUpdate<E>>::Error,
        <S as TableClear>::Error,
    >;

    /// The origin and every subscriber take clones of the entries.
    open spec fn extended(&self, entries: &Vec<E>, after: &Self) -> bool {
        extended_by_clones(&self.origin, entries@, &after.origin) && fanned_out(
            self.subscribers@,
            entries@,
            after.subscribers@,
            self.subscribers@.len() as int,
        )
    }

    /// The acknowledgment of an append says nothing.
    open spec fn extend_acknowledges(&self, entries: &Vec<E>, after: &Self, ok: &()) -> bool {
        true
    }

    /// An append fails where a part fails. At the origin: no subscriber is
    /// touched. At the subscriber at position `k`: the origin and the
    /// subscribers before `k` have the entries, the subscribers after `k` are
    /// as they were.
    open spec fn extend_fails(&self, entries: &Vec<E>, after: &Self, error: &Self::Error) -> bool {
        match *error {
            Error::Extend(ErrorExtend::Origin(e)) => after.subscribers@ == self.subscribers@
                && self.origin.extend_fails(entries, &after.origin, &e),
            Error::Extend(ErrorExtend::Subscriber(k, e)) => extended_by_clones(
                &self.origin,
                entries@,
                &after.origin,
            ) && fanned_until(self.subscribers@, entries@, after.subscribers@, k as int)
                && self.subscribers@[k as int].extend_fails(
                entries,
                &after.subscribers@[k as int],
                &e,
            ),
            _ => false,
        }
    }

    /// Appends to the origin and then to each subscriber in order. Where the
    /// origin fails no subscriber is touched. Where the subscriber at
    /// position `k` fails, the origin and the subscribers before `k` have the
    /// entries and the subscribers after `k` are as they were.
    fn extend(&mut self, gen: &mut VersionGen, entries: &Vec<E>) -> (r: Result<(), Self::Error>)
        ensures
            final(self).subscribers@.len() == old(self).subscribers@.len(),
            match r {
                Ok(()) => true,
                Err(Error::Extend(ErrorExtend::Origin(_))) => final(self).subscribers@ == old(
                    self,
                ).subscribers@,
                Err(Error::Extend(ErrorExtend::Subscriber(k, _))) => k < old(
                    self,
                ).subscribers@.len() && extended_by_clones(
                    &old(self).origin,
                    entries@,
                    &final(self).origin,
                ) && forall|i: int|
                    0 <= i < old(self).subscribers@.len() && i != k ==> if i < k {
                        extended_by_clones(
                            &old(self).subscribers@[i],
                            entries@,
                            &#[trigger] final(self).subscribers@[i],
                        )
                    } else {
                        final(self).subscribers@[i] == old(self).subscribers@[i]
                    },
                Err(_) => false,
            },
    {
        match self.origin.extend(gen, entries) {
            Ok(_) => {},
            Err(e) => {
                return Err(Error::Extend(ErrorExtend::Origin(e)));
            },
        }
        let n: usize = self.subscribers.len();
        let mut i: usize = 0;
        while i < n
            invariant
                0 <= i <= n,
                n == old(self).subscribers@.len(),
                self.inv(),
                extended_by_clones(&old(self).origin, entries@, &self.origin),
                fanned_out(old(self).subscribers@, entries@, self.subscribers@, i as int),
            decreases n - i,
        {
            let ghost before = self.subscribers@;
            let r = self.subscribers[i].extend(gen, entries);
            proof {
                assert(self.subscribers@.len() == before.len());
                assert(forall|j: int|
                    0 <= j < before.len() && j != i ==> self.subscribers@[j] == before[j]);
            }
            match r {
                Ok(_) => {
                    proof {
                        assert(extended_by_clones(&before[i as int], entries@, &self.subscribers@[i as int]));
                    }
                },
                Err(e) => {
                    return Err(Error::Extend(ErrorExtend::Subscriber(i, e)));
                },
            }
            i += 1;
        }
        proof {
            assert(are_clones(entries@, entries@) && old(self).extended(entries, self));
        }
        Ok(())
    }
}

impl<E, O, S> TableUpdate<E> for Fork<O, S> where
    E: Clone,
    O: TableFetch<E> + TableExtend<E> + TableUpdate<E>,
    S: TableExtend<E> + TableUpdate<E> + TableClear,
 {
    type Ok = ();

    type Error = Error<
        <O as TableFetch<E>>::Error,
        <O as TableExtend<E>>::Error,
        <S as TableExtend<E>>::Error,
        <O as TableUpdate<E>>::Error,
        <S as TableUpdate<E>>::Error,
        <S as TableClear>::Error,
    >;

    /// The origin and every subscriber have clones of the entries written at
    /// the rows from `from_row` on.
    open spec fn updated(&self, from_row: usize, entries: &Vec<E>, after: &Self) -> bool {
        updated_by_clones(&self.origin, from_row, entries@, &after.origin) && written_out(
            self.subscribers@,
            from_row,
            entries@,
            after.subscribers@,
            self.subscribers@.len() as int,
        )
    }

    /// The acknowledgment of a write says nothing.
    open spec fn update_acknowledges(
        &self,
        from_row: usize,
        entries: &Vec<E>,
        after: &Self,
        ok: &(),
    ) -> bool {
        true
    }

    /// A write fails where a part fails. At the origin: no subscriber is
    /// touched. At the subscriber at position `k`: the origin and the
    /// subscribers before `k` have the entries, the subscribers after `k` are
    /// as they were.
    open spec fn update_fails(
        &self,
        from_row: usize,
        entries: &Vec<E>,
        after: &Self,
        error: &Self::Error,
    ) -> bool {
        match *error {
            Error::Update(ErrorUpdate::Origin(e)) => after.subscribers@ == self.subscribers@
                && self.origin.update_fails(from_row, entries, &after.origin, &e),
            Error::Update(ErrorUpdate::Subscriber(k, e)) => updated_by_clones(
                &self.origin,
                from_row,
                entries@,
                &after.origin,
            ) && written_until(self.subscribers@, from_row, entries@, after.subscribers@, k as int)
                && self.subscribers@[k as int].update_fails(
                from_row,
                entries,
                &after.subscribers@[k as int],
                &e,
            ),
            _ => false,
        }
    }

    /// Writes to the origin and then to each subscriber in order. Where the
    /// origin fails no subscriber is touched. Where the subscriber at
    /// position `k` fails, the origin and the subscribers before `k` have the
    /// entries and the subscribers after `k` are as they were.
    fn update(&mut self, gen: &mut VersionGen, from_row: usize, entries: &Vec<E>) -> (r: Result<
        (),
        Self::Error,
    >)
        ensures
            final(self).subscribers@.len() == old(self).subscribers@.len(),
            match r {
                Ok(()) => true,
                Err(Error::Update(ErrorUpdate::Origin(_))) => final(self).subscribers@ == old(
                    self,
                ).subscribers@,
                Err(Error::Update(ErrorUpdate::Subscriber(k, _))) => k < old(
                    self,
                ).subscribers@.len() && updated_by_clones(
                    &old(self).origin,
                    from_row,
                    entries@,
                    &final(self).origin,
                ) && forall|i: int|
                    0 <= i < old(self).subscribers@.len() && i != k ==> if i < k {
                        updated_by_clones(
                            &old(self).subscribers@[i],
                            from_row,
                            entries@,
                            &#[trigger] final(self).subscribers@[i],
                        )
                    } else {
                        final(self).subscribers@[i] == old(self).subscribers@[i]
                    },
                Err(_) => false,
            },
    {
        match self.origin.update(gen, from_row, entries) {
            Ok(_) => {},
            Err(e) => {
                return Err(Error::Update(ErrorUpdate::Origin(e)));
            },
        }
        let n: usize = self.subscribers.len();
        let mut i: usize = 0;
        while i < n
            invariant
                0 <= i <= n,
                n == old(self).subscribers@.len(),
                self.inv(),
                from_row + entries@.len() <= usize::MAX,
                updated_by_clones(&old(self).origin, from_row, entries@, &self.origin),
                written_out(old(self).subscribers@, from_row, entries@, self.subscribers@, i as int),
            decreases n - i,
        {
            let ghost before = self.subscribers@;
            let r = self.subscribers[i].update(gen, from_row, entries);
            proof {
                assert(self.subscribers@.len() == before.len());
                assert(forall|j: int|
                    0 <= j < before.len() && j != i ==> self.subscribers@[j] == before[j]);
            }
            match r {
                Ok(_) => {
                    proof {
                        assert(updated_by_clones(
                            &before[i as int],
                            from_row,
                            entries@,
                            &self.subscribers@[i as int],
                        ));
                    }
                },
                Err(e) => {
                    return Err(Error::Update(ErrorUpdate::Subscriber(i, e)));
                },
            }
            i += 1;
        }
        proof {
            assert(are_clones(entries@, entries@) && old(self).updated(from_row, entries, self));
        }
        Ok(())
    }
}

impl<E, O, S> TableFetch<E> for Fork<O, S> where
    E: Clone,
    O: TableFetch<E> + TableExtend<E> + TableUpdate<E>,
    S: TableExtend<E> + TableUpdate<E> + TableClear,
 {
    type Error = Error<
        <O as TableFetch<E>>::Error,
        <O as TableExtend<E>>::Error,
        <S as TableExtend<E>>::Error,
        <O as TableUpdate<E>>::Error,
        <S as TableUpdate<E>>::Error,
        <S as TableClear>::Error,
    >;

    /// A refresh is a fetch whose rows are dropped.
    open spec fn refreshed(&self, after: &Self) -> bool {
        exists|rows: Vec<E>| #[trigger] self.fetched(after, &rows)
    }

    /// The origin hands out the rows, and every subscriber is emptied and
    /// filled with clones of them.
    open spec fn fetched(&self, after: &Self, rows: &Vec<E>) -> bool {
        &&& self.origin.fetched(&after.origin, rows)
        &&& after.subscribers@.len() == self.subscribers@.len()
        &&& forall|i: int|
            0 <= i < after.subscribers@.len() ==> reloaded(#[trigger] after.subscribers@[i], rows@)
    }

    /// A fetch fails where a part fails. At the origin: no subscriber is
    /// touched. Where emptying fails at position `k`: the origin has handed
    /// out its rows, the subscribers before `k` are empty and those after `k`
    /// are as they were. Where filling fails at position `k`: the subscribers
    /// before `k` hold the rows and those after `k` are empty.
    open spec fn fetch_fails(&self, after: &Self, error: &Self::Error) -> bool {
        match *error {
            Error::Fetch(ErrorFetch::Origin(e)) => after.subscribers@ == self.subscribers@
                && self.origin.fetch_fails(&after.origin, &e),
            Error::Clear(ErrorClear::Subscriber(k, e)) => (exists|rows: Vec<E>| #[trigger]
                self.origin.fetched(&after.origin, &rows)) && emptied_until(
                self.subscribers@,
                after.subscribers@,
                k as int,
            ) && self.subscribers@[k as int].clear_fails(&after.subscribers@[k as int], &e),
            Error::Extend(ErrorExtend::Subscriber(k, e)) => after.subscribers@.len()
                == self.subscribers@.len() && exists|rows: Vec<E>| #[trigger]
                self.origin.fetched(&after.origin, &rows) && refilled_until(
                    after.subscribers@,
                    rows,
                    k as int,
                    e,
                ),
            _ => false,
        }
    }

    /// A refresh fails as the fetch does.
    open spec fn refresh_fails(&self, after: &Self, error: &Self::Error) -> bool {
        self.fetch_fails(after, error)
    }

    /// Fetches from the origin, then empties every subscriber in order, then
    /// fills every subscriber in order with what the origin handed out. Where
    /// the origin fails no subscriber is touched. Where emptying fails at
    /// position `k`, the subscribers after `k` are as they were; where filling
    /// fails at position `k`, the subscribers after `k` are empty.
    fn fetch(&mut self, gen: &mut VersionGen) -> (r: Result<Vec<E>, Self::Error>)
        ensures
            final(self).subscribers@.len() == old(self).subscribers@.len(),
            match r {
                Ok(_) => true,
                Err(Error::Fetch(ErrorFetch::Origin(_))) => final(self).subscribers@ == old(
                    self,
                ).subscribers@,
                Err(Error::Clear(ErrorClear::Subscriber(k, _))) => k < old(
                    self,
                ).subscribers@.len() && forall|i: int|
                    0 <= i < old(self).subscribers@.len() && i != k ==> if i < k {
                        (#[trigger] final(self).subscribers@[i]).cleared()
                    } else {
                        final(self).subscribers@[i] == old(self).subscribers@[i]
                    },
                Err(Error::Extend(ErrorExtend::Subscriber(k, _))) => k < old(
                    self,
                ).subscribers@.len() && forall|i: int|
                    k < i < old(self).subscribers@.len() ==> (#[trigger] final(self).subscribers@[i]).cleared(),
                Err(_) => false,
            },
    {
        let entries: Vec<E> = match self.origin.fetch(gen) {
            Ok(rows) => rows,
            Err(e) => {
                return Err(Error::Fetch(ErrorFetch::Origin(e)));
            },
        };
        let n: usize = self.subscribers.len();
        let mut i: usize = 0;
        while i < n
            invariant
                0 <= i <= n,
                n == old(self).subscribers@.len(),
                n == self.subscribers@.len(),
                self.inv(),
                old(self).origin.fetched(&self.origin, &entries),
                forall|j: int| 0 <= j < i ==> (#[trigger] self.subscribers@[j]).cleared(),
                forall|j: int| i <= j < n ==> #[trigger] self.subscribers@[j] == old(
                    self,
                ).subscribers@[j],
            decreases n - i,
        {
            let ghost before = self.subscribers@;
            let r = self.subscribers[i].clear();
            proof {
                assert(self.subscribers@.len() == before.len());
                assert(forall|j: int|
                    0 <= j < before.len() && j != i ==> self.subscribers@[j] == before[j]);
            }
            match r {
                Ok(()) => {},
                Err(e) => {
                    proof {
                        assert(old(self).origin.fetched(&self.origin, &entries));
                        assert(emptied_until(
                            old(self).subscribers@,
                            self.subscribers@,
                            i as int,
                        ));
                        assert(before[i as int] == old(self).subscribers@[i as int]);
                        assert(old(self).subscribers@[i as int].clear_fails(
                            &self.subscribers@[i as int],
                            &e,
                        ));
                    }
                    return Err(Error::Clear(ErrorClear::Subscriber(i, e)));
                },
            }
            i += 1;
        }
        let ghost emptied = self.subscribers@;
        i = 0;
        while i < n
            invariant
                0 <= i <= n,
                n == old(self).subscribers@.len(),
                n == self.subscribers@.len(),
                n == emptied.len(),
                self.inv(),
                old(self).origin.fetched(&self.origin, &entries),
                forall|j: int| 0 <= j < n ==> (#[trigger] emptied[j]).cleared(),
                forall|j: int| 0 <= j < i ==> reloaded(#[trigger] self.subscribers@[j], entries@),
                forall|j: int| i <= j < n ==> #[trigger] self.subscribers@[j] == emptied[j],
            decreases n - i,
        {
            let ghost before = self.subscribers@;
            let r = self.subscribers[i].extend(gen, &entries);
            proof {
                assert(self.subscribers@.len() == before.len());
                assert(forall|j: int|
                    0 <= j < before.len() && j != i ==> self.subscribers@[j] == before[j]);
            }
            match r {
                Ok(_) => {
                    proof {
                        assert(emptied[i as int].cleared() && extended_by_clones(
                            &emptied[i as int],
                            entries@,
                            &self.subscribers@[i as int],
                        ));
                    }
                },
                Err(e) => {
                    proof {
                        assert(emptied[i as int].cleared() && emptied[i as int].extend_fails(
                            &entries,
                            &self.subscribers@[i as int],
                            &e,
                        ));
                        assert(refilled_until(self.subscribers@, entries, i as int, e));
                        assert(old(self).origin.fetched(&self.origin, &entries) && refilled_until(
                            self.subscribers@,
                            entries,
                            i as int,
                            e,
                        ));
                    }
                    return Err(Error::Extend(ErrorExtend::Subscriber(i, e)));
                },
            }
            i += 1;
        }
        Ok(entries)
    }

    fn refresh(&mut self, gen: &mut VersionGen) -> (r: Result<(), Self::Error>) {
        match self.fetch(gen) {
            Ok(rows) => {
                proof {
                    assert(old(self).fetched(self, &rows));
                }
                Ok(())
            },
            Err(e) => Err(e),
        }
    }
}

} // verus!
