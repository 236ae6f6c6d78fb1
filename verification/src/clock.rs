//! The clock decorator: it asks the wrapped component for its version at
//! most once per time-to-live, and passes everything else through.
//!
//! Times are milliseconds since the Unix epoch, and so is the time-to-live.

use crate::version::{bumped, next_version, VersionGen};
use crate::{Table, TableClear, TableExtend, TableFetch, TableRead, TableUpdate, TableVersion};
use vstd::prelude::*;

verus! {

/// The time now, in milliseconds since the Unix epoch.
///
/// Calls `chrono::Utc::now` and `DateTime::timestamp_millis`. Nothing is
/// claimed of the result: it is whatever the machine's clock says. `now`
/// gives up where that clock stands before the year 1970.
#[verifier::external_body]
pub(crate) fn utc_now_millis() -> i64 {
    chrono::Utc::now().timestamp_millis()
}

/// A component, the version it reported last, and when it was asked.
pub struct Clock<I> {
    inner: I,
    ttl: i64,
    cached_version: u64,
    last_cache_update: i64,
}

/// Whether, at time `now`, more than `ttl` has passed since `last`.
pub open spec fn expired(now: i64, last: i64, ttl: i64) -> bool {
    now - last > ttl
}

impl<I> Clock<I> {
    /// The wrapped component.
    pub closed spec fn inner_spec(&self) -> I {
        self.inner
    }

    /// The time-to-live.
    pub closed spec fn ttl_spec(&self) -> i64 {
        self.ttl
    }

    /// The version that was reported last.
    pub closed spec fn cached_spec(&self) -> u64 {
        self.cached_version
    }

    /// When the wrapped component was asked last.
    pub closed spec fn asked_spec(&self) -> i64 {
        self.last_cache_update
    }

    /// How many times a look at the version at time `now` asks the wrapped
    /// component: once where the time-to-live has passed, else not at all.
    pub open spec fn asks(&self, now: i64) -> nat {
        if expired(now, self.asked_spec(), self.ttl_spec()) {
            1
        } else {
            0
        }
    }

    /// A clock over `inner` that counts from now. Until the wrapped component
    /// is asked, the version is a fresh one.
    pub fn new(gen: &mut VersionGen, inner: I, ttl: i64) -> (c: Self)
        ensures
            c.inner_spec() == inner,
            c.ttl_spec() == ttl,
            c.cached_spec() == old(gen).peek(),
            final(gen).peek() == bumped(old(gen).peek()),
    {
        let now: i64 = utc_now_millis();
        Self::new_at(gen, inner, ttl, now)
    }

    /// A clock over `inner` that counts from `now`.
    pub fn new_at(gen: &mut VersionGen, inner: I, ttl: i64, now: i64) -> (c: Self)
        ensures
            c.inner_spec() == inner,
            c.ttl_spec() == ttl,
            c.asked_spec() == now,
            c.cached_spec() == old(gen).peek(),
            final(gen).peek() == bumped(old(gen).peek()),
    {
        Clock { inner, ttl, cached_version: next_version(gen), last_cache_update: now }
    }

    /// The wrapped component.
    pub fn inner(&self) -> (i: &I)
        ensures
            *i == self.inner_spec(),
    {
        &self.inner
    }

    /// Whether, at time `now`, the time-to-live has passed.
    pub fn is_expired(&self, now: i64) -> (b: bool)
        ensures
            b == expired(now, self.asked_spec(), self.ttl_spec()),
    {
        (now as i128) - (self.last_cache_update as i128) > (self.ttl as i128)
    }
}

impl<I: Table> Table for Clock<I> {
    /// A clock is well formed where the wrapped component is.
    open spec fn inv(&self) -> bool {
        self.inner_spec().inv()
    }
}

/// What a look at the version at time `now` does. Within the time-to-live
/// nothing changes and the version reported last is reported again. After it,
/// the wrapped component is asked once, and what it reports is kept together
/// with the time.
pub open spec fn ticked<I: TableVersion>(before: Clock<I>, now: i64, after: Clock<I>, version: u64) -> bool {
    if expired(now, before.asked_spec(), before.ttl_spec()) {
        before.inner_spec().versioned(&after.inner_spec(), version) && after.cached_spec()
            == version && after.asked_spec() == now && after.ttl_spec() == before.ttl_spec()
    } else {
        after == before && version == before.cached_spec()
    }
}

/// What a look at the version at time `now` that fails with `error` does:
/// the time-to-live has passed, the wrapped component was asked and failed
/// with that error, and the version reported last and its time are kept.
pub open spec fn stopped<I: TableVersion>(
    before: Clock<I>,
    now: i64,
    after: Clock<I>,
    error: I::Error,
) -> bool {
    expired(now, before.asked_spec(), before.ttl_spec()) && before.inner_spec().version_fails(
        &after.inner_spec(),
        &error,
    ) && same_clock(before, after)
}

impl<I: TableVersion> Clock<I> {
    /// The version at time `now`: the one reported last while the
    /// time-to-live has not passed, else what the wrapped component reports
    /// now. Where the wrapped component fails, the version reported last and
    /// its time are kept.
    pub fn version_at(&mut self, gen: &mut VersionGen, now: i64) -> (r: Result<u64, I::Error>)
        requires
            old(self).inv(),
        ensures
            final(self).inv(),
            final(self).ttl_spec() == old(self).ttl_spec(),
            !expired(now, old(self).asked_spec(), old(self).ttl_spec()) ==> r is Ok && *final(gen)
                == *old(gen),
            match r {
                Ok(v) => ticked(*old(self), now, *final(self), v),
                Err(e) => stopped(*old(self), now, *final(self), e),
            },
    {
        if self.is_expired(now) {
            match self.inner.version(gen) {
                Ok(v) => {
                    self.cached_version = v;
                    self.last_cache_update = now;
                },
                Err(e) => {
                    return Err(e);
                },
            }
        }
        Ok(self.cached_version)
    }
}

/// Throttling. Of two looks at the version that lie no further apart than the
/// time-to-live, at most one asks the wrapped component; and a look after the
/// time-to-live has passed asks it exactly once.
pub proof fn lemma_clock_throttles<I: TableVersion>(
    start: Clock<I>,
    first: i64,
    between: Clock<I>,
    v1: u64,
    second: i64,
)
    requires
        ticked(start, first, between, v1),
        second - first <= start.ttl_spec(),
    ensures
        start.asks(first) + between.asks(second) <= 1,
        expired(second, between.asked_spec(), between.ttl_spec()) ==> between.asks(second) == 1,
{
}

/// Within the time-to-live a second look reports what the first reported and
/// leaves the wrapped component as it is.
pub proof fn lemma_clock_repeats<I: TableVersion>(
    start: Clock<I>,
    first: i64,
    between: Clock<I>,
    v1: u64,
    second: i64,
    end: Clock<I>,
    v2: u64,
)
    requires
        ticked(start, first, between, v1),
        ticked(between, second, end, v2),
        !expired(second, between.asked_spec(), between.ttl_spec()),
    ensures
        v2 == v1,
        end.inner_spec() == between.inner_spec(),
{
}

impl<I: TableVersion> TableVersion for Clock<I> {
    type Error = I::Error;

    /// A look at the version is a look at some time.
    open spec fn versioned(&self, after: &Self, version: u64) -> bool {
        exists|now: i64| #[trigger] ticked(*self, now, *after, version)
    }

    /// A look at the version fails where, at the time of the look, the
    /// time-to-live has passed and the wrapped component fails.
    open spec fn version_fails(&self, after: &Self, error: &I::Error) -> bool {
        exists|now: i64| #[trigger] stopped(*self, now, *after, *error)
    }

    /// The version at the time that the machine's clock tells. Whether it
    /// fails or not, the time-to-live stays as it is.
    fn version(&mut self, gen: &mut VersionGen) -> (r: Result<u64, I::Error>)
        ensures
            final(self).ttl_spec() == old(self).ttl_spec(),
    {
        let now: i64 = utc_now_millis();
        let r = self.version_at(gen, now);
        proof {
            if r is Ok {
                assert(ticked(*old(self), now, *self, r->Ok_0));
            } else {
                assert(stopped(*old(self), now, *self, r->Err_0));
            }
        }
        r
    }
}

/// Whether two clocks differ in nothing but the wrapped component.
pub open spec fn same_clock<I>(a: Clock<I>, b: Clock<I>) -> bool {
    a.ttl_spec() == b.ttl_spec() && a.cached_spec() == b.cached_spec() && a.asked_spec()
        == b.asked_spec()
}

impl<E, I: TableFetch<E>> TableFetch<E> for Clock<I> {
    type Error = I::Error;

    open spec fn refreshed(&self, after: &Self) -> bool {
        self.inner_spec().refreshed(&after.inner_spec()) && same_clock(*self, *after)
    }

    open spec fn fetched(&self, after: &Self, rows: &Vec<E>) -> bool {
        self.inner_spec().fetched(&after.inner_spec(), rows) && same_clock(*self, *after)
    }

    /// A refresh fails as that of the wrapped component does.
    open spec fn refresh_fails(&self, after: &Self, error: &I::Error) -> bool {
        self.inner_spec().refresh_fails(&after.inner_spec(), error) && same_clock(*self, *after)
    }

    /// A fetch fails as that of the wrapped component does.
    open spec fn fetch_fails(&self, after: &Self, error: &I::Error) -> bool {
        self.inner_spec().fetch_fails(&after.inner_spec(), error) && same_clock(*self, *after)
    }

    fn fetch(&mut self, gen: &mut VersionGen) -> (r: Result<Vec<E>, I::Error>)
        ensures
            same_clock(*old(self), *final(self)),
    {
        self.inner.fetch(gen)
    }

    fn refresh(&mut self, gen: &mut VersionGen) -> (r: Result<(), I::Error>)
        ensures
            same_clock(*old(self), *final(self)),
    {
        self.inner.refresh(gen)
    }
}

impl<E, I: TableRead<E>> TableRead<E> for Clock<I> {
    type Error = I::Error;

    open spec fn reads(&self, rows: &Vec<&E>) -> bool {
        self.inner_spec().reads(rows)
    }

    /// Reading fails as that of the wrapped component does.
    open spec fn read_fails(&self, error: &I::Error) -> bool {
        self.inner_spec().read_fails(error)
    }

    fn read(&self) -> (r: Result<Vec<&E>, I::Error>) {
        self.inner.read()
    }
}

impl<E: Clone, I: TableUpdate<E>> TableUpdate<E> for Clock<I> {
    type Ok = I::Ok;

    type Error = I::Error;

    open spec fn updated(&self, from_row: usize, entries: &Vec<E>, after: &Self) -> bool {
        self.inner_spec().updated(from_row, entries, &after.inner_spec()) && same_clock(
            *self,
            *after,
        )
    }

    /// The acknowledgment of a write is that of the wrapped component.
    open spec fn update_acknowledges(
        &self,
        from_row: usize,
        entries: &Vec<E>,
        after: &Self,
        ok: &I::Ok,
    ) -> bool {
        self.inner_spec().update_acknowledges(from_row, entries, &after.inner_spec(), ok)
    }

    /// A write fails as that of the wrapped component does, given the same
    /// row and entries.
    open spec fn update_fails(
        &self,
        from_row: usize,
        entries: &Vec<E>,
        after: &Self,
        error: &I::Error,
    ) -> bool {
        self.inner_spec().update_fails(from_row, entries, &after.inner_spec(), error)
            && same_clock(*self, *after)
    }

    fn update(&mut self, gen: &mut VersionGen, from_row: usize, entries: &Vec<E>) -> (r: Result<
        I::Ok,
        I::Error,
    >)
        ensures
            same_clock(*old(self), *final(self)),
    {
        let r = self.inner.update(gen, from_row, entries);
        proof {
            if r is Ok {
                let copies = choose|copies: Vec<E>| #[trigger]
                    crate::are_clones(entries@, copies@) && old(self).inner_spec().updated(
                        from_row,
                        &copies,
                        &self.inner_spec(),
                    );
                assert(crate::are_clones(entries@, copies@) && old(self).updated(
                    from_row,
                    &copies,
                    self,
                ));
            }
        }
        r
    }
}

impl<E: Clone, I: TableExtend<E>> TableExtend<E> for Clock<I> {
    type Ok = I::Ok;

    type Error = I::Error;

    open spec fn extended(&self, entries: &Vec<E>, after: &Self) -> bool {
        self.inner_spec().extended(entries, &after.inner_spec()) && same_clock(*self, *after)
    }

    /// The acknowledgment of an append is that of the wrapped component.
    open spec fn extend_acknowledges(&self, entries: &Vec<E>, after: &Self, ok: &I::Ok) -> bool {
        self.inner_spec().extend_acknowledges(entries, &after.inner_spec(), ok)
    }

    /// An append fails as that of the wrapped component does, given the same
    /// entries.
    open spec fn extend_fails(&self, entries: &Vec<E>, after: &Self, error: &I::Error) -> bool {
        self.inner_spec().extend_fails(entries, &after.inner_spec(), error) && same_clock(
            *self,
            *after,
        )
    }

    fn extend(&mut self, gen: &mut VersionGen, entries: &Vec<E>) -> (r: Result<I::Ok, I::Error>)
        ensures
            same_clock(*old(self), *final(self)),
    {
        let r = self.inner.extend(gen, entries);
        proof {
            if r is Ok {
                let copies = choose|copies: Vec<E>| #[trigger]
                    crate::are_clones(entries@, copies@) && old(self).inner_spec().extended(
                        &copies,
                        &self.inner_spec(),
                    );
                assert(crate::are_clones(entries@, copies@) && old(self).extended(&copies, self));
            }
        }
        r
    }
}

impl<I: TableClear> TableClear for Clock<I> {
    type Error = I::Error;

    open spec fn cleared(&self) -> bool {
        self.inner_spec().cleared()
    }

    /// Emptying fails as that of the wrapped component does.
    open spec fn clear_fails(&self, after: &Self, error: &I::Error) -> bool {
        self.inner_spec().clear_fails(&after.inner_spec(), error) && same_clock(*self, *after)
    }

    fn clear(&mut self) -> (r: Result<(), I::Error>)
        ensures
            same_clock(*old(self), *final(self)),
    {
        self.inner.clear()
    }
}

} // verus!
