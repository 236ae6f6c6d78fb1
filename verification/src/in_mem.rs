//! The in-memory table: a sparse, position-addressed collection of records.

use crate::version::{bumped, next_version, stamped, version_after, VersionGen};
use crate::{are_clones, clone_all, refers_to, Table, TableClear, TableExtend, TableFetch, TableRead, TableUpdate, TableVersion};
use core::convert::Infallible;
use vstd::prelude::*;

verus! {

/// Read mode: records are handed out as clones.
pub struct ReadClone;

/// Read mode: records are handed out by reference.
pub struct ReadRef;

/// A table in memory. Each row holds a record or is empty; the version
/// changes with every write.
pub struct InMemTable<E, M = ReadRef> {
    rows: Vec<Option<E>>,
    version: u64,
    _marker: core::marker::PhantomData<M>,
}

/// The rows with a record in each.
pub open spec fn filled<E>(entries: Seq<E>) -> Seq<Option<E>> {
    Seq::new(entries.len(), |i: int| Some(entries[i]))
}

/// The records of the rows that hold one, in the order of the rows.
pub open spec fn present<E>(rows: Seq<Option<E>>) -> Seq<E>
    decreases rows.len(),
{
    if rows.len() == 0 {
        Seq::empty()
    } else {
        match rows.last() {
            Some(e) => present(rows.drop_last()).push(e),
            None => present(rows.drop_last()),
        }
    }
}

/// The rows after `entries` were written at the rows from `from_row` on: the
/// table grows by empty rows where it is too short, and rows outside the
/// written stretch keep what they hold.
pub open spec fn overwritten<E>(rows: Seq<Option<E>>, from_row: int, entries: Seq<E>) -> Seq<
    Option<E>,
> {
    Seq::new(
        if entries.len() > 0 && from_row + entries.len() > rows.len() {
            (from_row + entries.len()) as nat
        } else {
            rows.len()
        },
        |i: int|
            if from_row <= i < from_row + entries.len() {
                Some(entries[i - from_row])
            } else if i < rows.len() {
                rows[i]
            } else {
                None
            },
    )
}

/// `present` of rows that all hold a record gives the records.
pub proof fn lemma_present_filled<E>(entries: Seq<E>)
    ensures
        present(filled(entries)) == entries,
    decreases entries.len(),
{
    if entries.len() == 0 {
        assert(present(filled(entries)) =~= entries);
    } else {
        assert(filled(entries).drop_last() =~= filled(entries.drop_last()));
        lemma_present_filled(entries.drop_last());
        assert(present(filled(entries)) =~= entries);
    }
}

/// Writing over every row from the first on, and no further, leaves exactly
/// what was written.
pub proof fn lemma_overwritten_whole<E>(rows: Seq<Option<E>>, entries: Seq<E>)
    requires
        rows.len() <= entries.len(),
        entries.len() > 0,
    ensures
        overwritten(rows, 0, entries) == filled(entries),
        present(overwritten(rows, 0, entries)) == entries,
{
    assert(overwritten(rows, 0, entries) =~= filled(entries));
    lemma_present_filled(entries);
}

impl<E, M> View for InMemTable<E, M> {
    type V = Seq<Option<E>>;

    /// The rows of the table: each holds a record or is empty.
    closed spec fn view(&self) -> Seq<Option<E>> {
        self.rows@
    }
}

impl<E, M> InMemTable<E, M> {
    /// The rows of the table.
    pub fn rows(&self) -> (rows: &Vec<Option<E>>)
        ensures
            rows@ == self@,
    {
        &self.rows
    }

    /// The version of the table.
    pub closed spec fn version_spec(&self) -> u64 {
        self.version
    }

    /// Whether the table's version was handed out by `gen` already, so that
    /// the next one that `gen` hands out is larger.
    pub open spec fn issued_by(&self, gen: &VersionGen) -> bool {
        self.version_spec() < gen.peek()
    }

    /// Takes a new version: the one that the generator hands out, or, where
    /// that is not larger than the table's own, the one after its own.
    fn stamp(&mut self, gen: &mut VersionGen)
        ensures
            final(self)@ == old(self)@,
            final(self).version_spec() == stamped(old(self).version_spec(), old(gen).peek()),
            final(gen).peek() == bumped(old(gen).peek()),
    {
        self.version = version_after(gen, self.version);
    }

    /// A table that holds the given records, one in each row from the first on.
    pub fn new(gen: &mut VersionGen, rows: Vec<E>) -> (table: Self)
        ensures
            table@ == filled(rows@),
            table.version_spec() == old(gen).peek(),
            final(gen).peek() == bumped(old(gen).peek()),
            old(gen).peek() < u64::MAX ==> table.issued_by(final(gen)),
    {
        let mut table: InMemTable<E, M> = InMemTable {
            rows: Vec::new(),
            version: 0,
            _marker: core::marker::PhantomData,
        };
        table.append(rows);
        assert(table@ =~= filled(rows@));
        table.version = next_version(gen);
        table
    }

    /// Appends the records to the rows, and leaves the version alone.
    fn append(&mut self, entries: Vec<E>)
        ensures
            final(self)@ == old(self)@ + filled(entries@),
            final(self).version_spec() == old(self).version_spec(),
    {
        let ghost all = entries@;
        for entry in it: entries
            invariant
                it.seq() == all,
                self.rows@ == old(self).rows@ + filled(all.take(it.index() as int)),
                self.version_spec() == old(self).version_spec(),
        {
            self.rows.push(Some(entry));
            assert(self.rows@ =~= old(self).rows@ + filled(all.take(it.index() + 1)));
        }
        assert(all.take(all.len() as int) =~= all);
    }

    /// Appends the records as new rows and takes a new version, which is
    /// larger than the one before.
    pub fn _extend(&mut self, gen: &mut VersionGen, entries: Vec<E>)
        ensures
            final(self)@ == old(self)@ + filled(entries@),
            final(self).version_spec() == stamped(old(self).version_spec(), old(gen).peek()),
            final(gen).peek() == bumped(old(gen).peek()),
            old(self).version_spec() < u64::MAX ==> final(self).version_spec() > old(
                self,
            ).version_spec(),
            old(self).issued_by(old(gen)) && old(gen).peek() < u64::MAX ==> final(self).issued_by(
                final(gen),
            ),
    {
        self.append(entries);
        self.stamp(gen);
    }

    /// Writes the records at the rows from `from_row` on, growing the table by
    /// empty rows where it is too short, and takes a new version.
    pub fn _update(&mut self, gen: &mut VersionGen, from_row: usize, entries: Vec<E>)
        requires
            from_row + entries@.len() <= usize::MAX,
        ensures
            final(self)@ == overwritten(old(self)@, from_row as int, entries@),
            final(self).version_spec() == stamped(old(self).version_spec(), old(gen).peek()),
            final(gen).peek() == bumped(old(gen).peek()),
            old(self).version_spec() < u64::MAX ==> final(self).version_spec() > old(
                self,
            ).version_spec(),
            old(self).issued_by(old(gen)) && old(gen).peek() < u64::MAX ==> final(self).issued_by(
                final(gen),
            ),
    {
        let ghost all = entries@;
        let mut idx: usize = from_row;
        for entry in it: entries
            invariant
                it.seq() == all,
                from_row + all.len() <= usize::MAX,
                idx == from_row + it.index(),
                self.rows@ == overwritten(
                    old(self).rows@,
                    from_row as int,
                    all.take(it.index() as int),
                ),
                self.version_spec() == old(self).version_spec(),
        {
            let ghost k = it.index() as int;
            let ghost before = self.rows@;
            while self.rows.len() <= idx
                invariant
                    self.rows@.len() >= before.len(),
                    self.rows@.len() == before.len() || self.rows@.len() <= idx + 1,
                    self.rows@.take(before.len() as int) == before,
                    forall|j: int| before.len() <= j < self.rows@.len() ==> self.rows@[j] is None,
                    self.version_spec() == old(self).version_spec(),
                decreases idx + 1 - self.rows.len(),
            {
                self.rows.push(None);
            }
            let ghost grown = self.rows@;
            self.rows[idx] = Some(entry);
            proof {
                let target = overwritten(old(self).rows@, from_row as int, all.take(k + 1));
                assert(self.rows@.len() == target.len());
                assert forall|j: int| 0 <= j < target.len() implies self.rows@[j] == target[j] by {
                    if j == idx {
                    } else if j < before.len() {
                        assert(grown.take(before.len() as int)[j] == grown[j]);
                    } else {
                        assert(grown[j] is None);
                    }
                }
                assert(self.rows@ =~= target);
            }
            idx += 1;
        }
        assert(all.take(all.len() as int) =~= all);
        self.stamp(gen);
    }

    /// Empties the table and puts its version back to zero.
    pub fn _clear(&mut self)
        ensures
            final(self)@ == Seq::<Option<E>>::empty(),
            final(self).version_spec() == 0,
    {
        self.rows.clear();
        self.version = 0;
    }

    /// The version of the table. Reading it changes nothing.
    pub fn current_version(&self) -> (v: u64)
        ensures
            v == self.version_spec(),
    {
        self.version
    }

    /// The records of the rows that hold one, by reference, in the order of
    /// the rows.
    pub fn read_refs(&self) -> (records: Vec<&E>)
        ensures
            refers_to(records@, present(self@)),
    {
        let mut records: Vec<&E> = Vec::new();
        let mut i: usize = 0;
        while i < self.rows.len()
            invariant
                0 <= i <= self.rows.len(),
                records@.len() == present(self.rows@.take(i as int)).len(),
                forall|j: int|
                    0 <= j < records@.len() ==> *(#[trigger] records@[j]) == present(
                        self.rows@.take(i as int),
                    )[j],
            decreases self.rows.len() - i,
        {
            proof {
                assert(self.rows@.take(i as int + 1).drop_last() =~= self.rows@.take(i as int));
            }
            match &self.rows[i] {
                Some(e) => {
                    records.push(e);
                },
                None => {},
            }
            i += 1;
        }
        proof {
            assert(self.rows@.take(i as int) =~= self.rows@);
        }
        records
    }
}

impl<E: Clone, M> InMemTable<E, M> {
    /// Clones of the records of the rows that hold one, in the order of the
    /// rows.
    pub fn read_clones(&self) -> (records: Vec<E>)
        ensures
            are_clones(present(self@), records@),
    {
        let refs: Vec<&E> = self.read_refs();
        let mut records: Vec<E> = Vec::new();
        let mut i: usize = 0;
        while i < refs.len()
            invariant
                0 <= i <= refs.len(),
                refs@.len() == present(self@).len(),
                forall|j: int|
                    0 <= j < refs@.len() ==> *(#[trigger] refs@[j]) == present(self@)[j],
                records@.len() == i,
                forall|j: int| 0 <= j < i ==> cloned(#[trigger] present(self@)[j], records@[j]),
            decreases refs.len() - i,
        {
            let r: &E = refs[i];
            let copy: E = r.clone();
            records.push(copy);
            i += 1;
        }
        records
    }
}

impl<E, M> Table for InMemTable<E, M> {
    /// A table in memory is always well formed.
    open spec fn inv(&self) -> bool {
        true
    }
}

impl<E> InMemTable<E, ReadRef> {
    /// The records of the rows that hold one, by reference, in the order of
    /// the rows. A table in memory has nothing to refresh, so this is a read.
    pub fn fetch(&mut self, gen: &mut VersionGen) -> (r: Result<Vec<&E>, Infallible>)
        ensures
            *final(self) == *old(self),
            *final(gen) == *old(gen),
            r matches Ok(records) && refers_to(records@, present(old(self)@)),
    {
        Ok(self.read_refs())
    }
}

/// A table in memory is read by reference whatever its read mode, so that
/// any of them can serve as a mirror; the mode decides what a fetch hands out.
impl<E, M> TableRead<E> for InMemTable<E, M> {
    type Error = Infallible;

    open spec fn reads(&self, rows: &Vec<&E>) -> bool {
        refers_to(rows@, present(self@))
    }

    /// Reading a table in memory never fails.
    open spec fn read_fails(&self, error: &Infallible) -> bool {
        false
    }

    fn read(&self) -> (r: Result<Vec<&E>, Infallible>)
        ensures
            r is Ok,
    {
        Ok(self.read_refs())
    }
}

impl<E: Clone> TableFetch<E> for InMemTable<E, ReadClone> {
    type Error = Infallible;

    /// A refresh leaves the table as it is.
    open spec fn refreshed(&self, after: &Self) -> bool {
        *after == *self
    }

    /// A fetch leaves the table as it is and hands out clones of its records.
    open spec fn fetched(&self, after: &Self, rows: &Vec<E>) -> bool {
        *after == *self && are_clones(present(self@), rows@)
    }

    /// A refresh of a table in memory never fails.
    open spec fn refresh_fails(&self, after: &Self, error: &Infallible) -> bool {
        false
    }

    /// A fetch from a table in memory never fails.
    open spec fn fetch_fails(&self, after: &Self, error: &Infallible) -> bool {
        false
    }

    fn fetch(&mut self, gen: &mut VersionGen) -> (r: Result<Vec<E>, Infallible>)
        ensures
            r is Ok,
            *final(gen) == *old(gen),
    {
        Ok(self.read_clones())
    }

    fn refresh(&mut self, gen: &mut VersionGen) -> (r: Result<(), Infallible>)
        ensures
            r is Ok,
            *final(gen) == *old(gen),
    {
        Ok(())
    }
}

impl<E: Clone, M> TableExtend<E> for InMemTable<E, M> {
    type Ok = ();

    type Error = Infallible;

    open spec fn extended(&self, entries: &Vec<E>, after: &Self) -> bool {
        after@ == self@ + filled(entries@)
    }

    /// The acknowledgment of an append says nothing.
    open spec fn extend_acknowledges(&self, entries: &Vec<E>, after: &Self, ok: &()) -> bool {
        true
    }

    /// An append to a table in memory never fails.
    open spec fn extend_fails(&self, entries: &Vec<E>, after: &Self, error: &Infallible) -> bool {
        false
    }

    fn extend(&mut self, gen: &mut VersionGen, entries: &Vec<E>) -> (r: Result<(), Infallible>)
        ensures
            r is Ok,
            final(self).version_spec() == stamped(old(self).version_spec(), old(gen).peek()),
            final(gen).peek() == bumped(old(gen).peek()),
    {
        let copies: Vec<E> = clone_all(entries);
        let ghost witness: Vec<E> = copies;
        self._extend(gen, copies);
        assert(are_clones(entries@, witness@) && old(self).extended(&witness, self));
        Ok(())
    }

    fn extend_owned(&mut self, gen: &mut VersionGen, entries: Vec<E>) -> (r: Result<
        (),
        Infallible,
    >)
        ensures
            r is Ok,
            final(self)@ == old(self)@ + filled(entries@),
            final(self).version_spec() == stamped(old(self).version_spec(), old(gen).peek()),
            final(gen).peek() == bumped(old(gen).peek()),
    {
        let ghost given: Vec<E> = entries;
        self._extend(gen, entries);
        assert(are_clones(given@, given@) && old(self).extended(&given, self));
        Ok(())
    }
}

impl<E: Clone, M> TableUpdate<E> for InMemTable<E, M> {
    type Ok = ();

    type Error = Infallible;

    open spec fn updated(&self, from_row: usize, entries: &Vec<E>, after: &Self) -> bool {
        after@ == overwritten(self@, from_row as int, entries@)
    }

    /// The acknowledgment of a write says nothing.
    open spec fn update_acknowledges(
        &self,
        from_row: usize,
        entries: &Vec<E>,
        after: &Self,
        ok: &(),
    ) -> bool {
        true
    }

    /// A write to a table in memory never fails.
    open spec fn update_fails(
        &self,
        from_row: usize,
        entries: &Vec<E>,
        after: &Self,
        error: &Infallible,
    ) -> bool {
        false
    }

    fn update(&mut self, gen: &mut VersionGen, from_row: usize, entries: &Vec<E>) -> (r: Result<
        (),
        Infallible,
    >)
        ensures
            r is Ok,
            final(self).version_spec() == stamped(old(self).version_spec(), old(gen).peek()),
            final(gen).peek() == bumped(old(gen).peek()),
    {
        let copies: Vec<E> = clone_all(entries);
        let ghost witness: Vec<E> = copies;
        self._update(gen, from_row, copies);
        assert(are_clones(entries@, witness@) && old(self).updated(from_row, &witness, self));
        Ok(())
    }

    fn update_owned(&mut self, gen: &mut VersionGen, from_row: usize, entries: Vec<E>) -> (r:
        Result<(), Infallible>)
        ensures
            r is Ok,
            final(self)@ == overwritten(old(self)@, from_row as int, entries@),
            final(self).version_spec() == stamped(old(self).version_spec(), old(gen).peek()),
            final(gen).peek() == bumped(old(gen).peek()),
    {
        let ghost given: Vec<E> = entries;
        self._update(gen, from_row, entries);
        assert(are_clones(given@, given@) && old(self).updated(from_row, &given, self));
        Ok(())
    }
}

impl<E, M> TableClear for InMemTable<E, M> {
    type Error = Infallible;

    open spec fn cleared(&self) -> bool {
        self@ == Seq::<Option<E>>::empty() && self.version_spec() == 0
    }

    /// Emptying a table in memory never fails.
    open spec fn clear_fails(&self, after: &Self, error: &Infallible) -> bool {
        false
    }

    fn clear(&mut self) -> (r: Result<(), Infallible>)
        ensures
            r is Ok,
    {
        self._clear();
        Ok(())
    }
}

impl<E, M> TableVersion for InMemTable<E, M> {
    type Error = Infallible;

    /// A look at the version changes nothing.
    open spec fn versioned(&self, after: &Self, version: u64) -> bool {
        *after == *self && version == self.version_spec()
    }

    /// A look at the version of a table in memory never fails.
    open spec fn version_fails(&self, after: &Self, error: &Infallible) -> bool {
        false
    }

    fn version(&mut self, gen: &mut VersionGen) -> (r: Result<u64, Infallible>)
        ensures
            r is Ok,
            *final(gen) == *old(gen),
    {
        Ok(self.version)
    }
}

} // verus!
