//! The secondary index: for each key, the rows whose records have that key.
//!
//! The key of a record is computed by a function that the index is made
//! with; what is kept per row is a value made from the record. Within a key
//! the rows stay in the order in which they came.

use crate::version::VersionGen;
use crate::{are_clones, clone_all, Table, TableClear, TableExtend, TableUpdate};
use core::convert::Infallible;
use core::marker::PhantomData;
use std::collections::HashMap;
use std::hash::Hash;
use vstd::prelude::*;
use vstd::std_specs::hash::*;
use vstd::std_specs::iter::IteratorSpec;

verus! {

broadcast use group_hash_axioms;

/// A keyed index over records of type `E`, with a value of type `V` per row.
/// Keys are computed by a function of type `F`, and the value kept for a
/// record is made by a function of type `G`: the record itself, or a lighter
/// projection of it.
pub struct Index<K, E, V, F, G> {
    map: HashMap<K, Vec<(usize, V)>>,
    get_key: F,
    project: G,
    taken: usize,
    _marker: PhantomData<E>,
}

/// Why an index refused records.
#[derive(Debug)]
pub enum Error {
    /// The rows that the index has taken and the ones handed in are more
    /// than there are row positions.
    RowsExhausted,
}

impl Error {
    /// The message of this error, as a character sequence.
    pub open spec fn message(&self) -> Seq<char> {
        "the index has no row position left"@
    }

    /// The message of this error.
    pub fn to_string(&self) -> (s: String)
        ensures
            s@ == self.message(),
    {
        "the index has no row position left".to_owned()
    }
}

/// The key that `f` computes for a record at a row.
pub open spec fn key_of<K, E, F: Fn(usize, &E) -> K>(f: F, row: usize, entry: E) -> K {
    choose|k: K| call_ensures(f, (row, &entry), k)
}

/// Whether `f` can be used as a key function: it takes every record at every
/// row, and gives one key for each.
pub open spec fn is_key_fn<K, E, F: Fn(usize, &E) -> K>(f: F) -> bool {
    &&& forall|row: usize, entry: E| call_requires(f, (row, &entry))
    &&& forall|row: usize, entry: E, k: K| #[trigger]
        call_ensures(f, (row, &entry), k) ==> k == key_of(f, row, entry)
}

/// The value that `g` makes from a record.
pub open spec fn value_of<E, V, G: Fn(E) -> V>(g: G, entry: E) -> V {
    choose|v: V| call_ensures(g, (entry,), v)
}

/// Whether `g` can be used to make values: it takes every record, and makes
/// one value from each.
pub open spec fn is_value_fn<E, V, G: Fn(E) -> V>(g: G) -> bool {
    &&& forall|entry: E| call_requires(g, (entry,))
    &&& forall|entry: E, v: V| #[trigger]
        call_ensures(g, (entry,), v) ==> v == value_of(g, entry)
}

/// Whether, for a record at a row, the key and the value that the contracts
/// speak of are the ones that the two functions give.
pub open spec fn derived_at<K, E, V, F: Fn(usize, &E) -> K, G: Fn(E) -> V>(
    f: F,
    g: G,
    row: usize,
    entry: E,
) -> bool {
    call_ensures(f, (row, &entry), key_of(f, row, entry)) && call_ensures(
        g,
        (entry,),
        value_of(g, entry),
    )
}

/// Whether `derived_at` holds of each of `entries`, taken as the rows from
/// `from_row` on.
pub open spec fn derived<K, E, V, F: Fn(usize, &E) -> K, G: Fn(E) -> V>(
    f: F,
    g: G,
    from_row: usize,
    entries: Seq<E>,
) -> bool {
    forall|i: int|
        0 <= i < entries.len() ==> derived_at::<K, E, V, F, G>(
            f,
            g,
            (from_row + i) as usize,
            #[trigger] entries[i],
        )
}

/// The bucket of a key: its rows with their values, empty for a missing key.
pub open spec fn bucket_of<K, V>(buckets: Map<K, Seq<(usize, V)>>, key: K) -> Seq<(usize, V)> {
    if buckets.contains_key(key) {
        buckets[key]
    } else {
        Seq::empty()
    }
}

/// The first position in a bucket that holds the given row, if any.
pub open spec fn is_first_at<V>(bucket: Seq<(usize, V)>, row: usize, at: int) -> bool {
    &&& 0 <= at < bucket.len()
    &&& bucket[at].0 == row
    &&& forall|j: int| 0 <= j < at ==> (#[trigger] bucket[j]).0 != row
}

/// The bucket after `row` was put in with `value`: the first entry of that
/// row gets the value, and where there is none the row comes last.
pub open spec fn put<V>(bucket: Seq<(usize, V)>, row: usize, value: V) -> Seq<(usize, V)> {
    if exists|at: int| is_first_at(bucket, row, at) {
        bucket.update(choose|at: int| is_first_at(bucket, row, at), (row, value))
    } else {
        bucket.push((row, value))
    }
}

/// Whether no bucket is empty.
pub open spec fn all_filled<K, V>(buckets: Map<K, Seq<(usize, V)>>) -> bool {
    forall|k: K| buckets.contains_key(k) ==> (#[trigger] buckets[k]).len() > 0
}

/// The row after the last one that an index has taken, once `entries` were
/// written at the rows from `from_row` on.
pub open spec fn taken_after(taken: usize, from_row: usize, entries: nat) -> int {
    if entries > 0 && from_row + entries > taken {
        from_row + entries
    } else {
        taken as int
    }
}

/// The buckets after the records were appended to an index that had taken
/// the rows before `from_row`: the record at position `i` of `entries` is
/// row `from_row + i`, and comes last in the bucket of its key.
pub open spec fn appended<K, E, V, F: Fn(usize, &E) -> K, G: Fn(E) -> V>(
    f: F,
    g: G,
    buckets: Map<K, Seq<(usize, V)>>,
    from_row: usize,
    entries: Seq<E>,
) -> Map<K, Seq<(usize, V)>>
    decreases entries.len(),
{
    if entries.len() == 0 {
        buckets
    } else {
        let before = appended::<K, E, V, F, G>(f, g, buckets, from_row, entries.drop_last());
        let row = (from_row + entries.len() - 1) as usize;
        let key = key_of(f, row, entries.last());
        before.insert(key, bucket_of(before, key).push((row, value_of(g, entries.last()))))
    }
}

/// The buckets after the records were written at the rows from `from_row`
/// on: the record at position `i` of `entries` is row `from_row + i`, and is
/// put into the bucket of its key.
pub open spec fn rewritten<K, E, V, F: Fn(usize, &E) -> K, G: Fn(E) -> V>(
    f: F,
    g: G,
    buckets: Map<K, Seq<(usize, V)>>,
    from_row: usize,
    entries: Seq<E>,
) -> Map<K, Seq<(usize, V)>>
    decreases entries.len(),
{
    if entries.len() == 0 {
        buckets
    } else {
        let before = rewritten::<K, E, V, F, G>(f, g, buckets, from_row, entries.drop_last());
        let row = (from_row + entries.len() - 1) as usize;
        let key = key_of(f, row, entries.last());
        before.insert(key, put(bucket_of(before, key), row, value_of(g, entries.last())))
    }
}

/// `appended`, one record at a time: no records leave the buckets as they
/// are, and the last record comes last in the bucket of its key. This is the
/// definition, stated for functions of any type.
pub proof fn lemma_appended_unfolds<K, E, V, F: Fn(usize, &E) -> K, G: Fn(E) -> V>(
    f: F,
    g: G,
    buckets: Map<K, Seq<(usize, V)>>,
    from_row: usize,
    entries: Seq<E>,
)
    ensures
        entries.len() == 0 ==> appended::<K, E, V, F, G>(f, g, buckets, from_row, entries)
            == buckets,
        entries.len() > 0 ==> appended::<K, E, V, F, G>(f, g, buckets, from_row, entries) == ({
            let before = appended::<K, E, V, F, G>(f, g, buckets, from_row, entries.drop_last());
            let row = (from_row + entries.len() - 1) as usize;
            let key = key_of(f, row, entries.last());
            before.insert(key, bucket_of(before, key).push((row, value_of(g, entries.last()))))
        }),
{
}

/// `rewritten`, one record at a time: no records leave the buckets as they
/// are, and the last record is put into the bucket of its key. This is the
/// definition, stated for functions of any type.
pub proof fn lemma_rewritten_unfolds<K, E, V, F: Fn(usize, &E) -> K, G: Fn(E) -> V>(
    f: F,
    g: G,
    buckets: Map<K, Seq<(usize, V)>>,
    from_row: usize,
    entries: Seq<E>,
)
    ensures
        entries.len() == 0 ==> rewritten::<K, E, V, F, G>(f, g, buckets, from_row, entries)
            == buckets,
        entries.len() > 0 ==> rewritten::<K, E, V, F, G>(f, g, buckets, from_row, entries) == ({
            let before = rewritten::<K, E, V, F, G>(f, g, buckets, from_row, entries.drop_last());
            let row = (from_row + entries.len() - 1) as usize;
            let key = key_of(f, row, entries.last());
            before.insert(key, put(bucket_of(before, key), row, value_of(g, entries.last())))
        }),
{
}

/// Puts a row with its value into a bucket.
fn put_in<V>(bucket: &mut Vec<(usize, V)>, row: usize, value: V)
    ensures
        final(bucket)@ == put(old(bucket)@, row, value),
{
    let mut i: usize = 0;
    while i < bucket.len()
        invariant
            0 <= i <= bucket.len(),
            bucket@ == old(bucket)@,
            forall|j: int| 0 <= j < i ==> (#[trigger] bucket@[j]).0 != row,
        decreases bucket.len() - i,
    {
        if bucket[i].0 == row {
            proof {
                assert(is_first_at(bucket@, row, i as int));
                let at = choose|at: int| is_first_at(bucket@, row, at);
                if at < i {
                    assert(bucket@[at].0 != row);
                } else if i < at {
                    assert(bucket@[i as int].0 != row);
                }
            }
            bucket[i] = (row, value);
            return ;
        }
        i += 1;
    }
    proof {
        assert forall|at: int| !is_first_at(bucket@, row, at) by {
            if is_first_at(bucket@, row, at) {
                assert(bucket@[at].0 != row);
            }
        }
    }
    bucket.push((row, value));
}

impl<K: Hash + Eq, E, V, F: Fn(usize, &E) -> K, G: Fn(E) -> V> Index<K, E, V, F, G> {
    /// The buckets of the index: for each key that has rows, its rows with
    /// their values, in the order in which they came.
    pub closed spec fn buckets(&self) -> Map<K, Seq<(usize, V)>> {
        Map::new(|k: K| self.map@.contains_key(k), |k: K| self.map@[k]@)
    }

    /// The key function of the index.
    pub closed spec fn key_fn(&self) -> F {
        self.get_key
    }

    /// The function that makes the values of the index.
    pub closed spec fn value_fn(&self) -> G {
        self.project
    }

    /// The row after the last one that the index has taken since it was made
    /// or emptied: the row that the next appended record gets.
    pub closed spec fn taken(&self) -> usize {
        self.taken
    }

    /// Whether the index is well formed: its keys can be hashed, its two
    /// functions can be used for what they are there for, and no bucket is
    /// empty.
    pub open spec fn wf(&self) -> bool {
        &&& obeys_key_model::<K>()
        &&& is_key_fn::<K, E, F>(self.key_fn())
        &&& is_value_fn::<E, V, G>(self.value_fn())
        &&& all_filled(self.buckets())
    }

    /// An index without rows, with `get_key` to compute keys and `project` to
    /// make the value that is kept for a record.
    pub fn new(get_key: F, project: G) -> (index: Self)
        ensures
            index.key_fn() == get_key,
            index.value_fn() == project,
            index.taken() == 0,
            obeys_key_model::<K>() ==> index.buckets() == Map::<K, Seq<(usize, V)>>::empty(),
    {
        let index = Index {
            map: HashMap::new(),
            get_key,
            project,
            taken: 0,
            _marker: PhantomData,
        };
        assert(index.buckets() =~= Map::<K, Seq<(usize, V)>>::empty());
        index
    }

    /// The rows of a key with their values, in the order in which they came;
    /// `None` for a key without rows.
    pub fn group(&self, key: &K) -> (r: Option<&Vec<(usize, V)>>)
        requires
            self.wf(),
        ensures
            match r {
                Some(rows) => self.buckets().contains_key(*key) && rows@ == self.buckets()[*key],
                None => !self.buckets().contains_key(*key),
            },
    {
        self.map.get(key)
    }

    /// The first row of a key with its value; `None` for a key without rows.
    pub fn get_with_row(&self, key: &K) -> (r: Option<&(usize, V)>)
        requires
            self.wf(),
        ensures
            match r {
                Some(first) => bucket_of(self.buckets(), *key).len() > 0 && *first == bucket_of(
                    self.buckets(),
                    *key,
                )[0],
                None => bucket_of(self.buckets(), *key).len() == 0,
            },
    {
        match self.map.get(key) {
            Some(rows) => {
                if rows.len() > 0 {
                    Some(&rows[0])
                } else {
                    None
                }
            },
            None => None,
        }
    }

    /// The value of the first row of a key; `None` for a key without rows.
    pub fn get(&self, key: &K) -> (r: Option<&V>)
        requires
            self.wf(),
        ensures
            match r {
                Some(value) => bucket_of(self.buckets(), *key).len() > 0 && *value == bucket_of(
                    self.buckets(),
                    *key,
                )[0].1,
                None => bucket_of(self.buckets(), *key).len() == 0,
            },
    {
        match self.get_with_row(key) {
            Some(first) => Some(&first.1),
            None => None,
        }
    }

    /// Appends the records after the rows that the index has taken: the
    /// record at position `i` of `entries` gets the row `taken + i`, and comes
    /// last in the bucket of its key. The rows must have positions.
    pub fn _extend(&mut self, entries: Vec<E>)
        requires
            old(self).wf(),
            old(self).taken() + entries@.len() <= usize::MAX,
        ensures
            final(self).wf(),
            final(self).key_fn() == old(self).key_fn(),
            final(self).value_fn() == old(self).value_fn(),
            final(self).taken() == old(self).taken() + entries@.len(),
            final(self).buckets() == appended::<K, E, V, F, G>(
                old(self).key_fn(),
                old(self).value_fn(),
                old(self).buckets(),
                old(self).taken(),
                entries@,
            ),
            derived::<K, E, V, F, G>(
                old(self).key_fn(),
                old(self).value_fn(),
                old(self).taken(),
                entries@,
            ),
    {
        let ghost all = entries@;
        let count: usize = entries.len();
        let first: usize = self.taken;
        let mut row: usize = first;
        for entry in it: entries
            invariant
                it.seq() == all,
                all.len() == count,
                first == old(self).taken(),
                first + count <= usize::MAX,
                row == first + it.index(),
                self.taken() == first,
                self.wf(),
                self.key_fn() == old(self).key_fn(),
                self.value_fn() == old(self).value_fn(),
                self.buckets() == appended::<K, E, V, F, G>(
                    old(self).key_fn(),
                    old(self).value_fn(),
                    old(self).buckets(),
                    first,
                    all.take(it.index() as int),
                ),
                derived::<K, E, V, F, G>(
                    old(self).key_fn(),
                    old(self).value_fn(),
                    first,
                    all.take(it.index() as int),
                ),
        {
            let ghost k = it.index() as int;
            let ghost before = self.buckets();
            proof {
                assert(all.take(k + 1).drop_last() =~= all.take(k));
                assert(all.take(k + 1).last() == entry);
            }
            let ghost record = entry;
            let key: K = (self.get_key)(row, &entry);
            let ghost made_key = key;
            let mut bucket: Vec<(usize, V)> = match self.map.remove(&key) {
                Some(b) => b,
                None => Vec::new(),
            };
            assert(bucket@ =~= bucket_of(before, key));
            let value: V = (self.project)(entry);
            let ghost made_value = value;
            bucket.push((row, value));
            self.map.insert(key, bucket);
            proof {
                assert(self.buckets() =~= before.insert(key, bucket@));
                assert forall|j: int| 0 <= j < k + 1 implies derived_at::<K, E, V, F, G>(
                    self.get_key,
                    self.project,
                    (first + j) as usize,
                    #[trigger] all.take(k + 1)[j],
                ) by {
                    if j < k {
                        assert(all.take(k)[j] == all.take(k + 1)[j]);
                    } else {
                        assert(all.take(k + 1)[j] == record);
                        assert(call_ensures(self.get_key, (row, &record), made_key));
                        assert(call_ensures(self.project, (record,), made_value));
                    }
                }
            }
            row = row + 1;
        }
        proof {
            assert(all.take(all.len() as int) =~= all);
        }
        self.taken = row;
    }

    /// Writes the records at the rows from `from_row` on: the record at
    /// position `i` of `entries` is row `from_row + i`. In the bucket of its
    /// key, the first entry of that row gets the new value; where the bucket
    /// has no entry of that row, the row comes last. Entries of the row in
    /// the buckets of other keys stay.
    pub fn _update(&mut self, from_row: usize, entries: Vec<E>)
        requires
            old(self).wf(),
            from_row + entries@.len() <= usize::MAX,
        ensures
            final(self).wf(),
            final(self).key_fn() == old(self).key_fn(),
            final(self).value_fn() == old(self).value_fn(),
            final(self).taken() == taken_after(old(self).taken(), from_row, entries@.len()),
            final(self).buckets() == rewritten::<K, E, V, F, G>(
                old(self).key_fn(),
                old(self).value_fn(),
                old(self).buckets(),
                from_row,
                entries@,
            ),
            derived::<K, E, V, F, G>(old(self).key_fn(), old(self).value_fn(), from_row, entries@),
    {
        let ghost all = entries@;
        let mut row: usize = from_row;
        for entry in it: entries
            invariant
                it.seq() == all,
                from_row + all.len() <= usize::MAX,
                row == from_row + it.index(),
                self.taken() == old(self).taken(),
                self.wf(),
                self.key_fn() == old(self).key_fn(),
                self.value_fn() == old(self).value_fn(),
                self.buckets() == rewritten::<K, E, V, F, G>(
                    old(self).key_fn(),
                    old(self).value_fn(),
                    old(self).buckets(),
                    from_row,
                    all.take(it.index() as int),
                ),
                derived::<K, E, V, F, G>(
                    old(self).key_fn(),
                    old(self).value_fn(),
                    from_row,
                    all.take(it.index() as int),
                ),
        {
            let ghost k = it.index() as int;
            let ghost before = self.buckets();
            proof {
                assert(all.take(k + 1).drop_last() =~= all.take(k));
                assert(all.take(k + 1).last() == entry);
            }
            let ghost record = entry;
            let key: K = (self.get_key)(row, &entry);
            let ghost made_key = key;
            let mut bucket: Vec<(usize, V)> = match self.map.remove(&key) {
                Some(b) => b,
                None => Vec::new(),
            };
            assert(bucket@ =~= bucket_of(before, key));
            let value: V = (self.project)(entry);
            let ghost made_value = value;
            put_in(&mut bucket, row, value);
            self.map.insert(key, bucket);
            proof {
                assert(self.buckets() =~= before.insert(key, bucket@));
                assert forall|j: int| 0 <= j < k + 1 implies derived_at::<K, E, V, F, G>(
                    self.get_key,
                    self.project,
                    (from_row + j) as usize,
                    #[trigger] all.take(k + 1)[j],
                ) by {
                    if j < k {
                        assert(all.take(k)[j] == all.take(k + 1)[j]);
                    } else {
                        assert(all.take(k + 1)[j] == record);
                        assert(call_ensures(self.get_key, (row, &record), made_key));
                        assert(call_ensures(self.project, (record,), made_value));
                    }
                }
            }
            row = row + 1;
        }
        proof {
            assert(all.take(all.len() as int) =~= all);
        }
        if row > from_row && row > self.taken {
            self.taken = row;
        }
    }

    /// Empties every bucket.
    pub fn _clear(&mut self)
        requires
            old(self).wf(),
        ensures
            final(self).wf(),
            final(self).key_fn() == old(self).key_fn(),
            final(self).value_fn() == old(self).value_fn(),
            final(self).taken() == 0,
            final(self).buckets() == Map::<K, Seq<(usize, V)>>::empty(),
    {
        self.taken = 0;
        self.map.clear();
        assert(self.buckets() =~= Map::<K, Seq<(usize, V)>>::empty());
    }
}

impl<K: Hash + Eq, E, V, F: Fn(usize, &E) -> K, G: Fn(E) -> V> Index<K, E, V, F, G> {
    /// Every key that has rows, with its rows, each key once. The order of the
    /// keys is that in which the hash map walks them, and is not fixed.
    pub fn all(&self) -> (pairs: Vec<(&K, &Vec<(usize, V)>)>)
        requires
            self.wf(),
        ensures
            pairs@.len() == self.buckets().dom().len(),
            forall|i: int|
                0 <= i < pairs@.len() ==> self.buckets().contains_key(*(#[trigger] pairs@[i]).0)
                    && self.buckets()[*pairs@[i].0] == pairs@[i].1@ && pairs@[i].1@.len() > 0,
            forall|i: int, j: int|
                0 <= i < j < pairs@.len() ==> *(#[trigger] pairs@[i]).0 != *(
                #[trigger] pairs@[j]).0,
    {
        let mut pairs: Vec<(&K, &Vec<(usize, V)>)> = Vec::new();
        let walk = self.map.iter();
        let ghost whole = walk.remaining();
        proof {
            assert(self.buckets().dom() =~= self.map@.dom());
        }
        for pair in it: walk
            invariant
                it.seq() == whole,
                pairs@ == whole.take(it.index() as int),
        {
            pairs.push(pair);
            assert(pairs@ =~= whole.take(it.index() + 1));
        }
        proof {
            assert(whole.take(whole.len() as int) =~= whole);
            assert forall|i: int, j: int| 0 <= i < j < pairs@.len() implies *(
            #[trigger] pairs@[i]).0 != *(#[trigger] pairs@[j]).0 by {
                if *pairs@[i].0 == *pairs@[j].0 {
                    assert(self.map@[*pairs@[i].0] == *pairs@[i].1);
                    assert(self.map@[*pairs@[j].0] == *pairs@[j].1);
                    assert(pairs@[i] == pairs@[j]);
                }
            }
        }
        pairs
    }
}

/// The rows among `entries` whose key is `key`, with their values, in the
/// order of the rows: the record at position `i` is row `from_row + i`.
pub open spec fn rows_of_key<K, E, V, F: Fn(usize, &E) -> K, G: Fn(E) -> V>(
    f: F,
    g: G,
    from_row: usize,
    entries: Seq<E>,
    key: K,
) -> Seq<(usize, V)>
    decreases entries.len(),
{
    if entries.len() == 0 {
        Seq::empty()
    } else {
        let before = rows_of_key::<K, E, V, F, G>(f, g, from_row, entries.drop_last(), key);
        let row = (from_row + entries.len() - 1) as usize;
        if key_of(f, row, entries.last()) == key {
            before.push((row, value_of(g, entries.last())))
        } else {
            before
        }
    }
}

/// `rows_of_key`, one record at a time. This is the definition, stated for
/// functions of any type.
pub proof fn lemma_rows_of_key_unfolds<K, E, V, F: Fn(usize, &E) -> K, G: Fn(E) -> V>(
    f: F,
    g: G,
    from_row: usize,
    entries: Seq<E>,
    key: K,
)
    ensures
        entries.len() == 0 ==> rows_of_key::<K, E, V, F, G>(f, g, from_row, entries, key) == Seq::<
            (usize, V),
        >::empty(),
        entries.len() > 0 ==> rows_of_key::<K, E, V, F, G>(f, g, from_row, entries, key) == ({
            let before = rows_of_key::<K, E, V, F, G>(f, g, from_row, entries.drop_last(), key);
            let row = (from_row + entries.len() - 1) as usize;
            if key_of(f, row, entries.last()) == key {
                before.push((row, value_of(g, entries.last())))
            } else {
                before
            }
        }),
{
}

/// Colliding keys. After records were appended from row `from_row` on, the
/// bucket of a key holds what it held before and then every appended row with
/// that key, in the order of the rows; so records with the same key are all
/// there, each with its own row, and the one that came first is first.
pub proof fn lemma_bucket_keeps_order<K, E, V, F: Fn(usize, &E) -> K, G: Fn(E) -> V>(
    f: F,
    g: G,
    buckets: Map<K, Seq<(usize, V)>>,
    from_row: usize,
    entries: Seq<E>,
    key: K,
)
    ensures
        bucket_of(appended::<K, E, V, F, G>(f, g, buckets, from_row, entries), key) == bucket_of(
            buckets,
            key,
        ) + rows_of_key::<K, E, V, F, G>(f, g, from_row, entries, key),
    decreases entries.len(),
{
    if entries.len() == 0 {
        assert(bucket_of(buckets, key) + Seq::<(usize, V)>::empty() =~= bucket_of(buckets, key));
    } else {
        lemma_bucket_keeps_order::<K, E, V, F, G>(f, g, buckets, from_row, entries.drop_last(), key);
        let before = appended::<K, E, V, F, G>(f, g, buckets, from_row, entries.drop_last());
        let row = (from_row + entries.len() - 1) as usize;
        let k = key_of(f, row, entries.last());
        if k == key {
            assert(bucket_of(before, key).push((row, value_of(g, entries.last()))) =~= bucket_of(
                buckets,
                key,
            ) + rows_of_key::<K, E, V, F, G>(f, g, from_row, entries, key));
        }
    }
}

impl<K: Hash + Eq, E, V, F: Fn(usize, &E) -> K, G: Fn(E) -> V> Table for Index<K, E, V, F, G> {
    open spec fn inv(&self) -> bool {
        self.wf()
    }
}

impl<K: Hash + Eq, E: Clone, V, F: Fn(usize, &E) -> K, G: Fn(E) -> V> TableExtend<E> for Index<
    K,
    E,
    V,
    F,
    G,
> {
    type Ok = ();

    type Error = Error;

    /// The entries get the rows after the ones that the index has taken.
    open spec fn extended(&self, entries: &Vec<E>, after: &Self) -> bool {
        &&& after.key_fn() == self.key_fn()
        &&& after.value_fn() == self.value_fn()
        &&& after.taken() == self.taken() + entries@.len()
        &&& after.buckets() == appended::<K, E, V, F, G>(
            self.key_fn(),
            self.value_fn(),
            self.buckets(),
            self.taken(),
            entries@,
        )
        &&& derived::<K, E, V, F, G>(self.key_fn(), self.value_fn(), self.taken(), entries@)
    }

    /// The acknowledgment of an append says nothing.
    open spec fn extend_acknowledges(&self, entries: &Vec<E>, after: &Self, ok: &()) -> bool {
        true
    }

    /// An append to an index fails only where the entries would get rows
    /// beyond the last row position, and then leaves the index as it is.
    open spec fn extend_fails(&self, entries: &Vec<E>, after: &Self, error: &Error) -> bool {
        &&& self.taken() + entries@.len() > usize::MAX
        &&& after.key_fn() == self.key_fn()
        &&& after.value_fn() == self.value_fn()
        &&& after.taken() == self.taken()
        &&& after.buckets() == self.buckets()
    }

    /// Appends clones of the entries after the rows that the index has taken.
    /// It fails if and only if there are not as many row positions left.
    fn extend(&mut self, gen: &mut VersionGen, entries: &Vec<E>) -> (r: Result<(), Error>)
        ensures
            r is Ok <==> old(self).taken() + entries@.len() <= usize::MAX,
            *final(gen) == *old(gen),
    {
        if entries.len() > usize::MAX - self.taken {
            return Err(Error::RowsExhausted);
        }
        let copies: Vec<E> = clone_all(entries);
        let ghost witness: Vec<E> = copies;
        self._extend(copies);
        assert(are_clones(entries@, witness@) && old(self).extended(&witness, self));
        Ok(())
    }
}

impl<K: Hash + Eq, E: Clone, V, F: Fn(usize, &E) -> K, G: Fn(E) -> V> TableUpdate<E> for Index<
    K,
    E,
    V,
    F,
    G,
> {
    type Ok = ();

    type Error = Infallible;

    open spec fn updated(&self, from_row: usize, entries: &Vec<E>, after: &Self) -> bool {
        after.key_fn() == self.key_fn() && after.value_fn() == self.value_fn() && after.taken()
            == taken_after(self.taken(), from_row, entries@.len()) && after.buckets()
            == rewritten::<K, E, V, F, G>(
            self.key_fn(),
            self.value_fn(),
            self.buckets(),
            from_row,
            entries@,
        ) && derived::<K, E, V, F, G>(self.key_fn(), self.value_fn(), from_row, entries@)
    }

    /// The acknowledgment of a write says nothing.
    open spec fn update_acknowledges(
        &self,
        from_row: usize,
        entries: &Vec<E>,
        after: &Self,
        ok: &(),
    ) -> bool {
        true
    }

    /// A write to an index never fails.
    open spec fn update_fails(
        &self,
        from_row: usize,
        entries: &Vec<E>,
        after: &Self,
        error: &Infallible,
    ) -> bool {
        false
    }

    fn update(&mut self, gen: &mut VersionGen, from_row: usize, entries: &Vec<E>) -> (r: Result<
        (),
        Infallible,
    >)
        ensures
            r is Ok,
            *final(gen) == *old(gen),
    {
        let copies: Vec<E> = clone_all(entries);
        let ghost witness: Vec<E> = copies;
        self._update(from_row, copies);
        assert(are_clones(entries@, witness@) && old(self).updated(from_row, &witness, self));
        Ok(())
    }
}

impl<K: Hash + Eq, E, V, F: Fn(usize, &E) -> K, G: Fn(E) -> V> TableClear for Index<K, E, V, F, G> {
    type Error = Infallible;

    open spec fn cleared(&self) -> bool {
        self.buckets() == Map::<K, Seq<(usize, V)>>::empty() && self.taken() == 0
    }

    /// Emptying an index never fails.
    open spec fn clear_fails(&self, after: &Self, error: &Infallible) -> bool {
        false
    }

    fn clear(&mut self) -> (r: Result<(), Infallible>)
        ensures
            r is Ok,
            final(self).key_fn() == old(self).key_fn(),
            final(self).value_fn() == old(self).value_fn(),
    {
        self._clear();
        Ok(())
    }
}

} // verus!
