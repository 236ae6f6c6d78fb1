use tables::cache::{Cache, Error};
use tables::in_mem::{InMemTable, ReadClone};
use tables::version::VersionGen;
use tables::{Table, TableExtend, TableFetch, TableRead, TableUpdate, TableVersion};

#[test]
fn cache_fetch() {
    let mut gen = VersionGen::new();
    let input = vec![0, 1, 2];
    let clock_origin: InMemTable<usize, ReadClone> = InMemTable::new(&mut gen, input.clone());
    let clock_cache: InMemTable<usize> = InMemTable::new(&mut gen, vec![]);

    let mut table = Cache::new(&mut gen, clock_origin, clock_cache);

    let version = table.version(&mut gen).unwrap();
    let output: Vec<usize> = table.fetch(&mut gen).unwrap();
    assert_eq!(output, input);

    assert_ne!(version, table.version(&mut gen).unwrap());
}

#[test]
fn cache_insert() {
    let mut gen = VersionGen::new();
    let clock_origin: InMemTable<usize, ReadClone> = InMemTable::new(&mut gen, vec![]);
    let clock_cache: InMemTable<usize> = InMemTable::new(&mut gen, vec![]);

    let mut table = Cache::new(&mut gen, clock_origin, clock_cache);

    let version = table.version(&mut gen).unwrap();
    let input = vec![0, 1, 2];

    table.extend(&mut gen, &input).unwrap();
    let output: Vec<usize> = table.fetch(&mut gen).unwrap();

    assert_eq!(output, output);
    assert_eq!(output, input);
    assert_ne!(version, table.version(&mut gen).unwrap());
}

#[test]
fn cache_update() {
    let mut gen = VersionGen::new();
    let clock_origin: InMemTable<usize, ReadClone> = InMemTable::new(&mut gen, vec![0, 1, 2]);
    let clock_cache: InMemTable<usize> = InMemTable::new(&mut gen, vec![]);

    let mut table = Cache::new(&mut gen, clock_origin, clock_cache);

    let version = table.version(&mut gen).unwrap();
    let input = vec![0, 1, 2];

    table.update(&mut gen, 0, &input).unwrap();

    let output: Vec<usize> = table.fetch(&mut gen).unwrap();
    assert_eq!(output, input);

    assert_ne!(version, table.version(&mut gen).unwrap());
}

/// An origin that counts how often it is fetched from and reports the
/// version it is told to.
struct CountingOrigin {
    rows: Vec<u32>,
    version: u64,
    fetches: usize,
    looks: usize,
    fail_fetch: bool,
}

impl Table for CountingOrigin {
    fn inv(&self) -> bool {
        true
    }
}

impl TableVersion for CountingOrigin {
    type Error = String;

    fn versioned(&self, _after: &Self, _version: u64) -> bool {
        true
    }

    fn version(&mut self, _gen: &mut VersionGen) -> Result<u64, String> {
        self.looks += 1;
        Ok(self.version)
    }
}

impl TableFetch<u32> for CountingOrigin {
    type Error = String;

    fn refreshed(&self, _after: &Self) -> bool {
        true
    }

    fn fetched(&self, _after: &Self, _rows: &Vec<u32>) -> bool {
        true
    }

    fn fetch(&mut self, _gen: &mut VersionGen) -> Result<Vec<u32>, String> {
        self.fetches += 1;
        if self.fail_fetch {
            Err("origin is down".to_owned())
        } else {
            Ok(self.rows.clone())
        }
    }

    fn refresh(&mut self, gen: &mut VersionGen) -> Result<(), String> {
        self.fetch(gen).map(|_| ())
    }
}

fn counting(rows: Vec<u32>, version: u64) -> CountingOrigin {
    CountingOrigin { rows, version, fetches: 0, looks: 0, fail_fetch: false }
}

fn mirrored(cache: &Cache<CountingOrigin, InMemTable<u32>>) -> Vec<u32> {
    cache.read().unwrap().into_iter().cloned().collect()
}

#[test]
fn refresh_rebuilds_only_when_the_version_changed() {
    let mut gen = VersionGen::starting_at(100);
    let mirror: InMemTable<u32> = InMemTable::new(&mut gen, vec![]);
    let mut cache = Cache::new(&mut gen, counting(vec![1, 2, 3], 7), mirror);

    cache.refresh(&mut gen).unwrap();
    assert_eq!(cache.origin().fetches, 1);
    assert_eq!(mirrored(&cache), vec![1, 2, 3]);

    cache.refresh(&mut gen).unwrap();
    cache.refresh(&mut gen).unwrap();
    assert_eq!(cache.origin().fetches, 1);
    assert_eq!(cache.origin().looks, 3);
    assert_eq!(mirrored(&cache), vec![1, 2, 3]);
}

#[test]
fn read_is_stale_until_refresh() {
    let mut gen = VersionGen::starting_at(100);
    let mirror: InMemTable<u32> = InMemTable::new(&mut gen, vec![9]);
    let mut cache = Cache::new(&mut gen, counting(vec![1, 2], 7), mirror);
    assert_eq!(mirrored(&cache), vec![9]);
    assert_eq!(cache.origin().looks, 0);
    assert_eq!(cache.fetch(&mut gen).unwrap(), vec![1, 2]);
    assert_eq!(mirrored(&cache), vec![1, 2]);
}

#[test]
fn mark_as_dirty_forces_a_rebuild() {
    let mut gen = VersionGen::starting_at(100);
    let mirror: InMemTable<u32> = InMemTable::new(&mut gen, vec![]);
    let mut cache = Cache::new(&mut gen, counting(vec![4], 7), mirror);
    cache.refresh(&mut gen).unwrap();
    assert_eq!(cache.origin().fetches, 1);
    cache.mark_as_dirty();
    cache.refresh(&mut gen).unwrap();
    assert_eq!(cache.origin().fetches, 2);
    assert_eq!(mirrored(&cache), vec![4]);
}

#[test]
fn failed_refresh_leaves_the_mirror_and_tries_again() {
    let mut gen = VersionGen::starting_at(100);
    let mirror: InMemTable<u32> = InMemTable::new(&mut gen, vec![5]);
    let mut origin = counting(vec![1], 7);
    origin.fail_fetch = true;
    let mut cache = Cache::new(&mut gen, origin, mirror);
    match cache.refresh(&mut gen) {
        Err(Error::Origin(message)) => assert_eq!(message, "origin is down"),
        _ => panic!("the origin's failure must be reported as the origin's"),
    }
    assert_eq!(mirrored(&cache), vec![5]);
    assert!(cache.refresh(&mut gen).is_err());
    assert_eq!(cache.origin().fetches, 2);
}

/// A mirror that refuses every write.
struct ReadOnly;

impl Table for ReadOnly {
    fn inv(&self) -> bool {
        true
    }
}

impl TableExtend<u32> for ReadOnly {
    type Ok = ();
    type Error = String;

    fn extended(&self, _entries: &Vec<u32>, _after: &Self) -> bool {
        true
    }

    fn extend(&mut self, _gen: &mut VersionGen, _entries: &Vec<u32>) -> Result<(), String> {
        Err("mirror is read-only".to_owned())
    }
}

impl TableUpdate<u32> for ReadOnly {
    type Ok = ();
    type Error = String;

    fn updated(&self, _from_row: usize, _entries: &Vec<u32>, _after: &Self) -> bool {
        true
    }

    fn update(
        &mut self,
        _gen: &mut VersionGen,
        _from_row: usize,
        _entries: &Vec<u32>,
    ) -> Result<(), String> {
        Err("mirror is read-only".to_owned())
    }
}

#[test]
fn mirror_failure_is_told_apart_and_spares_the_origin() {
    let mut gen = VersionGen::new();
    let origin: InMemTable<u32, ReadClone> = InMemTable::new(&mut gen, vec![1]);
    let mut cache = Cache::new(&mut gen, origin, ReadOnly);
    match cache.extend(&mut gen, &vec![2]) {
        Err(Error::Cache(message)) => assert_eq!(message, "mirror is read-only"),
        _ => panic!("the mirror's failure must be reported as the mirror's"),
    }
    assert!(matches!(cache.update(&mut gen, 0, &vec![3]), Err(Error::Cache(_))));
    assert_eq!(cache.origin().read_clones(), vec![1]);
}

#[test]
fn writes_reach_the_mirror_and_the_origin() {
    let mut gen = VersionGen::new();
    let origin: InMemTable<u32, ReadClone> = InMemTable::new(&mut gen, vec![1]);
    let mirror: InMemTable<u32> = InMemTable::new(&mut gen, vec![1]);
    let mut cache = Cache::new(&mut gen, origin, mirror);
    cache.extend(&mut gen, &vec![2, 3]).unwrap();
    cache.update(&mut gen, 0, &vec![9]).unwrap();
    assert_eq!(cache.origin().read_clones(), vec![9, 2, 3]);
    assert_eq!(cache.mirror().read_clones(), vec![9, 2, 3]);
    assert_eq!(cache.read().unwrap(), vec![&9, &2, &3]);
}

#[test]
fn a_table_that_hands_out_clones_can_be_a_mirror() {
    let mut gen = VersionGen::new();
    let origin: InMemTable<u32, ReadClone> = InMemTable::new(&mut gen, vec![1, 2]);
    let mirror: InMemTable<u32, ReadClone> = InMemTable::new(&mut gen, vec![]);
    let mut cache = Cache::new(&mut gen, origin, mirror);
    assert_eq!(cache.fetch(&mut gen).unwrap(), vec![1, 2]);
    assert_eq!(cache.read().unwrap(), vec![&1, &2]);
}

#[test]
fn a_marked_mirror_is_rebuilt_whatever_the_origin_reports() {
    let mut gen = VersionGen::starting_at(7);
    let mirror: InMemTable<u32> = InMemTable::new(&mut gen, vec![9]);
    let mut cache = Cache::new(&mut gen, counting(vec![1], 8), mirror);
    cache.refresh(&mut gen).unwrap();
    assert_eq!(cache.origin().fetches, 1);
    assert_eq!(mirrored(&cache), vec![1]);
    cache.refresh(&mut gen).unwrap();
    assert_eq!(cache.origin().fetches, 1);
    cache.mark_as_dirty();
    cache.mark_as_dirty();
    cache.refresh(&mut gen).unwrap();
    cache.refresh(&mut gen).unwrap();
    assert_eq!(cache.origin().fetches, 2);
}
