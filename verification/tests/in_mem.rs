use tables::in_mem::{InMemTable, ReadClone, ReadRef};
use tables::version::{next_version, VersionGen};
use tables::{TableClear, TableExtend, TableFetch, TableRead, TableUpdate, TableVersion};

#[test]
fn in_mem_fetch() {
    let mut gen = VersionGen::new();
    let mut table: InMemTable<u32> = InMemTable::new(&mut gen, vec![1, 2, 3]);
    let version = table.version(&mut gen).unwrap();
    let rows: Vec<_> = table.fetch(&mut gen).unwrap();

    assert_eq!(rows, vec![&1, &2, &3]);
    assert_eq!(version, table.version(&mut gen).unwrap());
}

#[test]
fn in_mem_insert() {
    let mut gen = VersionGen::new();
    let mut table: InMemTable<usize> = InMemTable::new(&mut gen, vec![]);
    let version = table.version(&mut gen).unwrap();
    let input = vec![0, 1, 2];

    table.extend(&mut gen, &input).unwrap();

    let output: Vec<_> = table.fetch(&mut gen).unwrap().into_iter().cloned().collect();

    assert_eq!(input, output);
    assert_ne!(version, table.version(&mut gen).unwrap());
}

#[test]
fn in_mem_update() {
    let mut gen = VersionGen::new();
    let mut table: InMemTable<usize> = InMemTable::new(&mut gen, vec![]);
    let version = table.version(&mut gen).unwrap();
    let input: Vec<usize> = vec![0, 1, 2];

    table.update(&mut gen, 0, &input).unwrap();

    let output: Vec<_> = table.fetch(&mut gen).unwrap().into_iter().cloned().collect();

    assert_eq!(input, output);
    assert_ne!(version, table.version(&mut gen).unwrap());
}

#[test]
fn update_over_seeded_table() {
    let mut gen = VersionGen::new();
    let mut table: InMemTable<usize, ReadClone> = InMemTable::new(&mut gen, vec![0, 1, 2]);
    let before = table.current_version();
    table.update(&mut gen, 0, &vec![9, 9, 9]).unwrap();
    assert_eq!(table.fetch(&mut gen).unwrap(), vec![9, 9, 9]);
    assert_ne!(before, table.current_version());
    assert!(table.current_version() > before);
}

#[test]
fn update_beyond_the_end_leaves_gaps() {
    let mut gen = VersionGen::new();
    let mut table: InMemTable<u8, ReadRef> = InMemTable::new(&mut gen, vec![1]);
    table.update_owned(&mut gen, 3, vec![7, 8]).unwrap();
    assert_eq!(
        table.rows(),
        &vec![Some(1), None, None, Some(7), Some(8)]
    );
    assert_eq!(table.read_refs(), vec![&1, &7, &8]);
    table.update_one(&mut gen, 1, &5).unwrap();
    assert_eq!(table.read_clones(), vec![1, 5, 7, 8]);
}

#[test]
fn every_write_raises_the_version() {
    let mut gen = VersionGen::new();
    let mut table: InMemTable<u8> = InMemTable::new(&mut gen, vec![]);
    let v0 = table.current_version();
    table.extend_one(&mut gen, &1).unwrap();
    let v1 = table.current_version();
    table.extend_owned(&mut gen, vec![2, 3]).unwrap();
    let v2 = table.current_version();
    table.update(&mut gen, 0, &vec![4]).unwrap();
    let v3 = table.current_version();
    assert!(v0 < v1 && v1 < v2 && v2 < v3);
    let _ = table.read().unwrap();
    assert_eq!(table.current_version(), v3);
}

#[test]
fn clear_empties_and_resets_the_version() {
    let mut gen = VersionGen::starting_at(10);
    let mut table: InMemTable<u8> = InMemTable::new(&mut gen, vec![1, 2]);
    assert_eq!(table.current_version(), 10);
    table.clear().unwrap();
    assert!(table.rows().is_empty());
    assert_eq!(table.current_version(), 0);
}

#[test]
fn versions_come_in_order_and_wrap() {
    let mut gen = VersionGen::new();
    assert_eq!(next_version(&mut gen), 0);
    assert_eq!(next_version(&mut gen), 1);
    assert_eq!(gen.current(), 2);
    let mut last = VersionGen::starting_at(u64::MAX);
    assert_eq!(next_version(&mut last), u64::MAX);
    assert_eq!(last.current(), 0);
}

#[test]
fn fetch_by_value_hands_out_clones() {
    let mut gen = VersionGen::new();
    let mut table: InMemTable<String, ReadClone> =
        InMemTable::new(&mut gen, vec!["a".to_owned(), "b".to_owned()]);
    let version = table.current_version();
    let rows: Vec<String> = table.fetch(&mut gen).unwrap();
    assert_eq!(rows, vec!["a".to_owned(), "b".to_owned()]);
    table.refresh(&mut gen).unwrap();
    assert_eq!(version, table.current_version());
}

#[test]
fn a_write_raises_the_version_whatever_the_generator_hands_out() {
    let mut first = VersionGen::starting_at(100);
    let mut table: InMemTable<u8> = InMemTable::new(&mut first, vec![]);
    assert_eq!(table.current_version(), 100);
    let mut other = VersionGen::new();
    table.extend(&mut other, &vec![1]).unwrap();
    assert_eq!(table.current_version(), 101);
    table.update(&mut other, 0, &vec![2]).unwrap();
    assert_eq!(table.current_version(), 102);
    table.extend(&mut first, &vec![]).unwrap();
    assert_eq!(table.current_version(), 103);
    let mut far = VersionGen::starting_at(5000);
    table.update_one(&mut far, 0, &3).unwrap();
    assert_eq!(table.current_version(), 5000);
    table.clear().unwrap();
    table.extend_one(&mut other, &4).unwrap();
    assert_eq!(table.current_version(), 2);
}
