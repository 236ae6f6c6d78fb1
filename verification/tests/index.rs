use tables::in_mem::{InMemTable, ReadClone};
use tables::index::Index;
use tables::fork::Fork;
use tables::version::VersionGen;
use tables::{TableClear, TableExtend, TableFetch, TableRead, TableUpdate};

fn parity(_row: usize, entry: &u32) -> u64 {
    (*entry % 2) as u64
}

fn keep(entry: u32) -> u32 {
    entry
}

#[test]
fn colliding_keys_keep_every_row_in_order() {
    let mut index: Index<u64, u32, u32, _, _> = Index::new(parity, keep);
    index._extend(vec![10, 11, 12, 14]);
    assert_eq!(index.group(&0), Some(&vec![(0, 10), (2, 12), (3, 14)]));
    assert_eq!(index.group(&1), Some(&vec![(1, 11)]));
    assert_eq!(index.get(&0), Some(&10));
    assert_eq!(index.get_with_row(&0), Some(&(0, 10)));
    assert_eq!(index.get(&1), Some(&11));
    assert_eq!(index.get(&5), None);
    assert_eq!(index.group(&5), None);
}

#[test]
fn update_replaces_in_place_or_appends() {
    let mut index: Index<u64, u32, u32, _, _> = Index::new(parity, keep);
    index._extend(vec![10, 11, 12, 14]);
    index._update(2, vec![20]);
    assert_eq!(index.group(&0), Some(&vec![(0, 10), (2, 20), (3, 14)]));
    index._update(1, vec![30, 31]);
    assert_eq!(index.group(&0), Some(&vec![(0, 10), (2, 20), (3, 14), (1, 30)]));
    assert_eq!(index.group(&1), Some(&vec![(1, 11), (2, 31)]));
    index._update(7, vec![41]);
    assert_eq!(index.get_with_row(&1), Some(&(1, 11)));
    assert_eq!(index.group(&1).unwrap().last(), Some(&(7, 41)));
}

#[test]
fn clear_empties_every_bucket() {
    let mut gen = VersionGen::new();
    let mut index: Index<u64, u32, u32, _, _> = Index::new(parity, keep);
    index.extend(&mut gen, &vec![1, 2, 3]).unwrap();
    assert_eq!(index.all().len(), 2);
    index.clear().unwrap();
    assert!(index.all().is_empty());
    assert_eq!(index.get(&1), None);
    index.update(&mut gen, 4, &vec![6]).unwrap();
    assert_eq!(index.get_with_row(&0), Some(&(4, 6)));
}

#[test]
fn all_lists_each_key_once() {
    let mut index: Index<String, (String, u8), u8, _, _> = Index::new(
        |_row: usize, entry: &(String, u8)| entry.0.clone(),
        |entry: (String, u8)| entry.1,
    );
    index._extend(vec![
        ("a".to_owned(), 1),
        ("b".to_owned(), 2),
        ("a".to_owned(), 3),
    ]);
    let mut keys: Vec<String> = index.all().into_iter().map(|(k, _)| k.clone()).collect();
    keys.sort();
    assert_eq!(keys, vec!["a".to_owned(), "b".to_owned()]);
    assert_eq!(index.get(&"a".to_owned()), Some(&1));
    assert_eq!(index.group(&"a".to_owned()), Some(&vec![(0, 1), (2, 3)]));
    assert_eq!(index.group(&"a".to_owned()).unwrap().len(), 2);
}

#[test]
fn index_follows_its_origin_through_a_fan_out() {
    let mut gen = VersionGen::new();
    let origin: InMemTable<u32, ReadClone> = InMemTable::new(&mut gen, vec![3, 4]);
    let index: Index<u64, u32, u32, _, _> = Index::new(parity, keep);
    let mut fork = Fork::new(origin, vec![index]);
    assert_eq!(fork.fetch(&mut gen).unwrap(), vec![3, 4]);
    assert_eq!(fork.subscribers[0].get_with_row(&1), Some(&(0, 3)));
    fork.update(&mut gen, 0, &vec![8]).unwrap();
    assert_eq!(fork.subscribers[0].group(&0), Some(&vec![(1, 4), (0, 8)]));
    assert_eq!(fork.origin.read_clones(), vec![8, 4]);
}

#[test]
fn rows_go_on_from_one_extend_to_the_next() {
    let mut gen = VersionGen::new();
    let mut index: Index<u32, u32, u32, _, _> = Index::new(|_row: usize, e: &u32| *e, keep);
    index.extend(&mut gen, &vec![10, 11]).unwrap();
    index.extend(&mut gen, &vec![12]).unwrap();
    assert_eq!(index.get_with_row(&12), Some(&(2, 12)));
    assert_eq!(index.get_with_row(&10), Some(&(0, 10)));
    assert_eq!(index.get_with_row(&11), Some(&(1, 11)));
    index.update(&mut gen, 5, &vec![15]).unwrap();
    index.extend_one(&mut gen, &16).unwrap();
    assert_eq!(index.get_with_row(&16), Some(&(6, 16)));
    index.clear().unwrap();
    index.extend_owned(&mut gen, vec![20]).unwrap();
    assert_eq!(index.get_with_row(&20), Some(&(0, 20)));
}

#[test]
fn no_bucket_is_empty() {
    let mut index: Index<u64, u32, u32, _, _> = Index::new(parity, keep);
    index._extend(vec![1, 2, 3, 4, 5]);
    index._update(0, vec![7, 9]);
    let all = index.all();
    assert!(!all.is_empty());
    for (_key, bucket) in all {
        assert!(!bucket.is_empty());
    }
}

#[test]
fn an_index_refuses_rows_without_a_position() {
    let mut gen = VersionGen::new();
    let mut index: Index<u64, u32, u32, _, _> = Index::new(parity, keep);
    index._update(usize::MAX - 1, vec![3]);
    assert!(matches!(
        index.extend(&mut gen, &vec![4]),
        Err(tables::index::Error::RowsExhausted)
    ));
    assert_eq!(index.get(&0), None);
    assert_eq!(index.get_with_row(&1), Some(&(usize::MAX - 1, 3)));
    assert_eq!(
        tables::index::Error::RowsExhausted.to_string(),
        "the index has no row position left"
    );
}

#[test]
fn an_index_and_a_table_subscribe_together() {
    let mut gen = VersionGen::new();
    let origin: InMemTable<u32, ReadClone> = InMemTable::new(&mut gen, vec![3]);
    let index: Index<u64, u32, u32, _, _> = Index::new(parity, keep);
    let copy: InMemTable<u32, ReadClone> = InMemTable::new(&mut gen, vec![]);
    let inner = Fork::new(origin, vec![index]);
    let mut fork = Fork::new(inner, vec![copy]);
    assert_eq!(fork.fetch(&mut gen).unwrap(), vec![3]);
    fork.extend(&mut gen, &vec![4, 6]).unwrap();
    assert_eq!(fork.origin.origin.read_clones(), vec![3, 4, 6]);
    assert_eq!(fork.origin.subscribers[0].group(&0), Some(&vec![(1, 4), (2, 6)]));
    assert_eq!(fork.subscribers[0].read().unwrap(), vec![&3, &4, &6]);
}
