use tables::fork::{Error, ErrorClear, ErrorExtend, ErrorUpdate, Fork};
use tables::in_mem::{InMemTable, ReadClone};
use tables::version::VersionGen;
use tables::{Table, TableClear, TableExtend, TableFetch, TableUpdate};

/// A subscriber that records what it is given, in order, and can be told to
/// fail.
struct Recorder {
    rows: Vec<u32>,
    log: Vec<String>,
    fail_extend: bool,
    fail_update: bool,
    fail_clear: bool,
}

fn recorder() -> Recorder {
    Recorder { rows: vec![], log: vec![], fail_extend: false, fail_update: false, fail_clear: false }
}

impl Table for Recorder {
    fn inv(&self) -> bool {
        true
    }
}

impl TableExtend<u32> for Recorder {
    type Ok = ();
    type Error = String;

    fn extended(&self, _entries: &Vec<u32>, _after: &Self) -> bool {
        true
    }

    fn extend(&mut self, _gen: &mut VersionGen, entries: &Vec<u32>) -> Result<(), String> {
        if self.fail_extend {
            return Err("extend refused".to_owned());
        }
        self.rows.extend_from_slice(entries);
        self.log.push(format!("extend {:?}", entries));
        Ok(())
    }
}

impl TableUpdate<u32> for Recorder {
    type Ok = ();
    type Error = String;

    fn updated(&self, _from_row: usize, _entries: &Vec<u32>, _after: &Self) -> bool {
        true
    }

    fn update(
        &mut self,
        _gen: &mut VersionGen,
        from_row: usize,
        entries: &Vec<u32>,
    ) -> Result<(), String> {
        if self.fail_update {
            return Err("update refused".to_owned());
        }
        self.log.push(format!("update {} {:?}", from_row, entries));
        Ok(())
    }
}

impl TableClear for Recorder {
    type Error = String;

    fn cleared(&self) -> bool {
        self.rows.is_empty()
    }

    fn clear(&mut self) -> Result<(), String> {
        if self.fail_clear {
            return Err("clear refused".to_owned());
        }
        self.rows.clear();
        self.log.push("clear".to_owned());
        Ok(())
    }
}

fn fork_of(gen: &mut VersionGen, seed: Vec<u32>, subs: Vec<Recorder>) -> Fork<InMemTable<u32, ReadClone>, Recorder> {
    Fork::new(InMemTable::new(gen, seed), subs)
}

#[test]
fn extend_reaches_every_subscriber_in_order() {
    let mut gen = VersionGen::new();
    let mut fork = fork_of(&mut gen, vec![], vec![recorder(), recorder(), recorder()]);
    fork.extend(&mut gen, &vec![1, 2]).unwrap();
    fork.extend(&mut gen, &vec![3]).unwrap();
    assert_eq!(fork.origin.read_clones(), vec![1, 2, 3]);
    for sub in fork.subscribers.iter() {
        assert_eq!(sub.rows, vec![1, 2, 3]);
        assert_eq!(sub.log, vec!["extend [1, 2]".to_owned(), "extend [3]".to_owned()]);
    }
}

#[test]
fn failing_subscriber_stops_the_fan_out_without_rollback() {
    let mut gen = VersionGen::new();
    let mut second = recorder();
    second.fail_extend = true;
    let mut fork = fork_of(&mut gen, vec![9], vec![recorder(), second, recorder()]);
    match fork.extend(&mut gen, &vec![1, 2]) {
        Err(Error::Extend(ErrorExtend::Subscriber(at, message))) => {
            assert_eq!(at, 1);
            assert_eq!(message, "extend refused");
        }
        _ => panic!("the second subscriber's failure must be reported"),
    }
    assert_eq!(fork.origin.read_clones(), vec![9, 1, 2]);
    assert_eq!(fork.subscribers[0].rows, vec![1, 2]);
    assert!(fork.subscribers[1].rows.is_empty());
    assert!(fork.subscribers[2].rows.is_empty());
    assert!(fork.subscribers[2].log.is_empty());
}

#[test]
fn update_fans_out_and_reports_the_failing_subscriber() {
    let mut gen = VersionGen::new();
    let mut last = recorder();
    last.fail_update = true;
    let mut fork = fork_of(&mut gen, vec![0, 1, 2], vec![recorder(), last]);
    match fork.update(&mut gen, 1, &vec![7]) {
        Err(Error::Update(ErrorUpdate::Subscriber(at, _))) => assert_eq!(at, 1),
        _ => panic!("the last subscriber's failure must be reported"),
    }
    assert_eq!(fork.origin.read_clones(), vec![0, 7, 2]);
    assert_eq!(fork.subscribers[0].log, vec!["update 1 [7]".to_owned()]);
    assert!(fork.subscribers[1].log.is_empty());
}

#[test]
fn fetch_reloads_every_subscriber() {
    let mut gen = VersionGen::new();
    let mut stale = recorder();
    stale.rows = vec![100];
    let mut fork = fork_of(&mut gen, vec![4, 5], vec![stale, recorder()]);
    assert_eq!(fork.fetch(&mut gen).unwrap(), vec![4, 5]);
    for sub in fork.subscribers.iter() {
        assert_eq!(sub.rows, vec![4, 5]);
        assert_eq!(sub.log, vec!["clear".to_owned(), "extend [4, 5]".to_owned()]);
    }
    fork.refresh(&mut gen).unwrap();
    assert_eq!(fork.subscribers[1].rows, vec![4, 5]);
}

#[test]
fn fetch_reports_a_subscriber_that_cannot_be_emptied() {
    let mut gen = VersionGen::new();
    let mut first = recorder();
    first.fail_clear = true;
    let mut other = recorder();
    other.rows = vec![8];
    let mut fork = fork_of(&mut gen, vec![4], vec![first, other]);
    match fork.fetch(&mut gen) {
        Err(Error::Clear(ErrorClear::Subscriber(at, message))) => {
            assert_eq!(at, 0);
            assert_eq!(message, "clear refused");
        }
        _ => panic!("the first subscriber's failure must be reported"),
    }
    assert_eq!(fork.subscribers[1].rows, vec![8]);
}

/// An origin that refuses everything.
struct Refusing;

impl Table for Refusing {
    fn inv(&self) -> bool {
        true
    }
}

impl TableFetch<u32> for Refusing {
    type Error = String;

    fn refreshed(&self, _after: &Self) -> bool {
        true
    }

    fn fetched(&self, _after: &Self, _rows: &Vec<u32>) -> bool {
        true
    }

    fn fetch(&mut self, _gen: &mut VersionGen) -> Result<Vec<u32>, String> {
        Err("fetch refused".to_owned())
    }

    fn refresh(&mut self, _gen: &mut VersionGen) -> Result<(), String> {
        Err("fetch refused".to_owned())
    }
}

impl TableExtend<u32> for Refusing {
    type Ok = ();
    type Error = String;

    fn extended(&self, _entries: &Vec<u32>, _after: &Self) -> bool {
        true
    }

    fn extend(&mut self, _gen: &mut VersionGen, _entries: &Vec<u32>) -> Result<(), String> {
        Err("origin refused".to_owned())
    }
}

impl TableUpdate<u32> for Refusing {
    type Ok = ();
    type Error = String;

    fn updated(&self, _from_row: usize, _entries: &Vec<u32>, _after: &Self) -> bool {
        true
    }

    fn update(
        &mut self,
        _gen: &mut VersionGen,
        _from_row: usize,
        _entries: &Vec<u32>,
    ) -> Result<(), String> {
        Err("origin refused".to_owned())
    }
}

#[test]
fn failing_origin_keeps_every_subscriber_untouched() {
    let mut gen = VersionGen::new();
    let mut seeded = recorder();
    seeded.rows = vec![1];
    let mut fork = Fork::new(Refusing, vec![seeded, recorder()]);
    match fork.extend(&mut gen, &vec![2]) {
        Err(Error::Extend(ErrorExtend::Origin(message))) => assert_eq!(message, "origin refused"),
        _ => panic!("the origin's failure must be reported as the origin's"),
    }
    assert!(matches!(
        fork.update(&mut gen, 0, &vec![2]),
        Err(Error::Update(ErrorUpdate::Origin(_)))
    ));
    match fork.fetch(&mut gen) {
        Err(Error::Fetch(tables::fork::ErrorFetch::Origin(message))) => {
            assert_eq!(message, "fetch refused")
        }
        _ => panic!("a failed fetch must be reported as the origin's"),
    }
    assert!(fork.refresh(&mut gen).is_err());
    assert_eq!(fork.subscribers[0].rows, vec![1]);
    assert!(fork.subscribers[0].log.is_empty());
    assert!(fork.subscribers[1].log.is_empty());
}

#[test]
fn extend_owned_and_extend_one_fan_out_too() {
    let mut gen = VersionGen::new();
    let mut fork = fork_of(&mut gen, vec![], vec![recorder(), recorder()]);
    fork.extend_owned(&mut gen, vec![1, 2]).unwrap();
    fork.extend_one(&mut gen, &3).unwrap();
    fork.update_owned(&mut gen, 0, vec![7]).unwrap();
    fork.update_one(&mut gen, 2, &9).unwrap();
    assert_eq!(fork.origin.read_clones(), vec![7, 2, 9]);
    assert_eq!(fork.subscribers[1].rows, vec![1, 2, 3]);
    assert_eq!(
        fork.subscribers[1].log,
        vec![
            "extend [1, 2]".to_owned(),
            "extend [3]".to_owned(),
            "update 0 [7]".to_owned(),
            "update 2 [9]".to_owned(),
        ]
    );
}
