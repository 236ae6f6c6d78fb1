use tables::clock::Clock;
use tables::in_mem::InMemTable;
use tables::version::VersionGen;
use tables::{Table, TableExtend, TableRead, TableVersion};

/// A component that counts how often it is asked for its version.
struct Counted {
    version: u64,
    looks: usize,
    fail: bool,
}

impl Table for Counted {
    fn inv(&self) -> bool {
        true
    }
}

impl TableVersion for Counted {
    type Error = String;

    fn versioned(&self, _after: &Self, _version: u64) -> bool {
        true
    }

    fn version(&mut self, _gen: &mut VersionGen) -> Result<u64, String> {
        self.looks += 1;
        if self.fail {
            Err("no answer".to_owned())
        } else {
            Ok(self.version)
        }
    }
}

#[test]
fn clock_asks_at_most_once_per_time_to_live() {
    let mut gen = VersionGen::starting_at(40);
    let inner = Counted { version: 7, looks: 0, fail: false };
    let mut clock = Clock::new_at(&mut gen, inner, 1000, 0);

    assert_eq!(clock.version_at(&mut gen, 500).unwrap(), 40);
    assert_eq!(clock.version_at(&mut gen, 1000).unwrap(), 40);
    assert_eq!(clock.inner().looks, 0);

    assert_eq!(clock.version_at(&mut gen, 1001).unwrap(), 7);
    assert_eq!(clock.inner().looks, 1);

    assert_eq!(clock.version_at(&mut gen, 1500).unwrap(), 7);
    assert_eq!(clock.version_at(&mut gen, 2001).unwrap(), 7);
    assert_eq!(clock.inner().looks, 1);

    assert_eq!(clock.version_at(&mut gen, 2002).unwrap(), 7);
    assert_eq!(clock.inner().looks, 2);
}

#[test]
fn clock_expiry_is_strict_and_does_not_overflow() {
    let mut gen = VersionGen::new();
    let inner = Counted { version: 1, looks: 0, fail: false };
    let clock = Clock::new_at(&mut gen, inner, 10, i64::MIN);
    assert!(!clock.is_expired(i64::MIN + 10));
    assert!(clock.is_expired(i64::MIN + 11));
    assert!(clock.is_expired(i64::MAX));
}

#[test]
fn clock_keeps_the_last_version_when_the_inner_fails() {
    let mut gen = VersionGen::starting_at(3);
    let inner = Counted { version: 9, looks: 0, fail: true };
    let mut clock = Clock::new_at(&mut gen, inner, 5, 0);
    assert_eq!(clock.version_at(&mut gen, 100), Err("no answer".to_owned()));
    assert_eq!(clock.version_at(&mut gen, 101), Err("no answer".to_owned()));
    assert_eq!(clock.inner().looks, 2);
    assert_eq!(clock.version_at(&mut gen, 5).unwrap(), 3);
}

#[test]
fn clock_passes_writes_and_reads_through() {
    let mut gen = VersionGen::new();
    let table: InMemTable<u8> = InMemTable::new(&mut gen, vec![1]);
    let mut clock = Clock::new(&mut gen, table, 60_000);
    clock.extend(&mut gen, &vec![2, 3]).unwrap();
    assert_eq!(clock.read().unwrap(), vec![&1, &2, &3]);
    let reported = clock.version(&mut gen).unwrap();
    assert_eq!(reported, clock.version(&mut gen).unwrap());
}
