use karabiner::lock::Lock;
use karabiner::state::{FREE, INIT, WAIT};

#[test]
fn lock_just_once() {
    let once = Lock::new("Lock");

    assert_eq!(*once.state(), INIT);
    assert!(once.try_lock().is_some());

    assert_eq!(*once.state(), FREE);
    assert!(once.try_lock().is_none());

    assert_eq!(*once.state(), FREE);
    assert!(once.try_lock().is_none());
}

#[test]
fn just_once_deref() {
    let once = Lock::new("Lock");
    let deref = once.get();
    assert_eq!(*once.state(), FREE, "{:?}", deref);
}

fn assert_send<T: Send>() {}

fn assert_sync<T: Sync>() {}

#[test]
fn assert_send_sync() {
    assert_send::<Lock<Vec<u8>>>();
    assert_sync::<Lock<Vec<u8>>>();
}

#[test]
fn one_claim_among_many() {
    let once = Lock::new(0u32);
    let mut claims = Vec::new();
    for _ in 0..8 {
        claims.push(once.try_lock());
    }
    assert_eq!(claims.iter().filter(|claim| claim.is_some()).count(), 1);
    assert!(claims[0].is_some());
}

#[test]
fn second_claim_gets_nothing_and_read_follows_release() {
    let once = Lock::new(5);

    let first = once.try_lock();
    assert!(first.is_some());
    assert!(once.try_lock().is_none());
    assert!(once.is_locked());
    assert_eq!(*once.state(), WAIT);

    drop(first);
    assert!(!once.is_locked());
    assert_eq!(*once.state(), FREE);
    assert_eq!(once.get(), 5);
}

#[test]
fn guard_replaces_the_value() {
    let once = Lock::new(5);
    {
        let mut guard = once.try_lock().unwrap();
        assert_eq!(guard.read(|value| *value), 5);
        assert_eq!(guard.replace(6), 5);
        assert_eq!(guard.read(|value| *value), 6);
    }
    assert_eq!(once.read(|value| *value), 6);
    assert_eq!(once.into_inner(), 6);
}

#[test]
fn read_settles_an_untouched_lock() {
    let once = Lock::new(String::from("kept"));
    assert_eq!(once.read(|value| value.len()), 4);
    assert_eq!(*once.state(), FREE);
    assert!(once.try_lock().is_none());
    assert_eq!(once.read(|value| value.clone()), "kept");
}

#[test]
fn wait_returns_at_once_without_a_claim() {
    let once = Lock::new(1);
    once.wait();
    assert_eq!(*once.state(), INIT);
    assert!(!once.is_locked());

    drop(once.try_lock());
    once.wait();
    assert_eq!(*once.state(), FREE);
}

#[test]
fn sole_owner_replaces_the_value() {
    let mut once = Lock::new(1);
    assert_eq!(once.replace(2), Ok(1));
    assert_eq!(once.replace(3), Ok(2));
    assert_eq!(once.into_inner(), 3);
}

#[test]
fn sole_owner_is_refused_while_a_claim_is_marked() {
    let mut once = Lock::new(1);
    std::mem::forget(once.try_lock());
    assert_eq!(*once.state(), WAIT);
    assert_eq!(once.replace(2), Err(2));
    assert_eq!(once.into_inner(), 1);
}

#[test]
fn into_inner_gives_the_value_back() {
    assert_eq!(Lock::new(vec![1, 2, 3]).into_inner(), vec![1, 2, 3]);
}

#[test]
fn default_lock_is_untouched() {
    let once: Lock<u64> = Lock::default();
    assert_eq!(*once.state(), INIT);
    assert_eq!(once.into_inner(), 0);
}

#[test]
fn guard_changes_the_value_in_place() {
    let once = Lock::new(5);
    {
        let mut guard = once.try_lock().unwrap();
        guard.update(|value| value + 1);
        assert_eq!(guard.read(|value| *value), 6);
        guard.update(|value| value * 10);
    }
    assert_eq!(once.get(), 60);
}

#[test]
fn sole_owner_changes_the_value_in_place() {
    let mut once = Lock::new(String::from("a"));
    assert!(once.update(|mut text| {
        text.push('b');
        text
    }));
    assert_eq!(*once.state(), INIT);
    assert_eq!(once.read(|text| text.clone()), "ab");
    assert!(once.update(|text| text + "c"));
    assert_eq!(once.into_inner(), "abc");
}

#[test]
fn sole_owner_changes_nothing_while_a_claim_is_marked() {
    let mut once = Lock::new(1);
    std::mem::forget(once.try_lock());
    let mut calls = 0;
    assert!(!once.update(|value| {
        calls += 1;
        value + 1
    }));
    assert_eq!(calls, 0);
    assert_eq!(once.into_inner(), 1);
}

#[test]
fn a_write_under_the_claim_is_what_readers_find() {
    let once = Lock::new(5);
    {
        let mut guard = once.try_lock().unwrap();
        assert_eq!(guard.replace(8), 5);
        assert!(once.is_locked());
    }
    assert!(!once.is_locked());
    assert_eq!(once.get(), 8);
    assert_eq!(once.get(), 8);
}
