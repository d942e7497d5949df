use wam::addon::{Addon, AddonLock};
use wam::lock::{find_existing_lock, LockStore};

fn lock_at(key: &str, version: &str, timestamp: u64) -> AddonLock {
    AddonLock {
        name: key.to_string(),
        resolved: key.split('/').last().unwrap().to_string(),
        version: version.to_string(),
        timestamp,
    }
}

fn addon_of(provider: &str, name: &str) -> Addon {
    Addon { name: name.to_string(), provider: provider.to_string() }
}

fn keys(store: &LockStore) -> Vec<String> {
    store.entries().iter().map(|l| l.name.clone()).collect()
}

#[test]
fn first_sync_is_always_admitted() {
    let empty = LockStore::new();
    assert!(empty.admits(&lock_at("curse/weakauras", "1", 0)));
    assert!(empty.admits(&lock_at("curse/weakauras", "1", u64::MAX)));
    let store = LockStore::from_entries(&vec![lock_at("curse/dbm", "1", 5000)]);
    assert!(store.admits(&lock_at("curse/weakauras", "1", 0)));
    assert!(store.admits(&lock_at("ace/dbm", "1", 1)));
}

#[test]
fn admitted_only_when_strictly_newer() {
    let store = LockStore::from_entries(&vec![
        lock_at("curse/dbm", "1", 5000),
        lock_at("curse/weakauras", "2.5", 1000),
    ]);
    assert!(store.admits(&lock_at("curse/weakauras", "2.6", 1001)));
    assert!(!store.admits(&lock_at("curse/weakauras", "2.6", 1000)));
    assert!(!store.admits(&lock_at("curse/weakauras", "2.6", 999)));
    assert!(!store.admits(&lock_at("curse/weakauras", "2.6", 0)));
    assert!(store.admits(&lock_at("curse/weakauras", "2.5", u64::MAX)));
}

#[test]
fn version_label_is_never_compared() {
    let store = LockStore::from_entries(&vec![lock_at("curse/weakauras", "9.9", 1000)]);
    assert!(!store.admits(&lock_at("curse/weakauras", "10.0", 1000)));
    assert!(store.admits(&lock_at("curse/weakauras", "0.1", 1001)));
}

#[test]
fn merge_replaces_in_place_and_appends() {
    let store = LockStore::from_entries(&vec![
        lock_at("curse/a", "1", 10),
        lock_at("curse/b", "1", 20),
        lock_at("curse/c", "1", 30),
    ]);
    let merged = store.merge(&vec![lock_at("curse/d", "1", 5), lock_at("curse/b", "2", 25)]);
    assert_eq!(keys(&merged), vec!["curse/a", "curse/b", "curse/c", "curse/d"]);
    assert_eq!(merged.entries()[1], lock_at("curse/b", "2", 25));
    assert_eq!(merged.entries()[0], lock_at("curse/a", "1", 10));
    assert_eq!(merged.entries()[2], lock_at("curse/c", "1", 30));
    assert_eq!(merged.entries()[3], lock_at("curse/d", "1", 5));
    assert_eq!(keys(&store), vec!["curse/a", "curse/b", "curse/c"]);
    assert_eq!(store.entries()[1], lock_at("curse/b", "1", 20));
}

#[test]
fn merge_is_idempotent() {
    let store = LockStore::from_entries(&vec![lock_at("curse/a", "1", 10), lock_at("curse/b", "1", 20)]);
    let fresh = vec![
        lock_at("curse/c", "1", 1),
        lock_at("curse/a", "2", 11),
        lock_at("curse/c", "2", 2),
        lock_at("curse/a", "3", 12),
    ];
    let once = store.merge(&fresh);
    let twice = once.merge(&fresh);
    assert_eq!(once.entries(), twice.entries());
    assert_eq!(keys(&once), vec!["curse/a", "curse/b", "curse/c"]);
    assert_eq!(once.entries()[0], lock_at("curse/a", "3", 12));
    assert_eq!(once.entries()[2], lock_at("curse/c", "2", 2));
}

#[test]
fn keys_are_unique_after_merge() {
    let store = LockStore::from_entries(&vec![lock_at("curse/a", "1", 10)]);
    let merged = store.merge(&vec![
        lock_at("curse/b", "1", 1),
        lock_at("curse/b", "2", 2),
        lock_at("curse/a", "2", 11),
        lock_at("curse/b", "3", 3),
    ]);
    let mut seen = keys(&merged);
    assert_eq!(seen.len(), 2);
    seen.sort();
    seen.dedup();
    assert_eq!(seen.len(), 2);
    assert_eq!(merged.len(), 2);
}

#[test]
fn persisted_duplicates_are_folded_into_one() {
    let store = LockStore::from_entries(&vec![
        lock_at("curse/a", "1", 10),
        lock_at("curse/b", "1", 20),
        lock_at("curse/a", "2", 30),
    ]);
    assert_eq!(keys(&store), vec!["curse/a", "curse/b"]);
    assert_eq!(store.entries()[0], lock_at("curse/a", "2", 30));
}

#[test]
fn merging_nothing_changes_nothing() {
    let store = LockStore::from_entries(&vec![lock_at("curse/a", "1", 10)]);
    let merged = store.merge(&Vec::new());
    assert_eq!(merged.entries(), store.entries());
    assert_eq!(LockStore::new().len(), 0);
    assert_eq!(LockStore::new().merge(&Vec::new()).len(), 0);
}

#[test]
fn existing_lock_is_found_by_provider_and_name() {
    let store = LockStore::from_entries(&vec![
        lock_at("curse/weakauras", "2.5", 1000),
        lock_at("tukui/weakauras", "1", 7),
    ]);
    assert_eq!(
        find_existing_lock(&store, &addon_of("curse", "weakauras")),
        Some(lock_at("curse/weakauras", "2.5", 1000))
    );
    assert_eq!(
        find_existing_lock(&store, &addon_of("tukui", "weakauras")),
        Some(lock_at("tukui/weakauras", "1", 7))
    );
    assert_eq!(find_existing_lock(&store, &addon_of("ace", "weakauras")), None);
    assert_eq!(find_existing_lock(&store, &addon_of("curse", "weakaura")), None);
    assert_eq!(find_existing_lock(&LockStore::new(), &addon_of("curse", "weakauras")), None);
    assert_eq!(store.get(&"curse/weakauras".to_string()).map(|l| l.timestamp), Some(1000));
    assert_eq!(store.get(&"curse".to_string()), None);
}

#[test]
fn select_parts_stale_from_current() {
    let store = LockStore::from_entries(&vec![
        lock_at("curse/a", "1", 10),
        lock_at("curse/b", "1", 20),
    ]);
    let resolved = vec![
        (addon_of("curse", "b"), lock_at("curse/b", "1", 20)),
        (addon_of("curse", "c"), lock_at("curse/c", "1", 1)),
        (addon_of("curse", "a"), lock_at("curse/a", "2", 11)),
        (addon_of("curse", "d"), lock_at("curse/d", "1", 0)),
    ];
    let selection = store.select(&resolved);
    let stale: Vec<String> = selection.stale.iter().map(|p| p.1.name.clone()).collect();
    let current: Vec<String> = selection.current.iter().map(|p| p.1.name.clone()).collect();
    assert_eq!(stale, vec!["curse/c", "curse/a", "curse/d"]);
    assert_eq!(current, vec!["curse/b"]);
    assert_eq!(selection.stale[1].0, addon_of("curse", "a"));
    assert_eq!(selection.stale[1].1, lock_at("curse/a", "2", 11));
}

#[test]
fn admitted_locks_never_downgrade_the_store() {
    let store = LockStore::from_entries(&vec![
        lock_at("curse/a", "1", 10),
        lock_at("curse/b", "1", 20),
    ]);
    let candidates = vec![
        lock_at("curse/a", "0", 9),
        lock_at("curse/a", "2", 11),
        lock_at("curse/b", "1", 20),
        lock_at("curse/c", "1", 0),
    ];
    let admitted: Vec<AddonLock> = candidates.into_iter().filter(|l| store.admits(l)).collect();
    let merged = store.merge(&admitted);
    for old in store.entries() {
        let new = merged.get(&old.name).unwrap();
        assert!(new.timestamp >= old.timestamp);
    }
    assert_eq!(merged.get(&"curse/a".to_string()).unwrap().timestamp, 11);
    assert_eq!(merged.get(&"curse/b".to_string()).unwrap().timestamp, 20);
    assert_eq!(merged.len(), 3);
}
