use std::collections::HashSet;

use flag_submitter::{Database, FlagStatus, MemoryStore, StoreError};

fn ids(v: &[i64]) -> HashSet<i64> {
    v.iter().copied().collect()
}

fn statuses(store: &MemoryStore, n: i64) -> Vec<FlagStatus> {
    (1..=n).map(|id| store.get(id).unwrap().status).collect()
}

#[test]
fn ids_are_assigned_in_order() {
    let mut store = MemoryStore::new();
    assert_eq!(store.add_flag(String::from("a"), 7), 1);
    assert_eq!(store.add_flag(String::from("b"), 8), 2);
    let f = store.get(2).unwrap();
    assert_eq!(f.flag, "b");
    assert_eq!(f.group, 8);
    assert_eq!(f.status, FlagStatus::Unsent);
    assert!(store.get(0).is_none());
    assert!(store.get(3).is_none());
    assert!(store.get(-1).is_none());
}

#[test]
fn unsent_flags_listed_once_each() {
    let mut store = MemoryStore::new();
    for v in ["a", "b", "c", "d"] {
        store.add_flag(String::from(v), 0);
    }
    let mut sent = ids(&[2]);
    store.set_sent_flags(&mut sent).unwrap();
    let mut invalid = ids(&[4]);
    store.set_invalid_flags(&mut invalid).unwrap();
    let flags = store.get_unsent_flags().unwrap();
    let listed: Vec<i64> = flags.iter().map(|f| f.id).collect();
    assert_eq!(listed, vec![1, 3]);
    assert_eq!(flags[1].flag, "c");
    assert!(flags.iter().all(|f| f.status == FlagStatus::Unsent));
}

#[test]
fn set_sent_twice_same_as_once() {
    let mut once = MemoryStore::new();
    let mut twice = MemoryStore::new();
    for v in ["a", "b", "c"] {
        once.add_flag(String::from(v), 0);
        twice.add_flag(String::from(v), 0);
    }
    let mut s = ids(&[1, 3]);
    once.set_sent_flags(&mut s).unwrap();
    assert!(s.is_empty());
    let mut s1 = ids(&[1, 3]);
    let mut s2 = ids(&[1, 3]);
    twice.set_sent_flags(&mut s1).unwrap();
    twice.set_sent_flags(&mut s2).unwrap();
    assert_eq!(statuses(&once, 3), statuses(&twice, 3));
    assert_eq!(
        statuses(&twice, 3),
        vec![FlagStatus::Sent, FlagStatus::Unsent, FlagStatus::Sent]
    );
}

#[test]
fn terminal_status_is_never_left() {
    let mut store = MemoryStore::new();
    store.add_flag(String::from("a"), 0);
    store.add_flag(String::from("b"), 0);
    store.set_invalid_flags(&mut ids(&[1])).unwrap();
    store.set_sent_flags(&mut ids(&[1, 2])).unwrap();
    store.set_invalid_flags(&mut ids(&[2])).unwrap();
    assert_eq!(statuses(&store, 2), vec![FlagStatus::Invalid, FlagStatus::Sent]);
}

#[test]
fn unknown_ids_are_ignored() {
    let mut store = MemoryStore::new();
    store.add_flag(String::from("a"), 0);
    store.set_sent_flags(&mut ids(&[5, 9])).unwrap();
    assert_eq!(statuses(&store, 1), vec![FlagStatus::Unsent]);
    assert!(store.get(5).is_none());
}

#[test]
fn offline_store_refuses_and_keeps_everything() {
    let mut store = MemoryStore::new();
    store.add_flag(String::from("a"), 0);
    store.set_online(false);
    let mut s = ids(&[1]);
    assert_eq!(store.set_sent_flags(&mut s), Err(StoreError::Unavailable));
    assert_eq!(store.set_invalid_flags(&mut s), Err(StoreError::Unavailable));
    assert_eq!(store.setup(), Err(StoreError::Unavailable));
    assert!(store.get_unsent_flags().is_err());
    store.set_online(true);
    assert_eq!(store.setup(), Ok(()));
    assert_eq!(statuses(&store, 1), vec![FlagStatus::Unsent]);
}

#[test]
fn status_codes_and_names() {
    assert_eq!(FlagStatus::from_code(0), Some(FlagStatus::Unsent));
    assert_eq!(FlagStatus::from_code(1), Some(FlagStatus::Sent));
    assert_eq!(FlagStatus::from_code(2), Some(FlagStatus::Invalid));
    assert_eq!(FlagStatus::from_code(3), None);
    assert_eq!(FlagStatus::from_code(-1), None);
    assert_eq!(FlagStatus::Invalid.code(), 2);
    assert_eq!(FlagStatus::Unsent.as_str(), "unsent");
    assert_eq!(FlagStatus::Sent.as_str(), "sent");
    assert_eq!(FlagStatus::Invalid.as_str(), "invalid");
    assert!(FlagStatus::Sent.is_terminal());
    assert!(!FlagStatus::Unsent.is_terminal());
}
