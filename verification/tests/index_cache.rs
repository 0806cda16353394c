use gity::commit_id::CommitId;
use gity::error::{ErrorKind, GitError};
use gity::index_cache::{Admission, CacheEntry, CacheKey, Settlement};
use std::sync::Arc;

fn ids(n: u8) -> Vec<CommitId> {
    (0..n).map(|i| CommitId::from_bytes([i; 20])).collect()
}

fn build_generation(told: Admission) -> u64 {
    match told {
        Admission::Build { generation } => generation,
        _ => panic!("expected to be told to build"),
    }
}

#[test]
fn many_arrivals_cause_one_build_and_share_one_list() {
    let key = CacheKey::new("/repo", "main");
    let mut entry = CacheEntry::new();
    let generation = build_generation(entry.arrive(&key));
    for _ in 0..9 {
        assert!(matches!(entry.arrive(&key), Admission::Wait));
    }
    let stored = match entry.settle(&key, generation, Ok(ids(3))) {
        Settlement::Stored(list) => list,
        _ => panic!("expected the list to be stored"),
    };
    assert_eq!(*stored, ids(3));
    for _ in 0..9 {
        match entry.wake(&key) {
            Admission::Ready(list) => assert!(Arc::ptr_eq(&list, &stored)),
            _ => panic!("expected the finished list"),
        }
    }
    match entry.arrive(&key) {
        Admission::Ready(list) => assert_eq!(*list, ids(3)),
        _ => panic!("expected the finished list"),
    }
    assert!(!entry.is_building());
    assert!(entry.has_ids());
}

#[test]
fn change_of_key_discards_the_build_in_flight() {
    let old_key = CacheKey::new("/repo", "main");
    let new_key = CacheKey::new("/repo", "topic");
    let mut entry = CacheEntry::new();
    let old_generation = build_generation(entry.arrive(&old_key));
    let new_generation = build_generation(entry.arrive(&new_key));
    assert_eq!(new_generation, old_generation + 1);
    assert!(matches!(entry.arrive(&new_key), Admission::Wait));
    assert!(matches!(entry.settle(&old_key, old_generation, Ok(ids(5))), Settlement::Stale));
    assert!(!entry.has_ids());
    assert!(entry.is_building());
    assert!(matches!(entry.arrive(&new_key), Admission::Wait));
    assert!(matches!(entry.settle(&new_key, new_generation, Ok(ids(2))), Settlement::Stored(_)));
    match entry.arrive(&new_key) {
        Admission::Ready(list) => assert_eq!(*list, ids(2)),
        _ => panic!("expected the finished list"),
    }
}

#[test]
fn generation_counts_changes_of_key() {
    let mut entry = CacheEntry::new();
    assert_eq!(entry.generation(), 0);
    entry.arrive(&CacheKey::new("/a", "main"));
    assert_eq!(entry.generation(), 1);
    entry.arrive(&CacheKey::new("/a", "main"));
    assert_eq!(entry.generation(), 1);
    entry.arrive(&CacheKey::new("/b", "main"));
    assert_eq!(entry.generation(), 2);
    entry.arrive(&CacheKey::new("/b", "dev"));
    assert_eq!(entry.generation(), 3);
}

#[test]
fn failure_reaches_waiters_and_is_not_cached() {
    let key = CacheKey::new("/repo", "main");
    let mut entry = CacheEntry::new();
    let generation = build_generation(entry.arrive(&key));
    assert!(matches!(entry.arrive(&key), Admission::Wait));
    let failure = GitError::new(ErrorKind::Store, "unreadable".to_string());
    match entry.settle(&key, generation, Err(failure.clone())) {
        Settlement::Failed(e) => assert_eq!(e, failure),
        _ => panic!("expected the failure"),
    }
    match entry.wake(&key) {
        Admission::Failed(e) => assert_eq!(e, failure),
        _ => panic!("expected the failure of the build waited for"),
    }
    assert_eq!(build_generation(entry.arrive(&key)), generation);
    assert!(matches!(entry.wake(&key), Admission::Wait));
    assert!(matches!(entry.settle(&key, generation, Ok(ids(1))), Settlement::Stored(_)));
    assert!(matches!(entry.wake(&key), Admission::Ready(_)));
}

#[test]
fn cancelled_build_does_not_poison_the_cache() {
    let key = CacheKey::new("/repo", "main");
    let mut entry = CacheEntry::new();
    let generation = build_generation(entry.arrive(&key));
    assert!(matches!(
        entry.settle(&key, generation, Err(GitError::cancelled())),
        Settlement::Failed(_)
    ));
    assert!(!entry.is_building());
    assert!(!entry.has_ids());
    assert!(matches!(entry.arrive(&key), Admission::Build { .. }));
}

#[test]
fn settling_twice_is_stale() {
    let key = CacheKey::new("/repo", "main");
    let mut entry = CacheEntry::new();
    let generation = build_generation(entry.arrive(&key));
    assert!(matches!(entry.settle(&key, generation, Ok(ids(1))), Settlement::Stored(_)));
    assert!(matches!(entry.settle(&key, generation, Ok(ids(4))), Settlement::Stale));
    match entry.arrive(&key) {
        Admission::Ready(list) => assert_eq!(*list, ids(1)),
        _ => panic!("expected the finished list"),
    }
}

#[test]
fn keys_compare_by_path_and_ref() {
    let a = CacheKey::new("/repo", "main");
    assert!(a.same(&CacheKey::new("/repo", "main")));
    assert!(!a.same(&CacheKey::new("/repo", "Main")));
    assert!(!a.same(&CacheKey::new("/other", "main")));
    assert_eq!(a.duplicate(), a);
}
