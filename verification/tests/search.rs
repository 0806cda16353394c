use gity::commit_id::CommitId;
use gity::error::{ErrorKind, GitError};
use gity::index_cache::build_commit_index;
use gity::search::{
    find_by_prefix, find_in_index, merge_shard_results, message_contains, plan_shards,
    scan_shard, search_repository, shard_count, HashPrefix,
};
use std::sync::atomic::{AtomicBool, Ordering};
use std::sync::Arc;
use std::time::{SystemTime, UNIX_EPOCH};

fn fresh_repo(name: &str) -> (git2::Repository, String) {
    let nanos = SystemTime::now().duration_since(UNIX_EPOCH).unwrap().as_nanos();
    let path = format!("/tmp/gity-tests/search-{}-{}", name, nanos);
    let mut opts = git2::RepositoryInitOptions::new();
    opts.initial_head("main");
    (git2::Repository::init_opts(&path, &opts).unwrap(), path)
}

fn history(repo: &git2::Repository, messages: &[&str]) -> Vec<git2::Oid> {
    let mut ids: Vec<git2::Oid> = Vec::new();
    for (i, message) in messages.iter().enumerate() {
        let blob = repo.blob(format!("{}", i).as_bytes()).unwrap();
        let mut builder = repo.treebuilder(None).unwrap();
        builder.insert("f.txt", blob, 0o100644).unwrap();
        let tree = repo.find_tree(builder.write().unwrap()).unwrap();
        let sig = git2::Signature::new(
            "Ada",
            "ada@example.org",
            &git2::Time::new(1_700_000_000 + i as i64, 0),
        )
        .unwrap();
        let parents: Vec<git2::Commit> =
            ids.last().map(|p| repo.find_commit(*p).unwrap()).into_iter().collect();
        let refs: Vec<&git2::Commit> = parents.iter().collect();
        ids.push(repo.commit(Some("refs/heads/main"), &sig, &sig, message, &tree, &refs).unwrap());
    }
    ids
}

fn id_with(first: [u8; 4]) -> CommitId {
    let mut bytes = [0u8; 20];
    bytes[..4].copy_from_slice(&first);
    CommitId::from_bytes(bytes)
}

fn chars(text: &str) -> Vec<char> {
    text.chars().collect()
}

#[test]
fn six_hex_digits_are_no_hash_prefix() {
    assert_eq!(HashPrefix::parse("abc123"), None);
    assert_eq!(HashPrefix::parse(""), None);
    assert_eq!(HashPrefix::parse("abc123g"), None);
    assert_eq!(HashPrefix::parse(&"a".repeat(41)), None);
    assert!(HashPrefix::parse(&"a".repeat(40)).is_some());
}

#[test]
fn hash_prefix_is_whole_bytes_and_a_half() {
    let even = HashPrefix::parse("abcd1234").unwrap();
    assert_eq!(even.whole, vec![0xab, 0xcd, 0x12, 0x34]);
    assert_eq!(even.half, None);
    let odd = HashPrefix::parse("ABCD123").unwrap();
    assert_eq!(odd.whole, vec![0xab, 0xcd, 0x12]);
    assert_eq!(odd.half, Some(3));
}

#[test]
fn prefix_match_looks_at_the_high_half_of_the_next_byte() {
    let odd = HashPrefix::parse("abcd123").unwrap();
    assert!(odd.matches(&id_with([0xab, 0xcd, 0x12, 0x3f])));
    assert!(odd.matches(&id_with([0xab, 0xcd, 0x12, 0x30])));
    assert!(!odd.matches(&id_with([0xab, 0xcd, 0x12, 0x4f])));
    assert!(!odd.matches(&id_with([0xab, 0xcd, 0x13, 0x3f])));
    let full = HashPrefix::parse(&id_with([1, 2, 3, 4]).to_hex()).unwrap();
    assert!(full.matches(&id_with([1, 2, 3, 4])));
    assert!(!full.matches(&id_with([1, 2, 3, 5])));
}

#[test]
fn find_by_prefix_gives_ascending_positions() {
    let ids = vec![
        id_with([0xab, 0xcd, 0x12, 0x34]),
        id_with([0x00, 0x00, 0x00, 0x00]),
        id_with([0xab, 0xcd, 0x12, 0x3f]),
        id_with([0xab, 0xcd, 0x12, 0x40]),
    ];
    let prefix = HashPrefix::parse("abcd123").unwrap();
    assert_eq!(find_by_prefix(&ids, &prefix), vec![0, 2]);
    let none = HashPrefix::parse("1111111").unwrap();
    assert_eq!(find_by_prefix(&ids, &none), Vec::<u32>::new());
}

#[test]
fn message_test_ignores_case() {
    assert!(message_contains("Fix the PARSER", &chars("parser")));
    assert!(message_contains("ÄRGER im Code", &chars("ärger")));
    assert!(!message_contains("Fix the parser", &chars("lexer")));
    assert!(message_contains("anything", &chars("")));
}

#[test]
fn shard_count_is_capped_by_workers_and_by_size() {
    assert_eq!(shard_count(0, 8), 1);
    assert_eq!(shard_count(1, 8), 1);
    assert_eq!(shard_count(50_000, 8), 1);
    assert_eq!(shard_count(50_001, 8), 2);
    assert_eq!(shard_count(1_000_000, 8), 8);
    assert_eq!(shard_count(1_000_000, 64), 20);
    assert_eq!(shard_count(1_000_000, 0), 1);
}

#[test]
fn shards_are_contiguous_and_cover_the_list() {
    assert_eq!(plan_shards(0, 4), vec![(0, 0)]);
    assert_eq!(plan_shards(10, 4), vec![(0, 10)]);
    assert_eq!(plan_shards(100_001, 4), vec![(0, 33_334), (33_334, 66_668), (66_668, 100_001)]);
    let plan = plan_shards(1_234_567, 7);
    assert_eq!(plan.len(), 7);
    assert_eq!(plan[0].0, 0);
    assert_eq!(plan[6].1, 1_234_567);
    for pair in plan.windows(2) {
        assert_eq!(pair[0].1, pair[1].0);
    }
}

#[test]
fn merged_results_are_sorted_whatever_the_order_of_arrival() {
    let results = vec![Ok(vec![40, 41, 59]), Ok(vec![]), Ok(vec![3, 7]), Ok(vec![20])];
    assert_eq!(merge_shard_results(&results).unwrap(), vec![3, 7, 20, 40, 41, 59]);
    assert_eq!(merge_shard_results(&Vec::new()).unwrap(), Vec::<u32>::new());
}

#[test]
fn one_failed_shard_fails_the_search() {
    let results = vec![
        Ok(vec![1, 2]),
        Err(GitError::new(ErrorKind::Store, "disk".to_string())),
        Err(GitError::cancelled()),
        Ok(vec![9]),
    ];
    let err = merge_shard_results(&results).err().unwrap();
    assert_eq!(err.kind, ErrorKind::Store);
    assert_eq!(err.message, "disk");
}

#[test]
fn short_hex_query_is_searched_as_text() {
    let (repo, path) = fresh_repo("short-hex");
    history(&repo, &["first", "see issue ABC123 again", "third", "abc123 fixed"]);
    let ids = build_commit_index(&path, "main", None).unwrap();
    assert_eq!(ids.len(), 4);
    let hits = find_in_index(&repo, &ids, "abc123", None).unwrap();
    assert_eq!(hits.positions, vec![0, 2]);
}

#[test]
fn hash_prefix_wins_over_text() {
    let (repo, path) = fresh_repo("prefix-wins");
    let oids = history(&repo, &["one", "two", "three"]);
    let middle = oids[1].to_string();
    let query = &middle[..9];
    let reply = format!("reverts {}", query);
    let mut parents = vec![repo.find_commit(oids[2]).unwrap()];
    let tree = parents[0].tree().unwrap();
    let sig = git2::Signature::new("Ada", "a@b", &git2::Time::new(1_700_000_100, 0)).unwrap();
    let refs: Vec<&git2::Commit> = parents.iter().collect();
    repo.commit(Some("refs/heads/main"), &sig, &sig, &reply, &tree, &refs).unwrap();
    parents.clear();
    let ids = build_commit_index(&path, "main", None).unwrap();
    assert_eq!(ids.len(), 4);
    let hits = find_in_index(&repo, &ids, query, None).unwrap();
    assert_eq!(hits.positions, vec![2]);
    let upper = query.to_uppercase();
    assert_eq!(find_in_index(&repo, &ids, &upper, None).unwrap().positions, vec![2]);
    assert_eq!(find_in_index(&repo, &ids, "reverts", None).unwrap().positions, vec![0]);
}

#[test]
fn hex_shaped_query_without_id_match_falls_back_to_text() {
    let (repo, path) = fresh_repo("fallback");
    history(&repo, &["bump to deadbeef0", "other"]);
    let ids = build_commit_index(&path, "main", None).unwrap();
    let absent = ids.iter().all(|id| !id.to_hex().starts_with("deadbeef0"));
    assert!(absent);
    let hits = find_in_index(&repo, &ids, "deadbeef0", None).unwrap();
    assert_eq!(hits.positions, vec![1]);
}

#[test]
fn empty_query_finds_nothing_and_touches_nothing() {
    let flag = Arc::new(AtomicBool::new(true));
    let found = search_repository("/tmp/gity-tests/no-such-repository", "main", "", Some(&flag));
    assert_eq!(found.unwrap(), Vec::<u32>::new());
}

#[test]
fn raised_flag_cancels_a_search() {
    let (repo, path) = fresh_repo("cancelled");
    history(&repo, &["one", "two"]);
    let flag = Arc::new(AtomicBool::new(false));
    assert_eq!(search_repository(&path, "main", "o", Some(&flag)).unwrap(), vec![0, 1]);
    flag.store(true, Ordering::Relaxed);
    let err = search_repository(&path, "main", "o", Some(&flag)).err().unwrap();
    assert_eq!(err.kind, ErrorKind::Cancelled);
    let ids = build_commit_index(&path, "main", None).unwrap();
    let err = scan_shard(&repo, &ids, 0, 2, &chars("o"), Some(&flag)).err().unwrap();
    assert_eq!(err.kind, ErrorKind::Cancelled);
}

#[test]
fn search_of_a_missing_repository_fails() {
    let err = search_repository("/tmp/gity-tests/no-such-repository", "main", "x", None)
        .err()
        .unwrap();
    assert_eq!(err.kind, ErrorKind::NotARepository);
}

#[test]
fn shards_together_find_what_one_scan_finds() {
    let (repo, path) = fresh_repo("shards");
    history(&repo, &["alpha", "beta", "gamma a", "delta", "epsilon", "zeta a", "eta"]);
    let ids = build_commit_index(&path, "main", None).unwrap();
    let whole = scan_shard(&repo, &ids, 0, ids.len(), &chars("a"), None).unwrap().positions;
    let left = scan_shard(&repo, &ids, 0, 3, &chars("a"), None).map(|h| h.positions);
    let right = scan_shard(&repo, &ids, 3, ids.len(), &chars("a"), None).map(|h| h.positions);
    let merged = merge_shard_results(&vec![right, left]).unwrap();
    assert_eq!(merged, whole);
    assert_eq!(whole, vec![0, 1, 3, 4, 5, 6]);
    let few = scan_shard(&repo, &ids, 0, ids.len(), &chars("ta"), None).unwrap().positions;
    assert_eq!(few, vec![0, 1, 3, 5]);
}
