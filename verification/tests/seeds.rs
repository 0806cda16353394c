use gity::commit_id::CommitId;
use gity::query::{CommitQueryOptions, PathProbe};
use gity::seeds::{plan_seeds, split_hide, ParsedRevspec, SeedStep};
use gity::walker::{CommitWalker, Pull};
use std::time::{SystemTime, UNIX_EPOCH};

fn id(byte: u8) -> CommitId {
    CommitId::from_bytes([byte; 20])
}

fn fresh_repo(name: &str) -> git2::Repository {
    let nanos = SystemTime::now().duration_since(UNIX_EPOCH).unwrap().as_nanos();
    let path = format!("/tmp/gity-tests/seeds-{}-{}", name, nanos);
    let mut opts = git2::RepositoryInitOptions::new();
    opts.initial_head("main");
    git2::Repository::init_opts(&path, &opts).unwrap()
}

fn commit(
    repo: &git2::Repository,
    refname: &str,
    parents: &[git2::Oid],
    file: &str,
    message: &str,
    seconds: i64,
) -> git2::Oid {
    let blob = repo.blob(message.as_bytes()).unwrap();
    let base = parents.first().map(|p| repo.find_commit(*p).unwrap().tree().unwrap());
    let mut builder = repo.treebuilder(base.as_ref()).unwrap();
    builder.insert(file, blob, 0o100644).unwrap();
    let tree = repo.find_tree(builder.write().unwrap()).unwrap();
    let sig = git2::Signature::new("Ada", "ada@example.org", &git2::Time::new(seconds, 0)).unwrap();
    let commits: Vec<git2::Commit> =
        parents.iter().map(|p| repo.find_commit(*p).unwrap()).collect();
    let refs: Vec<&git2::Commit> = commits.iter().collect();
    repo.commit(Some(refname), &sig, &sig, message, &tree, &refs).unwrap()
}

#[test]
fn caret_marks_what_is_hidden() {
    assert_eq!(split_hide("^main"), Some("main".to_string()));
    assert_eq!(split_hide("^"), Some("".to_string()));
    assert_eq!(split_hide("^^x"), Some("^x".to_string()));
    assert_eq!(split_hide("main"), None);
    assert_eq!(split_hide("a^"), None);
    assert_eq!(split_hide(""), None);
}

#[test]
fn single_revision_is_pushed() {
    let parsed = ParsedRevspec { from: Some(id(1)), to: None, single: true, merge_base: false };
    assert_eq!(plan_seeds(&parsed), Some(vec![SeedStep::Push(id(1))]));
    let unresolved = ParsedRevspec { from: None, to: Some(id(2)), single: true, merge_base: false };
    assert_eq!(plan_seeds(&unresolved), None);
}

#[test]
fn range_pushes_to_and_hides_from() {
    let parsed =
        ParsedRevspec { from: Some(id(1)), to: Some(id(2)), single: false, merge_base: false };
    assert_eq!(plan_seeds(&parsed), Some(vec![SeedStep::Push(id(2)), SeedStep::Hide(id(1))]));
    let half = ParsedRevspec { from: Some(id(1)), to: None, single: false, merge_base: false };
    assert_eq!(plan_seeds(&half), None);
    let other = ParsedRevspec { from: None, to: Some(id(1)), single: false, merge_base: true };
    assert_eq!(plan_seeds(&other), None);
}

#[test]
fn three_dots_push_the_merge_base_between() {
    let parsed =
        ParsedRevspec { from: Some(id(1)), to: Some(id(2)), single: false, merge_base: true };
    assert_eq!(
        plan_seeds(&parsed),
        Some(vec![
            SeedStep::Push(id(2)),
            SeedStep::PushMergeBase(id(1), id(2)),
            SeedStep::Hide(id(1)),
        ])
    );
}

#[test]
fn three_dot_range_walks_one_side() {
    let repo = fresh_repo("three-dots");
    let base = commit(&repo, "refs/heads/main", &[], "a", "base", 1_700_000_000);
    let left = commit(&repo, "refs/heads/left", &[base], "l", "left 1", 1_700_000_100);
    let left = commit(&repo, "refs/heads/left", &[left], "l", "left 2", 1_700_000_200);
    let right = commit(&repo, "refs/heads/right", &[base], "r", "right 1", 1_700_000_300);
    let right = commit(&repo, "refs/heads/right", &[right], "r", "right 2", 1_700_000_400);
    let mut opts = CommitQueryOptions::for_branch("main");
    opts.revspecs = vec![format!("{}...{}", left, right)];
    let mut walker = CommitWalker::new(&repo, opts).unwrap();
    let (page, done) = walker.next_page(10, None).unwrap();
    let messages: Vec<&str> = page.iter().map(|c| c.message.as_str()).collect();
    assert_eq!(messages, vec!["right 2", "right 1"]);
    assert!(done);
    let mut opts = CommitQueryOptions::for_branch("main");
    opts.revspecs = vec!["left..right".to_string()];
    let mut walker = CommitWalker::new(&repo, opts).unwrap();
    let (page, _) = walker.next_page(10, None).unwrap();
    let messages: Vec<&str> = page.iter().map(|c| c.message.as_str()).collect();
    assert_eq!(messages, vec!["right 2", "right 1"]);
}

#[test]
fn pull_tells_what_the_store_answered() {
    let repo = fresh_repo("pull");
    let first = commit(&repo, "refs/heads/main", &[], "a.txt", "one", 1_700_000_000);
    commit(&repo, "refs/heads/main", &[first], "b.txt", "two", 1_700_000_100);
    let mut opts = CommitQueryOptions::for_branch("main");
    opts.pathspecs = vec!["a.txt".to_string()];
    let mut walker = CommitWalker::new(&repo, opts).unwrap();
    match walker.pull(None) {
        Pull::Candidate { facts, probe } => {
            assert_eq!(facts.message.as_deref(), Some("two"));
            assert_eq!(facts.parent_count, 1);
            assert_eq!(facts.author.name.as_deref(), Some("Ada"));
            assert_eq!(facts.committer.email.as_deref(), Some("ada@example.org"));
            assert_eq!(probe, PathProbe::Hidden);
        }
        other => panic!("expected a candidate, got {:?}", other),
    }
    match walker.pull(None) {
        Pull::Candidate { facts, probe } => {
            assert_eq!(facts.message_lossy, "one");
            assert_eq!(facts.parent_count, 0);
            assert_eq!(probe, PathProbe::Visible);
        }
        other => panic!("expected a candidate, got {:?}", other),
    }
    assert_eq!(walker.pull(None), Pull::EndOfWalk);
    let mut opts = CommitQueryOptions::for_branch("main");
    opts.pathspecs = vec!["a.txt".to_string()];
    opts.min_parents = 2;
    let mut walker = CommitWalker::new(&repo, opts).unwrap();
    match walker.pull(None) {
        Pull::Candidate { probe, .. } => assert_eq!(probe, PathProbe::NotAsked),
        other => panic!("expected a candidate, got {:?}", other),
    }
    assert!(walker.next(None).is_none());
}
