use gity::error::{ErrorKind, GitError};
use gity::session::{describe_search_error, SearchHandler};
use std::sync::atomic::AtomicBool;
use std::sync::Arc;
use std::time::{SystemTime, UNIX_EPOCH};

fn fresh_repo(name: &str, messages: &[&str]) -> String {
    let nanos = SystemTime::now().duration_since(UNIX_EPOCH).unwrap().as_nanos();
    let path = format!("/tmp/gity-tests/session-{}-{}", name, nanos);
    let mut opts = git2::RepositoryInitOptions::new();
    opts.initial_head("main");
    let repo = git2::Repository::init_opts(&path, &opts).unwrap();
    let mut last: Option<git2::Oid> = None;
    for (i, message) in messages.iter().enumerate() {
        let blob = repo.blob(format!("{}", i).as_bytes()).unwrap();
        let mut builder = repo.treebuilder(None).unwrap();
        builder.insert("f", blob, 0o100644).unwrap();
        let tree = repo.find_tree(builder.write().unwrap()).unwrap();
        let sig =
            git2::Signature::new("Ada", "a@b", &git2::Time::new(1_700_000_000 + i as i64, 0))
                .unwrap();
        let parents: Vec<git2::Commit> =
            last.map(|p| repo.find_commit(p).unwrap()).into_iter().collect();
        let refs: Vec<&git2::Commit> = parents.iter().collect();
        last = Some(
            repo.commit(Some("refs/heads/main"), &sig, &sig, message, &tree, &refs).unwrap(),
        );
    }
    path
}

#[test]
fn matches_in_a_repository_are_positions_of_the_walk() {
    let path = fresh_repo("find", &["Fix a", "add b", "fix c", "Add d", "FIX e"]);
    assert_eq!(
        SearchHandler::find_matching_indices_in_repo(&path, "main", "fix"),
        Ok(vec![0, 2, 4])
    );
    assert_eq!(
        SearchHandler::find_matching_indices_in_repo(&path, "HEAD", "ADD"),
        Ok(vec![1, 3])
    );
    assert_eq!(SearchHandler::find_matching_indices_in_repo(&path, "main", ""), Ok(vec![]));
    assert_eq!(SearchHandler::find_matching_indices_in_repo(&path, "main", "zzz"), Ok(vec![]));
}

#[test]
fn failed_search_is_told_in_words() {
    let missing = "/tmp/gity-tests/no-such-repository";
    let err = SearchHandler::find_matching_indices_in_repo(missing, "main", "x").unwrap_err();
    assert!(err.starts_with("Error reading git commits for search: "));
    let path = fresh_repo("words", &["one"]);
    let err = SearchHandler::find_matching_indices_in_repo(&path, "absent", "x").unwrap_err();
    assert!(err.starts_with("Error reading git commits for search: "));
    let raised = Arc::new(AtomicBool::new(true));
    assert_eq!(
        SearchHandler::find_matching_indices_in_repo_cancelable(&path, "main", "x", Some(raised)),
        Err("Cancelled".to_string())
    );
    assert_eq!(describe_search_error(&GitError::cancelled()), "Cancelled");
    assert_eq!(
        describe_search_error(&GitError::new(ErrorKind::Store, "broken".to_string())),
        "Error reading git commits for search: broken"
    );
}

#[test]
fn search_that_runs_to_its_end_hands_over_its_result() {
    let path = fresh_repo("perform", &["fix a", "add b", "fix c"]);
    let result =
        SearchHandler::perform_search_cancelable(&path, Some("main"), "fix", None).unwrap();
    assert_eq!(result.query, "fix");
    assert_eq!(result.matching_indices, vec![0, 2]);
    assert_eq!(result.error, None);
    let by_head = SearchHandler::perform_search_cancelable(&path, None, "add", None).unwrap();
    assert_eq!(by_head.matching_indices, vec![1]);
    let failed =
        SearchHandler::perform_search_cancelable(&path, Some("absent"), "fix", None).unwrap();
    assert!(failed.matching_indices.is_empty());
    assert!(failed.error.unwrap().starts_with("Error reading git commits for search: "));
    let raised = Arc::new(AtomicBool::new(true));
    assert_eq!(
        SearchHandler::perform_search_cancelable(&path, Some("main"), "fix", Some(raised)),
        None
    );
}

#[test]
fn stepping_searches_the_repository_once_for_each_query() {
    let path = fresh_repo("step", &["fix a", "add b", "fix c", "fix d"]);
    let mut session = SearchHandler::new();
    assert_eq!(session.compute_next_match_index("fix".to_string(), &path, "main"), Some(0));
    assert_eq!(session.compute_next_match_index("fix".to_string(), &path, "main"), Some(1));
    assert_eq!(session.compute_next_match_index("fix".to_string(), "/gone", "main"), Some(3));
    assert_eq!(session.compute_next_match_index("fix".to_string(), "/gone", "main"), Some(0));
    assert_eq!(session.compute_previous_match_index("fix".to_string(), "/gone", "main"), Some(3));
    assert_eq!(session.compute_previous_match_index("add".to_string(), &path, "main"), Some(2));
    assert_eq!(session.positions(), &vec![2]);
    assert_eq!(session.compute_next_match_index("none".to_string(), &path, "main"), None);
    assert_eq!(session.query(), "none");
    assert_eq!(session.compute_next_match_index("fix".to_string(), "/gone", "main"), None);
    assert_eq!(session.query(), "none");
    assert_eq!(session.compute_previous_match_index("fix".to_string(), &path, "main"), Some(3));
    assert_eq!(session.cursor(), 2);
}
