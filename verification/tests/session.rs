use gity::session::{SearchFeedback, SearchHandler, SearchResult};
use gity::text::str_eq;

fn bound(positions: Vec<u32>) -> SearchHandler {
    let mut session = SearchHandler::new();
    let first = positions[0];
    assert_eq!(session.step_next("fix", Some(positions)), Some(first));
    session
}

#[test]
fn k_steps_forward_come_full_circle() {
    let mut session = bound(vec![4, 9, 20]);
    assert_eq!(session.cursor(), 0);
    assert_eq!(session.step_next("fix", None), Some(9));
    assert_eq!(session.step_next("fix", None), Some(20));
    assert_eq!(session.step_next("fix", None), Some(4));
    assert_eq!(session.cursor(), 0);
}

#[test]
fn step_back_undoes_step_forward() {
    let mut session = bound(vec![4, 9, 20]);
    assert_eq!(session.step_next("fix", None), Some(9));
    assert_eq!(session.step_previous("fix", None), Some(4));
    assert_eq!(session.cursor(), 0);
    assert_eq!(session.step_previous("fix", None), Some(20));
    assert_eq!(session.step_next("fix", None), Some(4));
}

#[test]
fn one_match_stays_where_it_is() {
    let mut session = bound(vec![7]);
    assert_eq!(session.step_next("fix", None), Some(7));
    assert_eq!(session.step_previous("fix", None), Some(7));
    assert_eq!(session.cursor(), 0);
}

#[test]
fn new_query_is_resolved_and_bound() {
    let mut session = bound(vec![4, 9, 20]);
    assert_eq!(session.step_next("fix", None), Some(9));
    assert_eq!(session.step_next("add", Some(vec![1, 2])), Some(1));
    assert_eq!(session.query(), "add");
    assert_eq!(session.positions(), &vec![1, 2]);
    assert_eq!(session.step_previous("docs", Some(vec![5, 6, 8])), Some(8));
    assert_eq!(session.cursor(), 2);
}

#[test]
fn bound_session_does_not_look_at_fresh_positions() {
    let mut session = bound(vec![4, 9]);
    assert_eq!(session.step_next("fix", Some(vec![100])), Some(9));
    assert_eq!(session.positions(), &vec![4, 9]);
}

#[test]
fn empty_resolution_gives_no_position() {
    let mut session = SearchHandler::new();
    assert_eq!(session.step_next("fix", Some(Vec::new())), None);
    assert_eq!(session.query(), "fix");
    assert!(!session.is_bound_to("fix"));
    assert_eq!(session.step_next("fix", Some(vec![3])), Some(3));
    assert!(session.is_bound_to("fix"));
}

#[test]
fn failed_resolution_leaves_the_session_alone() {
    let mut session = bound(vec![4, 9]);
    assert_eq!(session.step_next("other", None), None);
    assert_eq!(session.query(), "fix");
    assert_eq!(session.step_previous("other", None), None);
    assert_eq!(session.step_next("fix", None), Some(9));
}

#[test]
fn resolver_is_called_only_when_needed() {
    let mut session = SearchHandler::new();
    let target = session.compute_next("fix", |q| {
        assert_eq!(q, "fix");
        Some(vec![2, 5])
    });
    assert_eq!(target, Some(2));
    let target = session.compute_next("fix", |_| panic!("bound: no search expected"));
    assert_eq!(target, Some(5));
    let target = session.compute_previous("fix", |_| panic!("bound: no search expected"));
    assert_eq!(target, Some(2));
    let target = session.compute_previous("new", |_| Some(vec![1, 3, 6]));
    assert_eq!(target, Some(6));
    let target = session.compute_next("gone", |_| None);
    assert_eq!(target, None);
}

#[test]
fn search_result_binds_the_session() {
    let mut session = SearchHandler::new();
    let failed = SearchResult {
        query: "fix".to_string(),
        matching_indices: Vec::new(),
        error: Some("Error reading git commits for search: x".to_string()),
    };
    assert_eq!(
        session.process_search_result_async(failed),
        SearchFeedback { match_count: None, select: None }
    );
    let empty =
        SearchResult { query: "fix".to_string(), matching_indices: Vec::new(), error: None };
    assert_eq!(
        session.process_search_result_async(empty),
        SearchFeedback { match_count: Some(0), select: None }
    );
    assert_eq!(session.query(), "");
    let found =
        SearchResult { query: "fix".to_string(), matching_indices: vec![3, 8], error: None };
    assert_eq!(
        session.process_search_result_async(found),
        SearchFeedback { match_count: Some(2), select: Some(3) }
    );
    assert_eq!(session.step_next("fix", None), Some(8));
}

#[test]
fn texts_compare_character_by_character() {
    assert!(str_eq("", ""));
    assert!(str_eq("grüße", "grüße"));
    assert!(!str_eq("fix", "Fix"));
    assert!(!str_eq("fix", "fixe"));
}
