use gity::logger::Logger;
use gity::numbers::{decimal_text, format_usize_with_thousands};
use gity::paging::{
    worker_step, CommitLoadRequest, CommitPagingState, SelectStep, WorkerStep, COMMIT_PAGE_SIZE,
};
use gity::recent_repos::{
    describe_repo, display_path_with_home, format_display_path, load_recent_repos,
    normalize_path, add_recent_repo, remove_recent_repo, MAX_RECENT_REPOS,
};
use gity::state::{choose_effective_ref, result_is_current, window_title, AppState};
use gity::status::{clamp_search_query, match_status_text, MAX_SEARCH_QUERY_CHARS};
use gity::text::{chars_of, comes_before, contains_chars, str_contains, text_of};
use std::time::{SystemTime, UNIX_EPOCH};

fn strings(items: &[&str]) -> Vec<String> {
    items.iter().map(|s| s.to_string()).collect()
}

#[test]
fn logger_lines() {
    assert_eq!(Logger::info_line("started"), "[INFO] started");
    assert_eq!(Logger::error_line("failed"), "failed");
    Logger::info("nothing is printed");
    Logger::error("nothing is printed");
}

#[test]
fn text_helpers_on_given_values() {
    assert_eq!(chars_of("añb"), vec!['a', 'ñ', 'b']);
    assert_eq!(text_of(&['x', 'ß', 'z']), "xßz");
    assert!(str_contains("hello world", "o w"));
    assert!(str_contains("hello", ""));
    assert!(!str_contains("hello", "hello!"));
    assert!(!str_contains("Hello", "hello"));
    assert!(contains_chars(&['a', 'a', 'b'], &['a', 'b']));
    assert!(comes_before(&['a'], &['a', 'a']));
    assert!(comes_before(&['B'], &['a']));
    assert!(!comes_before(&['a'], &['a']));
    assert!(!comes_before(&['b'], &['a', 'z']));
    assert!(comes_before(&[], &['a']));
}

#[test]
fn decimal_text_of_numbers() {
    assert_eq!(decimal_text(0), "0");
    assert_eq!(decimal_text(7), "7");
    assert_eq!(decimal_text(1203), "1203");
    assert_eq!(decimal_text(u64::MAX), "18446744073709551615");
}

#[test]
fn thousands_are_set_apart() {
    assert_eq!(format_usize_with_thousands(0), "0");
    assert_eq!(format_usize_with_thousands(999), "999");
    assert_eq!(format_usize_with_thousands(1000), "1,000");
    assert_eq!(format_usize_with_thousands(12345), "12,345");
    assert_eq!(format_usize_with_thousands(123456), "123,456");
    assert_eq!(format_usize_with_thousands(1234567), "1,234,567");
}

#[test]
fn status_line_counts_matches() {
    assert_eq!(match_status_text(None), "");
    assert_eq!(match_status_text(Some(0)), "0 matches");
    assert_eq!(match_status_text(Some(1)), "1 match");
    assert_eq!(match_status_text(Some(2)), "2 matches");
    assert_eq!(match_status_text(Some(12345)), "12,345 matches");
}

#[test]
fn query_is_cut_to_a_hundred_characters() {
    assert_eq!(clamp_search_query(""), "");
    assert_eq!(clamp_search_query("fix"), "fix");
    let long = "ä".repeat(MAX_SEARCH_QUERY_CHARS + 5);
    assert_eq!(clamp_search_query(&long), "ä".repeat(MAX_SEARCH_QUERY_CHARS));
    let exact = "x".repeat(MAX_SEARCH_QUERY_CHARS);
    assert_eq!(clamp_search_query(&exact), exact);
}

#[test]
fn trailing_slashes_are_trimmed() {
    assert_eq!(normalize_path("/home/ada/repo/"), "/home/ada/repo");
    assert_eq!(normalize_path("/home/ada/repo///"), "/home/ada/repo");
    assert_eq!(normalize_path("/home/ada/repo"), "/home/ada/repo");
    assert_eq!(normalize_path("/"), "");
    assert_eq!(normalize_path(""), "");
    assert_eq!(normalize_path("a//b/"), "a//b");
}

#[test]
fn home_is_shown_as_a_tilde() {
    assert_eq!(display_path_with_home("/home/ada/src/x", Some("/home/ada")), "~/src/x");
    assert_eq!(display_path_with_home("/home/ada", Some("/home/ada")), "~");
    assert_eq!(display_path_with_home("/srv/x", Some("/home/ada")), "/srv/x");
    assert_eq!(display_path_with_home("/srv/x", None), "/srv/x");
    let shown = format_display_path("/definitely/not/under/home");
    assert!(shown == "/definitely/not/under/home" || shown.starts_with('~'));
}

#[test]
fn opening_moves_a_repository_to_the_front() {
    let stored = strings(&["/a/", "/b", "/c//", "/b/"]);
    assert_eq!(add_recent_repo(&stored, "/c/"), strings(&["/c", "/a", "/b", "/b"]));
    assert_eq!(add_recent_repo(&stored, "/new"), strings(&["/new", "/a", "/b", "/c", "/b"]));
    assert_eq!(add_recent_repo(&Vec::new(), "/x/"), strings(&["/x"]));
    let many: Vec<String> = (0..20).map(|i| format!("/r{}", i)).collect();
    let list = add_recent_repo(&many, "/r15/");
    assert_eq!(list.len(), MAX_RECENT_REPOS);
    assert_eq!(list[0], "/r15");
    assert_eq!(list[1], "/r0");
    assert_eq!(list[11], "/r10");
}

#[test]
fn removing_drops_every_spelling_of_the_path() {
    let stored = strings(&["/a/", "/b", "/a", "/c/"]);
    assert_eq!(remove_recent_repo(&stored, "/a//"), strings(&["/b", "/c"]));
    assert_eq!(remove_recent_repo(&stored, "/zzz"), strings(&["/a", "/b", "/a", "/c"]));
}

#[test]
fn recent_entries_are_the_paths_that_still_lead_to_a_repository() {
    let nanos = SystemTime::now().duration_since(UNIX_EPOCH).unwrap().as_nanos();
    let mut paths: Vec<String> = Vec::new();
    for i in 0..14 {
        let path = format!("/tmp/gity-tests/recent-{}-{}", nanos, i);
        git2::Repository::init(&path).unwrap();
        paths.push(path);
        paths.push(format!("/tmp/gity-tests/recent-missing-{}-{}", nanos, i));
    }
    let repos = load_recent_repos(&paths);
    assert_eq!(repos.len(), MAX_RECENT_REPOS);
    for (i, repo) in repos.iter().enumerate() {
        assert_eq!(repo.path, paths[2 * i]);
        assert_eq!(repo.folder_name, format!("recent-{}-{}", nanos, i));
    }
    let one = describe_repo("/srv/git/project/");
    assert_eq!(one.folder_name, "project");
    assert_eq!(describe_repo("/").folder_name, "/");
}

#[test]
fn paging_state_asks_for_one_page_at_a_time() {
    let mut state = CommitPagingState::default();
    assert!(!state.request_next_page());
    state.begin_load(1);
    assert!(state.is_loading && !state.done && state.has_worker);
    assert!(!state.request_next_page());
    assert!(!state.accept_page(0, true));
    assert!(state.is_loading);
    assert!(state.accept_page(1, false));
    assert!(!state.is_loading);
    assert!(state.request_next_page());
    assert!(state.is_loading);
    assert!(state.accept_error(1));
    assert!(!state.is_loading);
    assert!(state.request_next_page());
    assert!(state.accept_page(1, true));
    assert!(state.done);
    assert!(!state.request_next_page());
    state.clear(2);
    assert_eq!(
        state,
        CommitPagingState { generation: 2, is_loading: false, done: true, has_worker: false }
    );
    assert!(!state.accept_page(1, false));
    assert_eq!(COMMIT_PAGE_SIZE, 200);
}

#[test]
fn selection_waits_until_the_row_is_loaded() {
    let mut state = CommitPagingState::default();
    state.begin_load(3);
    state.accept_page(3, false);
    assert_eq!(state.ensure_loaded_then_select(2, 10, 5, 0), SelectStep::Abandon);
    assert_eq!(state.ensure_loaded_then_select(3, 10, 5, 0), SelectStep::Select);
    assert_eq!(
        state.ensure_loaded_then_select(3, 10, 10, 0),
        SelectStep::Retry { request_page: true }
    );
    assert!(state.is_loading);
    assert_eq!(
        state.ensure_loaded_then_select(3, 10, 10, 1),
        SelectStep::Retry { request_page: false }
    );
    assert_eq!(state.ensure_loaded_then_select(3, 10, 10, 200), SelectStep::Abandon);
    state.accept_page(3, true);
    assert_eq!(state.ensure_loaded_then_select(3, 10, 10, 2), SelectStep::Abandon);
    state.worker_lost();
    assert!(!state.is_loading);
}

#[test]
fn worker_loads_only_for_its_own_generation() {
    assert_eq!(worker_step(CommitLoadRequest::NextPage, 4, 4), WorkerStep::LoadPage);
    assert_eq!(worker_step(CommitLoadRequest::NextPage, 5, 4), WorkerStep::Quit);
    assert_eq!(worker_step(CommitLoadRequest::Stop, 4, 4), WorkerStep::Quit);
}

#[test]
fn window_state_follows_the_open_repository() {
    let mut state = AppState::new();
    assert!(!state.is_repo_loaded());
    state.current_path = Some("/repo".to_string());
    state.current_ref = Some("main".to_string());
    assert!(state.is_repo_loaded());
    assert!(state.begin_file_dialog());
    assert!(!state.begin_file_dialog());
    state.clear_repo();
    assert!(!state.is_repo_loaded());
    assert_eq!(state.current_ref, None);
    assert!(state.file_portal_active);
    state.end_file_dialog();
    assert!(state.begin_file_dialog());
    let pick = |a: &str, ae: bool, b: &str, be: bool| {
        choose_effective_ref(a.to_string(), ae, b.to_string(), be)
    };
    assert_eq!(pick("topic", true, "main", true), "topic");
    assert_eq!(pick("topic", false, "main", true), "main");
    assert_eq!(pick("topic", false, "main", false), "HEAD");
    assert_eq!(window_title("GitY", "project"), "GitY - project");
    assert!(result_is_current("fix", "fix"));
    assert!(!result_is_current("fixes", "fix"));
    let long = "x".repeat(150);
    assert!(result_is_current(&long, &"x".repeat(100)));
}
