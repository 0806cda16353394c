use gity::branches::{
    choose_selected_branch, compare_branches, format_time_ago, index_of_branch, natural_compare,
    sort_branches, time_ago_text, NaturalOrder,
};
use gity::git::BranchInfo;
use gity::query::CommitTime;
use gity::state::{metadata_label, repo_error_detail};
use std::cmp::Ordering;

fn with_iterators(a: &str, b: &str) -> Ordering {
    let mut a_chars = a.chars().peekable();
    let mut b_chars = b.chars().peekable();
    loop {
        match (a_chars.peek().is_none(), b_chars.peek().is_none()) {
            (true, true) => return Ordering::Equal,
            (true, false) => return Ordering::Less,
            (false, true) => return Ordering::Greater,
            (false, false) => {}
        }
        let a_digit = a_chars.peek().map(|c| c.is_ascii_digit()).unwrap_or(false);
        let b_digit = b_chars.peek().map(|c| c.is_ascii_digit()).unwrap_or(false);
        if a_digit && b_digit {
            let a_num: String = a_chars.by_ref().take_while(|c| c.is_ascii_digit()).collect();
            let b_num: String = b_chars.by_ref().take_while(|c| c.is_ascii_digit()).collect();
            let a_val: u64 = a_num.parse().unwrap_or(0);
            let b_val: u64 = b_num.parse().unwrap_or(0);
            match a_val.cmp(&b_val) {
                Ordering::Equal => continue,
                other => return other,
            }
        } else {
            let x = a_chars.next().unwrap();
            let y = b_chars.next().unwrap();
            match x.to_ascii_lowercase().cmp(&y.to_ascii_lowercase()) {
                Ordering::Equal => match x.cmp(&y) {
                    Ordering::Equal => continue,
                    other => return other,
                },
                other => return other,
            }
        }
    }
}

fn as_ordering(order: NaturalOrder) -> Ordering {
    match order {
        NaturalOrder::Less => Ordering::Less,
        NaturalOrder::Equal => Ordering::Equal,
        NaturalOrder::Greater => Ordering::Greater,
    }
}

fn branch(name: &str, seconds: i64) -> BranchInfo {
    BranchInfo {
        name: name.to_string(),
        latest_commit_time: CommitTime { seconds, offset_minutes: 0 },
    }
}

#[test]
fn natural_order_reads_numbers_as_numbers() {
    assert_eq!(natural_compare("branch-2", "branch-10"), NaturalOrder::Less);
    assert_eq!(natural_compare("branch-10", "branch-2"), NaturalOrder::Greater);
    assert_eq!(natural_compare("v1.9", "v1.10"), NaturalOrder::Less);
    assert_eq!(natural_compare("007", "7"), NaturalOrder::Equal);
    assert_eq!(natural_compare("", ""), NaturalOrder::Equal);
    assert_eq!(natural_compare("", "a"), NaturalOrder::Less);
    assert_eq!(natural_compare("a", ""), NaturalOrder::Greater);
    assert_eq!(natural_compare("Alpha", "alpha"), NaturalOrder::Less);
    assert_eq!(natural_compare("alpha", "Beta"), NaturalOrder::Less);
    assert_eq!(natural_compare("a1b", "a1c"), NaturalOrder::Equal);
    assert_eq!(natural_compare("99999999999999999999", "1"), NaturalOrder::Less);
}

#[test]
fn natural_order_agrees_with_reading_by_iterators() {
    let names = [
        "", "a", "A", "b", "main", "Main", "feature", "feature-1", "feature-2", "feature-10",
        "feature-10a", "feature-10b", "feature-010", "1", "2", "10", "01", "1a", "1b", "a1", "a2",
        "a10", "a1b2", "a1c2", "a1b10", "release/1.2", "release/1.10", "release/1.2.3", "x9y",
        "x09y", "x9", "18446744073709551615", "18446744073709551616", "0", "00", "é1", "é2",
        "fix/ünïcode", "z", "Z9", "z09", "9z", "-", "--", "-1", "-2",
    ];
    for a in names {
        for b in names {
            assert_eq!(
                as_ordering(natural_compare(a, b)),
                with_iterators(a, b),
                "{:?} against {:?}",
                a,
                b
            );
        }
    }
}

#[test]
fn main_comes_first() {
    assert_eq!(compare_branches("main", "main"), NaturalOrder::Equal);
    assert_eq!(compare_branches("main", "a"), NaturalOrder::Less);
    assert_eq!(compare_branches("a", "main"), NaturalOrder::Greater);
    assert_eq!(compare_branches("b2", "b10"), NaturalOrder::Less);
    assert_eq!(compare_branches("Main", "main"), NaturalOrder::Greater);
}

#[test]
fn branches_are_sorted_with_main_first_and_ties_in_order() {
    let input = vec![
        branch("topic-10", 1),
        branch("zeta", 2),
        branch("topic-2", 3),
        branch("main", 4),
        branch("Alpha", 5),
        branch("topic-02", 6),
        branch("alpha", 7),
    ];
    let sorted = sort_branches(&input);
    let names: Vec<&str> = sorted.iter().map(|b| b.name.as_str()).collect();
    assert_eq!(names, vec!["main", "Alpha", "alpha", "topic-2", "topic-02", "topic-10", "zeta"]);
    assert_eq!(sorted[3].latest_commit_time.seconds, 3);
    assert_eq!(sorted[4].latest_commit_time.seconds, 6);
    let mut expected = input.clone();
    expected.sort_by(|a, b| match (a.name == "main", b.name == "main") {
        (true, true) => Ordering::Equal,
        (true, false) => Ordering::Less,
        (false, true) => Ordering::Greater,
        (false, false) => with_iterators(&a.name, &b.name),
    });
    assert_eq!(sorted, expected);
    assert!(sort_branches(&[]).is_empty());
}

#[test]
fn age_in_words() {
    assert_eq!(time_ago_text(-5), "just now");
    assert_eq!(time_ago_text(0), "just now");
    assert_eq!(time_ago_text(59), "just now");
    assert_eq!(time_ago_text(60), "1m");
    assert_eq!(time_ago_text(3_599), "59m");
    assert_eq!(time_ago_text(3_600), "1h");
    assert_eq!(time_ago_text(86_399), "23h");
    assert_eq!(time_ago_text(86_400), "1d");
    assert_eq!(time_ago_text(6 * 86_400 + 5), "6d");
    assert_eq!(time_ago_text(7 * 86_400), "1w");
    assert_eq!(time_ago_text(29 * 86_400), "4w");
    assert_eq!(time_ago_text(30 * 86_400), "1mo");
    assert_eq!(time_ago_text(359 * 86_400), "11mo");
    assert_eq!(time_ago_text(360 * 86_400), "0y");
    assert_eq!(time_ago_text(365 * 86_400), "1y");
    assert_eq!(time_ago_text(800 * 86_400), "2y");
    assert_eq!(time_ago_text(i64::MAX), "292471208677y");
}

#[test]
fn age_counts_from_the_wall_clock_of_the_commit() {
    let then = CommitTime { seconds: 1_700_000_000, offset_minutes: 0 };
    assert_eq!(format_time_ago(1_700_000_000 + 7_200, &then), "2h");
    let east = CommitTime { seconds: 1_700_000_000, offset_minutes: 60 };
    assert_eq!(format_time_ago(1_700_000_000 + 7_200, &east), "1h");
    let west = CommitTime { seconds: 1_700_000_000, offset_minutes: -60 };
    assert_eq!(format_time_ago(1_700_000_000 + 7_200, &west), "3h");
    assert_eq!(format_time_ago(0, &then), "just now");
    let far = CommitTime { seconds: i64::MIN, offset_minutes: -1 };
    assert_eq!(format_time_ago(i64::MAX, &far), "292471208677y");
}

#[test]
fn selected_row_prefers_what_was_selected() {
    let names: Vec<String> =
        ["main", "dev", "topic", "dev"].iter().map(|s| s.to_string()).collect();
    assert_eq!(choose_selected_branch(&names, Some("topic"), Some("dev")), Some(2));
    assert_eq!(choose_selected_branch(&names, None, Some("dev")), Some(1));
    assert_eq!(choose_selected_branch(&names, Some("gone"), Some("dev")), Some(0));
    assert_eq!(choose_selected_branch(&names, None, None), Some(0));
    let others: Vec<String> = ["b", "a"].iter().map(|s| s.to_string()).collect();
    assert_eq!(choose_selected_branch(&others, None, Some("zzz")), Some(0));
    assert_eq!(choose_selected_branch(&others, Some("a"), None), Some(1));
    assert_eq!(choose_selected_branch(&Vec::new(), Some("a"), Some("b")), None);
    assert_eq!(index_of_branch(&names, "dev"), Some(1));
    assert_eq!(index_of_branch(&names, "Dev"), None);
}

#[test]
fn labels_of_the_window() {
    assert_eq!(
        metadata_label("Ada", "ada@example.org", "Nov 14, 2023 22:13", "abc123"),
        "Ada <ada@example.org> - Nov 14, 2023 22:13 - abc123"
    );
    assert_eq!(
        repo_error_detail("/tmp/x", "could not find repository"),
        "\u{201c}/tmp/x\u{201d} is not a Git repository.\n\ncould not find repository"
    );
}
