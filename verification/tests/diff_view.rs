use gity::diff_view::{
    build_diff_gutter_and_text, classify_line, diff_has_any_collapsed_file, expanded_by_default,
    global_gutter_chars, parse_diff_sections, parse_hunk_header, prepare_sections, toggle_label,
    truncate_to_lines, update_expand_toggle_button, DiffLineKind, DiffSection, ToggleButton,
};
use gity::lines::{blank, join_lines, parse_i64, split_lines, split_words};

fn chars(text: &str) -> Vec<char> {
    text.chars().collect()
}

fn texts(lines: Vec<Vec<char>>) -> Vec<String> {
    lines.into_iter().map(|l| l.into_iter().collect()).collect()
}

#[test]
fn lines_are_cut_as_the_standard_library_cuts_them() {
    for text in [
        "",
        "one",
        "one\n",
        "one\ntwo",
        "one\r\ntwo\r\n",
        "\n",
        "\n\n",
        "a\n\nb",
        "a\r",
        "a\r\n\rb\r",
        "\r\n",
        "x\r\r\ny",
    ] {
        let expected: Vec<String> = text.lines().map(|l| l.to_string()).collect();
        assert_eq!(texts(split_lines(&chars(text))), expected, "lines of {:?}", text);
    }
}

#[test]
fn words_are_cut_as_the_standard_library_cuts_them() {
    for text in ["", "  ", "a", " a  b\tc\n", "@@ -1,2 +3,4 @@ fn main()", "x\u{a0}y\u{3000}z", "é è"]
    {
        let expected: Vec<String> = text.split_whitespace().map(|l| l.to_string()).collect();
        assert_eq!(texts(split_words(&chars(text))), expected, "words of {:?}", text);
    }
    assert!(blank(&chars(" \t\r\n\u{2003}")));
    assert!(blank(&chars("")));
    assert!(!blank(&chars("  x ")));
}

#[test]
fn lines_are_joined_with_line_feeds() {
    assert_eq!(join_lines(&vec![]), chars(""));
    assert_eq!(join_lines(&vec![chars("a")]), chars("a"));
    assert_eq!(join_lines(&vec![chars("a"), chars(""), chars("b")]), chars("a\n\nb"));
}

#[test]
fn whole_numbers_are_read_as_the_standard_library_reads_them() {
    for text in [
        "0",
        "12",
        "+7",
        "-7",
        "-0",
        "007",
        "",
        "-",
        "+",
        "1x",
        " 1",
        "--1",
        "9223372036854775807",
        "9223372036854775808",
        "-9223372036854775808",
        "-9223372036854775809",
        "99999999999999999999999",
        "٣",
    ] {
        assert_eq!(parse_i64(&chars(text)), text.parse::<i64>().ok(), "value of {:?}", text);
    }
}

#[test]
fn hunk_header_gives_both_starts() {
    assert_eq!(parse_hunk_header(&chars("@@ -12,7 +34,8 @@ optional heading")), Some((12, 34)));
    assert_eq!(parse_hunk_header(&chars("@@ -1 +1 @@")), Some((1, 1)));
    assert_eq!(parse_hunk_header(&chars("@@ -0,0 +1,3 @@")), Some((0, 1)));
    assert_eq!(parse_hunk_header(&chars("@@ -1 +1")), None);
    assert_eq!(parse_hunk_header(&chars("@@ +1 -1 @@")), None);
    assert_eq!(parse_hunk_header(&chars("@@ -a +1 @@")), None);
    assert_eq!(parse_hunk_header(&chars(" @@ -1 +1 @@")), None);
    assert_eq!(parse_hunk_header(&chars("@@ -,3 +1 @@")), None);
    assert_eq!(parse_hunk_header(&chars("@@ --5 ++6 @@")), Some((-5, 6)));
    assert_eq!(parse_hunk_header(&chars("@@@ -1 +2 @@@")), Some((1, 2)));
}

#[test]
fn lines_are_classified_by_their_beginning() {
    assert_eq!(classify_line(&chars("@@ -1 +1 @@")), DiffLineKind::Hunk);
    assert_eq!(classify_line(&chars("diff --git a/x b/x")), DiffLineKind::Header);
    assert_eq!(classify_line(&chars("index 123..456")), DiffLineKind::Header);
    assert_eq!(classify_line(&chars("--- a/x")), DiffLineKind::Header);
    assert_eq!(classify_line(&chars("+++ b/x")), DiffLineKind::Header);
    assert_eq!(classify_line(&chars("+added")), DiffLineKind::Add);
    assert_eq!(classify_line(&chars("-removed")), DiffLineKind::Remove);
    assert_eq!(classify_line(&chars(" context")), DiffLineKind::Other);
    assert_eq!(classify_line(&chars("")), DiffLineKind::Other);
}

#[test]
fn gutter_numbers_the_lines_of_a_hunk() {
    let display = build_diff_gutter_and_text(
        "@@ -9,3 +9,4 @@ fn main\n same\n-old\n+new\n+more\n\\ No newline at end of file\n",
    );
    assert_eq!(
        display.gutter_text,
        "       \n 9  9  \n10    -\n   10 +\n   11 +\n       \n"
    );
    assert_eq!(
        display.right_text,
        "@@ -9,3 +9,4 @@ fn main\nsame\nold\nnew\nmore\n\\ No newline at end of file\n"
    );
    assert_eq!(
        display.kinds,
        vec![
            DiffLineKind::Hunk,
            DiffLineKind::Context,
            DiffLineKind::Remove,
            DiffLineKind::Add,
            DiffLineKind::Add,
            DiffLineKind::Other,
        ]
    );
    assert_eq!(display.gutter_chars, 7);
}

#[test]
fn gutter_of_text_without_hunks_has_no_numbers() {
    let display = build_diff_gutter_and_text("+a\n b\nindex 1..2\n");
    assert_eq!(display.gutter_text, "    +\n     \n     \n");
    assert_eq!(display.right_text, "a\nb\nindex 1..2\n");
    assert_eq!(
        display.kinds,
        vec![DiffLineKind::Add, DiffLineKind::Context, DiffLineKind::Header]
    );
    assert_eq!(display.gutter_chars, 5);
    let empty = build_diff_gutter_and_text("");
    assert_eq!(empty.gutter_text, "\n");
    assert_eq!(empty.right_text, "\n");
    assert!(empty.kinds.is_empty());
    assert_eq!(empty.gutter_chars, 5);
}

#[test]
fn gutter_counts_past_the_greatest_number_in_64_bits() {
    let display = build_diff_gutter_and_text("@@ -9223372036854775807 +1 @@\n-a\n-b\n");
    let expected = format!(
        "{:>19} {:>19} {}\n{:>19} {:>19} {}\n{:>19} {:>19} {}\n",
        "", "", ' ', i64::MAX, "", '-', i64::MIN, "", '-'
    );
    assert_eq!(display.gutter_text, expected);
    assert_eq!(display.gutter_chars, 41);
}

#[test]
fn patch_is_cut_into_one_section_for_each_file() {
    let diff = "diff --git a/src/a.rs b/src/a.rs\nindex 1..2 100644\n--- a/src/a.rs\n+++ b/src/a.rs\n@@ -1 +1 @@\n-x\n+y\ndiff --git a/b.txt b/b/b.txt\n@@ -0,0 +1 @@\n+z\n";
    let sections = parse_diff_sections(diff);
    assert_eq!(
        sections,
        vec![
            DiffSection { label: "src/a.rs".to_string(), text: "@@ -1 +1 @@\n-x\n+y\n".to_string() },
            DiffSection { label: "b.txt".to_string(), text: "@@ -0,0 +1 @@\n+z\n".to_string() },
        ]
    );
}

#[test]
fn sections_of_odd_patches() {
    assert!(parse_diff_sections("").is_empty());
    assert!(parse_diff_sections(" \n\t\n").is_empty());
    assert_eq!(
        parse_diff_sections("just text\n"),
        vec![DiffSection { label: "Diff".to_string(), text: "just text\n".to_string() }]
    );
    assert_eq!(
        parse_diff_sections("note\ndiff --git a/x\n+1\n"),
        vec![DiffSection { label: "Diff".to_string(), text: "note\n1\n".replace("1", "+1") }]
    );
    assert_eq!(
        parse_diff_sections("diff --git a/x b/\n"),
        vec![DiffSection { label: "Diff".to_string(), text: "\n".to_string() }]
    );
    assert_eq!(
        parse_diff_sections("Merge commit - showing diff against first parent\n\ndiff --git a/x b/x\n+1"),
        vec![DiffSection {
            label: "x".to_string(),
            text: "Merge commit - showing diff against first parent\n\n+1\n".to_string()
        }]
    );
}

#[test]
fn message_is_cut_to_its_first_lines() {
    assert_eq!(truncate_to_lines("a\nb\nc", 5), ("a\nb\nc".to_string(), false));
    assert_eq!(truncate_to_lines("a\nb\nc\n", 3), ("a\nb\nc\n".to_string(), false));
    assert_eq!(truncate_to_lines("a\nb\nc\nd", 3), ("a\nb\nc".to_string(), true));
    assert_eq!(truncate_to_lines("a\r\nb\r\nc", 2), ("a\nb".to_string(), true));
    assert_eq!(truncate_to_lines("a", 0), ("".to_string(), true));
    assert_eq!(truncate_to_lines("", 0), ("".to_string(), false));
}

#[test]
fn sections_are_prepared_with_a_common_gutter() {
    let sections = parse_diff_sections(
        "diff --git a/a b/a\n@@ -1 +1 @@\n-x\ndiff --git a/b b/b\n@@ -1200 +1200 @@\n+y\n",
    );
    let prepared = prepare_sections(sections);
    assert_eq!(prepared.len(), 2);
    assert_eq!(prepared[0].label, "a");
    assert_eq!(prepared[0].gutter_chars, 5);
    assert_eq!(prepared[1].gutter_chars, 11);
    assert_eq!(prepared[1].gutter_text, "           \n     1200 +\n");
    assert_eq!(global_gutter_chars(&prepared), 11);
    assert_eq!(global_gutter_chars(&Vec::new()), 1);
    assert!(expanded_by_default(0));
    assert!(expanded_by_default(9));
    assert!(!expanded_by_default(10));
}

#[test]
fn toggle_button_follows_the_folded_files() {
    assert_eq!(diff_has_any_collapsed_file(&[]), None);
    assert_eq!(diff_has_any_collapsed_file(&[true, true]), Some(false));
    assert_eq!(diff_has_any_collapsed_file(&[true, false, true]), Some(true));
    let dead = update_expand_toggle_button(None);
    assert_eq!(dead, ToggleButton { sensitive: false, offers_expand: true });
    assert_eq!(toggle_label(&dead), "Expand all");
    let fold = update_expand_toggle_button(Some(false));
    assert_eq!(fold, ToggleButton { sensitive: true, offers_expand: false });
    assert_eq!(toggle_label(&fold), "Collapse all");
    assert_eq!(toggle_label(&update_expand_toggle_button(Some(true))), "Expand all");
}
