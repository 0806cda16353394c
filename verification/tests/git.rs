use gity::clock::format_datetime;
use gity::commit_id::CommitId;
use gity::error::ErrorKind;
use gity::git::{
    branch_exists, branch_of_head, checked_out_branch_name, choose_default_ref,
    default_branch_ref, discover_repository_root, get_commit_diff, get_commit_metadata,
    get_local_branches, get_tag_list, kept_branch, kept_tag, render_patch, root_of,
    tag_short_name, validate_repository, BranchInfo, TagInfo,
};
use gity::query::{difference_touches, CommitTime};
use gity::tags::{commit_of_tag, get_tags, group_tags, insert_sorted};
use std::time::{SystemTime, UNIX_EPOCH};

fn fresh_repo(name: &str, head: &str) -> (git2::Repository, String) {
    let nanos = SystemTime::now().duration_since(UNIX_EPOCH).unwrap().as_nanos();
    let path = format!("/tmp/gity-tests/git-{}-{}", name, nanos);
    let mut opts = git2::RepositoryInitOptions::new();
    opts.initial_head(head);
    (git2::Repository::init_opts(&path, &opts).unwrap(), path)
}

fn commit(
    repo: &git2::Repository,
    refname: &str,
    parents: &[git2::Oid],
    files: &[(&str, &str)],
    message: &str,
    seconds: i64,
    offset: i32,
) -> git2::Oid {
    let base = parents.first().map(|p| repo.find_commit(*p).unwrap().tree().unwrap());
    let mut builder = repo.treebuilder(base.as_ref()).unwrap();
    for (name, content) in files {
        let blob = repo.blob(content.as_bytes()).unwrap();
        builder.insert(name, blob, 0o100644).unwrap();
    }
    let tree = repo.find_tree(builder.write().unwrap()).unwrap();
    let sig =
        git2::Signature::new("Ada Lovelace", "ada@example.org", &git2::Time::new(seconds, offset))
            .unwrap();
    let commits: Vec<git2::Commit> =
        parents.iter().map(|p| repo.find_commit(*p).unwrap()).collect();
    let refs: Vec<&git2::Commit> = commits.iter().collect();
    repo.commit(Some(refname), &sig, &sig, message, &tree, &refs).unwrap()
}

fn id_of(oid: git2::Oid) -> CommitId {
    CommitId::from_hex(&oid.to_string()).unwrap()
}

#[test]
fn repository_is_validated_and_discovered() {
    let (_repo, path) = fresh_repo("validate", "main");
    assert!(validate_repository(&path).is_ok());
    let err = validate_repository("/tmp/gity-tests/no-such-repository").err().unwrap();
    assert_eq!(err.kind, ErrorKind::NotARepository);
    let inside = format!("{}/.git/refs", path);
    assert_eq!(discover_repository_root(&inside), Some(format!("{}/", path)));
    assert_eq!(discover_repository_root("/tmp/gity-tests/no-such-repository/x"), None);
}

#[test]
fn default_ref_prefers_the_checked_out_branch() {
    let (repo, path) = fresh_repo("default-current", "work");
    let first = commit(&repo, "refs/heads/work", &[], &[("a", "1")], "one", 1_700_000_000, 0);
    commit(&repo, "refs/heads/main", &[first], &[("a", "2")], "two", 1_700_000_100, 0);
    assert_eq!(checked_out_branch_name(&path), Some("work".to_string()));
    assert_eq!(default_branch_ref(&path), "work");
    assert!(branch_exists(&path, "main"));
    assert!(branch_exists(&path, "work"));
    assert!(!branch_exists(&path, "absent"));
}

#[test]
fn default_ref_falls_back_to_main_and_then_head() {
    let (repo, path) = fresh_repo("default-main", "main");
    let first = commit(&repo, "refs/heads/main", &[], &[("a", "1")], "one", 1_700_000_000, 0);
    repo.set_head_detached(first).unwrap();
    assert_eq!(checked_out_branch_name(&path), None);
    assert_eq!(default_branch_ref(&path), "main");
    let (repo, path) = fresh_repo("default-head", "trunk");
    let first = commit(&repo, "refs/heads/trunk", &[], &[("a", "1")], "one", 1_700_000_000, 0);
    repo.set_head_detached(first).unwrap();
    assert_eq!(default_branch_ref(&path), "HEAD");
    assert_eq!(default_branch_ref("/tmp/gity-tests/no-such-repository"), "HEAD");
    assert!(!branch_exists("/tmp/gity-tests/no-such-repository", "main"));
}

#[test]
fn default_ref_choice_on_given_values() {
    assert_eq!(choose_default_ref(Some("dev".to_string()), true, true), "dev");
    assert_eq!(choose_default_ref(Some("dev".to_string()), false, true), "main");
    assert_eq!(choose_default_ref(Some("dev".to_string()), false, false), "HEAD");
    assert_eq!(choose_default_ref(None, true, false), "HEAD");
    assert_eq!(choose_default_ref(None, false, true), "main");
}

#[test]
fn local_branches_come_with_the_time_of_their_tip() {
    let (repo, path) = fresh_repo("branches", "main");
    let first = commit(&repo, "refs/heads/main", &[], &[("a", "1")], "one", 1_700_000_000, 60);
    commit(&repo, "refs/heads/topic", &[first], &[("a", "2")], "two", 1_700_000_500, -120);
    let mut branches = get_local_branches(&path).unwrap();
    branches.sort_by(|a, b| a.name.cmp(&b.name));
    assert_eq!(branches.len(), 2);
    assert_eq!(branches[0].name, "main");
    assert_eq!(
        branches[0].latest_commit_time,
        CommitTime { seconds: 1_700_000_000, offset_minutes: 60 }
    );
    assert_eq!(branches[1].name, "topic");
    assert_eq!(
        branches[1].latest_commit_time,
        CommitTime { seconds: 1_700_000_500, offset_minutes: -120 }
    );
    let err = get_local_branches("/tmp/gity-tests/no-such-repository").err().unwrap();
    assert_eq!(err.kind, ErrorKind::NotARepository);
}

#[test]
fn tag_names_lose_their_prefix() {
    assert_eq!(tag_short_name(b"refs/tags/v1.0"), "v1.0");
    assert_eq!(tag_short_name(b"refs/tags/"), "");
    assert_eq!(tag_short_name(b"v1.0"), "v1.0");
    assert_eq!(tag_short_name(b"refs/tags"), "refs/tags");
    assert_eq!(tag_short_name(&[0xff, 0xfe]), "");
    assert_eq!(tag_short_name("refs/tags/größe".as_bytes()), "größe");
}

#[test]
fn tags_are_listed_and_gathered_by_commit() {
    let (repo, path) = fresh_repo("tags", "main");
    let first = commit(&repo, "refs/heads/main", &[], &[("a", "1")], "one", 1_700_000_000, 0);
    let second = commit(&repo, "refs/heads/main", &[first], &[("a", "2")], "two", 1_700_000_100, 0);
    let first_object = repo.find_object(first, None).unwrap();
    let second_object = repo.find_object(second, None).unwrap();
    repo.tag_lightweight("zeta", &first_object, false).unwrap();
    repo.tag_lightweight("alpha", &first_object, false).unwrap();
    let sig = git2::Signature::new("Ada", "a@b", &git2::Time::new(1_800_000_000, 0)).unwrap();
    repo.tag("v2", &second_object, &sig, "annotated", false).unwrap();
    repo.tag_lightweight("Beta", &first_object, false).unwrap();
    let mut listed = get_tag_list(&path).unwrap();
    listed.sort_by(|a, b| a.name.cmp(&b.name));
    let names: Vec<&str> = listed.iter().map(|t| t.name.as_str()).collect();
    assert_eq!(names, vec!["Beta", "alpha", "v2", "zeta"]);
    assert_eq!(listed[2].commit_time.seconds, 1_700_000_100);
    let mut groups = get_tags(&path).unwrap();
    groups.sort_by(|a, b| a.names.len().cmp(&b.names.len()));
    assert_eq!(groups.len(), 2);
    assert_eq!(groups[0].commit, id_of(second));
    assert_eq!(groups[0].names, vec!["v2"]);
    assert_eq!(groups[1].commit, id_of(first));
    assert_eq!(groups[1].names, vec!["Beta", "alpha", "zeta"]);
}

#[test]
fn grouping_keeps_first_occurrence_order_and_sorts_names() {
    let a = CommitId::from_bytes([1; 20]);
    let b = CommitId::from_bytes([2; 20]);
    let tags = vec![
        (b, "v2".to_string()),
        (a, "release".to_string()),
        (b, "latest".to_string()),
        (a, "a-first".to_string()),
        (b, "v10".to_string()),
    ];
    let groups = group_tags(&tags);
    assert_eq!(groups.len(), 2);
    assert_eq!(groups[0].commit, b);
    assert_eq!(groups[0].names, vec!["latest", "v10", "v2"]);
    assert_eq!(groups[1].commit, a);
    assert_eq!(groups[1].names, vec!["a-first", "release"]);
    assert!(group_tags(&Vec::new()).is_empty());
}

#[test]
fn insertion_keeps_a_sorted_list_sorted() {
    let mut names: Vec<String> = Vec::new();
    for name in ["m", "a", "z", "m", "B", "ab", ""] {
        insert_sorted(&mut names, name.to_string());
    }
    assert_eq!(names, vec!["", "B", "a", "ab", "m", "m", "z"]);
}

#[test]
fn metadata_of_a_commit() {
    let (repo, path) = fresh_repo("metadata", "main");
    let id =
        commit(&repo, "refs/heads/main", &[], &[("a", "1")], "subject\n\nbody", 1_700_000_000, 90);
    let sha = id.to_string();
    let meta = get_commit_metadata(&path, &sha).unwrap();
    assert_eq!(meta.author_name, "Ada Lovelace");
    assert_eq!(meta.author_email, "ada@example.org");
    assert_eq!(meta.commit_message, "subject\n\nbody");
    assert_eq!(meta.git_sha, sha);
    assert_eq!(meta.authored_at, CommitTime { seconds: 1_700_000_000, offset_minutes: 90 });
    assert_eq!(format_datetime(&meta.authored_at), Some("Nov 14, 2023 23:43".to_string()));
    assert_eq!(get_commit_metadata(&path, "abc").err().unwrap().kind, ErrorKind::InvalidRevision);
    assert_eq!(
        get_commit_metadata(&path, &"0".repeat(40)).err().unwrap().kind,
        ErrorKind::Store
    );
    assert_eq!(
        get_commit_metadata("/tmp/gity-tests/no-such-repository", &sha).err().unwrap().kind,
        ErrorKind::NotARepository
    );
}

#[test]
fn datetime_outside_the_calendar_is_not_written() {
    assert_eq!(format_datetime(&CommitTime { seconds: i64::MAX, offset_minutes: 1 }), None);
    assert_eq!(format_datetime(&CommitTime { seconds: i64::MAX / 2, offset_minutes: 0 }), None);
    assert_eq!(
        format_datetime(&CommitTime { seconds: 0, offset_minutes: 0 }),
        Some("Jan 01, 1970 00:00".to_string())
    );
    assert_eq!(
        format_datetime(&CommitTime { seconds: 0, offset_minutes: -1 }),
        Some("Dec 31, 1969 23:59".to_string())
    );
}

#[test]
fn patch_of_a_commit_against_its_first_parent() {
    let (repo, path) = fresh_repo("diff", "main");
    let first =
        commit(&repo, "refs/heads/main", &[], &[("a.txt", "one\ntwo\n")], "one", 1_700_000_000, 0);
    let second = commit(
        &repo,
        "refs/heads/main",
        &[first],
        &[("a.txt", "one\nTWO\n")],
        "two",
        1_700_000_100,
        0,
    );
    let text = get_commit_diff(&path, &second.to_string()).unwrap();
    assert!(text.starts_with("diff --git a/a.txt b/a.txt\n"));
    assert!(text.contains("\n--- a/a.txt\n+++ b/a.txt\n"));
    assert!(text.contains("@@ -1,2 +1,2 @@\n one\n-two\n+TWO\n"));
    let root = get_commit_diff(&path, &first.to_string()).unwrap();
    assert!(root.contains("+one\n+two\n"));
    assert!(!root.contains("Merge commit"));
    assert_eq!(get_commit_diff(&path, "xyz").err().unwrap().kind, ErrorKind::InvalidRevision);
}

#[test]
fn patch_of_a_merge_begins_with_a_note() {
    let (repo, path) = fresh_repo("diff-merge", "main");
    let base = commit(&repo, "refs/heads/base", &[], &[("a", "1\n")], "base", 1_700_000_000, 0);
    let left = commit(&repo, "refs/heads/left", &[base], &[("a", "2\n")], "left", 1_700_000_100, 0);
    let right =
        commit(&repo, "refs/heads/right", &[base], &[("b", "3\n")], "right", 1_700_000_200, 0);
    let merge = commit(
        &repo,
        "refs/heads/main",
        &[left, right],
        &[("b", "3\n")],
        "merge",
        1_700_000_300,
        0,
    );
    let text = get_commit_diff(&path, &merge.to_string()).unwrap();
    assert!(text.starts_with("Merge commit - showing diff against first parent\n\ndiff --git"));
    assert!(text.contains("+3\n"));
}

#[test]
fn rendering_keeps_origin_only_for_content_lines() {
    let lines = vec![
        ('F', b"diff --git a/x b/x\n".to_vec()),
        ('H', b"@@ -1 +1 @@\n".to_vec()),
        (' ', b"same\n".to_vec()),
        ('-', b"old\n".to_vec()),
        ('+', b"new\n".to_vec()),
        ('+', vec![0xff, 0xfe]),
        ('>', b"\n\\ No newline at end of file\n".to_vec()),
    ];
    assert_eq!(
        render_patch(1, &lines),
        "diff --git a/x b/x\n@@ -1 +1 @@\n same\n-old\n+new\n+\n\\ No newline at end of file\n"
    );
    assert_eq!(
        render_patch(2, &Vec::new()),
        "Merge commit - showing diff against first parent\n\n"
    );
    assert_eq!(render_patch(0, &Vec::new()), "");
}

#[test]
fn decisions_on_what_the_store_said() {
    assert_eq!(root_of(Some("/w/".to_string()), "/w/.git/".to_string()), "/w/");
    assert_eq!(root_of(None, "/bare.git/".to_string()), "/bare.git/");
    assert_eq!(branch_of_head(true, Some("main".to_string())), Some("main".to_string()));
    assert_eq!(branch_of_head(false, Some("main".to_string())), None);
    assert_eq!(branch_of_head(true, None), None);
    let time = CommitTime { seconds: 5, offset_minutes: 0 };
    assert_eq!(
        kept_branch(Some("dev".to_string()), Some(time)),
        Some(BranchInfo { name: "dev".to_string(), latest_commit_time: time })
    );
    assert_eq!(kept_branch(None, Some(time)), None);
    assert_eq!(kept_branch(Some("dev".to_string()), None), None);
    assert_eq!(
        kept_tag("v1".to_string(), Some(time)),
        Some(TagInfo { name: "v1".to_string(), commit_time: time })
    );
    assert_eq!(kept_tag("".to_string(), Some(time)), None);
    assert_eq!(kept_tag("v1".to_string(), None), None);
    let a = CommitId::from_bytes([1; 20]);
    let b = CommitId::from_bytes([2; 20]);
    assert_eq!(commit_of_tag(Some(a), b), a);
    assert_eq!(commit_of_tag(None, b), b);
    assert!(difference_touches(Some(3)));
    assert!(!difference_touches(Some(0)));
    assert!(!difference_touches(None));
}
