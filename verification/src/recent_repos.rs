//! The list of recently opened repositories: how paths are written, how
//! the list changes when a repository is opened or removed, and what is
//! shown of each entry.

use vstd::prelude::*;
use vstd::string::StringExecFns;
use crate::git::validate_repository;
use crate::query::text_view;
use crate::text::{chars_of, has_prefix, starts_with_chars, text_of, texts_of};

verus! {

/// The greatest number of repositories that the list holds.
pub const MAX_RECENT_REPOS: usize = 12;

/// What is shown of a recently opened repository.
#[derive(Debug, Clone, PartialEq, Eq)]
pub struct RecentRepo {
    pub path: String,
    pub folder_name: String,
    pub display_path: String,
}

/// `Path::file_name`, as text: the last component of a path, as the
/// platform reads paths; `None` for a path that ends in `..` or is the
/// root, and for a name that is not valid UTF-8.
#[verifier::external_body]
pub(crate) fn path_file_name(path: &str) -> (name: Option<String>) {
    std::path::Path::new(path).file_name().and_then(|n| n.to_str()).map(|s| s.to_string())
}

/// `dirs::home_dir`, as text: the home directory of the user that runs
/// the program, if there is one. It depends on the environment.
#[verifier::external_body]
pub(crate) fn home_dir_text() -> (home: Option<String>) {
    dirs::home_dir().map(|p| p.to_string_lossy().to_string())
}

/// A text without the slashes at its end.
pub open spec fn trimmed(text: Seq<char>) -> Seq<char>
    decreases text.len(),
{
    if text.len() > 0 && text.last() == '/' {
        trimmed(text.drop_last())
    } else {
        text
    }
}

/// The trimmed text is the beginning of the text, what was cut off is
/// slashes alone, and no slash is left at the end.
pub proof fn trimmed_cuts_slashes_only(text: Seq<char>)
    ensures
        trimmed(text).len() <= text.len(),
        text.take(trimmed(text).len() as int) == trimmed(text),
        forall|i: int| trimmed(text).len() <= i < text.len() ==> text[i] == '/',
        trimmed(text).len() > 0 ==> trimmed(text).last() != '/',
    decreases text.len(),
{
    if text.len() > 0 && text.last() == '/' {
        let shorter = text.drop_last();
        trimmed_cuts_slashes_only(shorter);
        assert(text.take(trimmed(text).len() as int) =~= shorter.take(
            trimmed(shorter).len() as int,
        ));
        assert forall|i: int| trimmed(text).len() <= i < text.len() implies text[i] == '/' by {
            if i < shorter.len() {
                assert(shorter[i] == text[i]);
            }
        }
    } else {
        assert(text.take(text.len() as int) =~= text);
    }
}

/// A path without the slashes at its end.
pub fn normalize_path(path_str: &str) -> (normal: String)
    ensures
        normal@ == trimmed(path_str@),
{
    let chars = chars_of(path_str);
    let mut keep: usize = chars.len();
    proof {
        assert(chars@.take(keep as int) =~= chars@);
    }
    while keep > 0 && chars[keep - 1] == '/'
        invariant
            keep <= chars.len(),
            trimmed(chars@.take(keep as int)) == trimmed(chars@),
        decreases keep,
    {
        proof {
            assert(chars@.take(keep as int).drop_last() =~= chars@.take(keep - 1));
        }
        keep -= 1;
    }
    let kept = vstd::slice::slice_subrange(chars.as_slice(), 0, keep);
    assert(kept@ =~= chars@.take(keep as int));
    text_of(kept)
}

/// A path as it is shown: with `~` in place of the home directory where
/// the path begins with it, and as it is otherwise.
pub open spec fn shown_path(path: Seq<char>, home: Option<Seq<char>>) -> Seq<char> {
    match home {
        Some(h) => if has_prefix(path, h) {
            seq!['~'] + path.skip(h.len() as int)
        } else {
            path
        },
        None => path,
    }
}

/// A path as it is shown, given the home directory.
pub fn display_path_with_home(path: &str, home: Option<&str>) -> (shown: String)
    ensures
        shown@ == shown_path(
            path@,
            match home {
                Some(h) => Some(h@),
                None => None,
            },
        ),
{
    match home {
        Some(h) => {
            let path_chars = chars_of(path);
            let home_chars = chars_of(h);
            if starts_with_chars(path_chars.as_slice(), home_chars.as_slice()) {
                let rest = vstd::slice::slice_subrange(
                    path_chars.as_slice(),
                    home_chars.len(),
                    path_chars.len(),
                );
                let mut shown = String::from_str("~");
                let tail = text_of(rest);
                shown.append(tail.as_str());
                proof {
                    reveal_strlit("~");
                    assert("~"@ =~= seq!['~']);
                    assert(rest@ =~= path@.skip(h@.len() as int));
                }
                shown
            } else {
                String::from_str(path)
            }
        },
        None => String::from_str(path),
    }
}

/// A path as it is shown to the user of the program: with `~` in place of
/// that user's home directory.
pub fn format_display_path(path: &str) -> (shown: String)
    ensures
        exists|home: Option<Seq<char>>| shown@ == shown_path(path@, home),
{
    let home = home_dir_text();
    let shown = match &home {
        Some(h) => display_path_with_home(path, Some(h.as_str())),
        None => display_path_with_home(path, None),
    };
    assert(shown@ == shown_path(path@, text_view(home)));
    shown
}

/// The name shown for a repository: the last component of its path, and
/// the whole path where there is none.
pub open spec fn named_after(path: Seq<char>, last_component: Option<Seq<char>>) -> Seq<char> {
    match last_component {
        Some(n) => n,
        None => path,
    }
}

/// The name shown for a repository, given the last component of its path.
pub fn folder_name_from(path: &str, last_component: Option<String>) -> (name: String)
    ensures
        name@ == named_after(path@, text_view(last_component)),
{
    match last_component {
        Some(n) => n,
        None => String::from_str(path),
    }
}

/// What is shown of the repository at `path`: the last component of the
/// path as its name (the whole path where there is none), and the path
/// with `~` for the home directory.
pub fn describe_repo(path: &str) -> (repo: RecentRepo)
    ensures
        repo.path@ == path@,
        exists|last: Option<Seq<char>>| repo.folder_name@ == named_after(path@, last),
        exists|home: Option<Seq<char>>| repo.display_path@ == shown_path(path@, home),
{
    let last = path_file_name(path);
    let ghost last_text = text_view(last);
    let folder_name = folder_name_from(path, last);
    assert(folder_name@ == named_after(path@, last_text));
    RecentRepo { path: String::from_str(path), folder_name, display_path: format_display_path(path) }
}

/// The path is one of the list.
pub open spec fn is_one_of(path: Seq<char>, paths: Seq<String>) -> bool {
    exists|k: int| 0 <= k < paths.len() && (#[trigger] paths[k])@ == path
}

/// The paths of a list that are kept, given for each whether it leads to
/// a repository: those that do, in the order of the list, until
/// `MAX_RECENT_REPOS` are kept.
pub open spec fn kept_paths(paths: Seq<Seq<char>>, valid: Seq<bool>) -> Seq<Seq<char>>
    decreases paths.len(),
{
    if paths.len() == 0 || valid.len() != paths.len() {
        Seq::empty()
    } else {
        let before = kept_paths(paths.drop_last(), valid.drop_last());
        if valid.last() && before.len() < MAX_RECENT_REPOS {
            before.push(paths.last())
        } else {
            before
        }
    }
}

/// The paths of a list of entries.
pub open spec fn repo_paths(repos: Seq<RecentRepo>) -> Seq<Seq<char>> {
    repos.map_values(|r: RecentRepo| r.path@)
}

/// For each path of a list, whether the store was asked about it and found
/// a repository there. It never does so for a path that holds a NUL
/// character.
pub open spec fn is_a_validity_of(valid: Seq<bool>, paths: Seq<String>) -> bool {
    &&& valid.len() == paths.len()
    &&& forall|i: int| 0 <= i < valid.len() && crate::store::has_nul(paths[i]@) ==> !(#[trigger] valid[i])
}

/// The entries shown for a stored list of paths: those that still lead to
/// a repository, in the order of the list, and no more than
/// `MAX_RECENT_REPOS` of them. Once that many are found the store is not
/// asked about the rest.
pub fn load_recent_repos(paths: &Vec<String>) -> (repos: Vec<RecentRepo>)
    ensures
        repos@.len() <= MAX_RECENT_REPOS,
        repos@.len() <= paths@.len(),
        forall|i: int| 0 <= i < repos@.len() ==> is_one_of((#[trigger] repos@[i]).path@, paths@),
        forall|i: int|
            0 <= i < repos@.len() ==> !crate::store::has_nul((#[trigger] repos@[i]).path@),
        exists|valid: Seq<bool>|
            is_a_validity_of(valid, paths@) && repo_paths(repos@) == #[trigger] kept_paths(
                texts_of(paths@),
                valid,
            ),
{
    let mut repos: Vec<RecentRepo> = Vec::new();
    let ghost mut valid: Seq<bool> = Seq::empty();
    let ghost all = texts_of(paths@);
    let mut k: usize = 0;
    proof {
        assert(all.take(0) =~= Seq::<Seq<char>>::empty());
        assert(repo_paths(repos@) =~= Seq::<Seq<char>>::empty());
    }
    while k < paths.len()
        invariant
            k <= paths.len(),
            all == texts_of(paths@),
            repos@.len() <= MAX_RECENT_REPOS,
            repos@.len() <= k,
            valid.len() == k,
            forall|i: int| 0 <= i < k && crate::store::has_nul(paths@[i]@) ==> !(#[trigger] valid[i]),
            repo_paths(repos@) == kept_paths(all.take(k as int), valid),
            forall|i: int| 0 <= i < repos@.len() ==> is_one_of((#[trigger] repos@[i]).path@, paths@),
            forall|i: int|
                0 <= i < repos@.len() ==> !crate::store::has_nul((#[trigger] repos@[i]).path@),
        decreases paths.len() - k,
    {
        let leads = repos.len() < MAX_RECENT_REPOS && validate_repository(paths[k].as_str()).is_ok();
        let ghost before = repo_paths(repos@);
        proof {
            assert(all.take(k + 1).drop_last() =~= all.take(k as int));
            assert(all.take(k + 1).last() == paths@[k as int]@);
            assert(valid.push(leads).drop_last() =~= valid);
        }
        if leads {
            let repo = describe_repo(paths[k].as_str());
            assert(paths@[k as int]@ == repo.path@);
            repos.push(repo);
            proof {
                assert(repo_paths(repos@) =~= before.push(paths@[k as int]@));
            }
        }
        proof {
            valid = valid.push(leads);
        }
        k += 1;
    }
    proof {
        assert(all.take(k as int) =~= all);
        assert(is_a_validity_of(valid, paths@));
    }
    repos
}

/// The trimmed paths of a list that are not `target`, in the order of the
/// list.
pub open spec fn others(paths: Seq<Seq<char>>, target: Seq<char>) -> Seq<Seq<char>>
    decreases paths.len(),
{
    if paths.len() == 0 {
        Seq::empty()
    } else if trimmed(paths.last()) == target {
        others(paths.drop_last(), target)
    } else {
        others(paths.drop_last(), target).push(trimmed(paths.last()))
    }
}

/// The trimmed paths of a stored list that are not the trimmed `path`.
fn others_of(paths: &Vec<String>, target: &str) -> (rest: Vec<String>)
    ensures
        texts_of(rest@) == others(texts_of(paths@), trimmed(target@)),
{
    let goal = normalize_path(target);
    let mut rest: Vec<String> = Vec::new();
    let mut i: usize = 0;
    proof {
        assert(paths@.take(0) =~= Seq::<String>::empty());
        assert(texts_of(rest@) =~= Seq::<Seq<char>>::empty());
    }
    while i < paths.len()
        invariant
            i <= paths.len(),
            goal@ == trimmed(target@),
            texts_of(rest@) == others(texts_of(paths@.take(i as int)), trimmed(target@)),
        decreases paths.len() - i,
    {
        let normal = normalize_path(paths[i].as_str());
        let same = crate::text::str_eq(normal.as_str(), goal.as_str());
        let ghost before = texts_of(rest@);
        let ghost entry = normal@;
        if !same {
            rest.push(normal);
        }
        proof {
            let done = texts_of(paths@.take(i as int));
            let more = texts_of(paths@.take(i + 1));
            assert(more.drop_last() =~= done);
            assert(more.last() == paths@[i as int]@);
            if !same {
                assert(texts_of(rest@) =~= before.push(entry));
            }
        }
        i += 1;
    }
    assert(paths@.take(i as int) =~= paths@);
    rest
}

/// The stored list after the repository at `path` has been opened: the
/// trimmed path in front and then the other trimmed paths of the list in
/// their order.
pub open spec fn list_with(paths: Seq<Seq<char>>, path: Seq<char>) -> Seq<Seq<char>> {
    seq![trimmed(path)] + others(paths, trimmed(path))
}

/// The first entries of a list, up to `MAX_RECENT_REPOS` of them.
pub open spec fn capped(list: Seq<Seq<char>>) -> Seq<Seq<char>> {
    if list.len() <= MAX_RECENT_REPOS {
        list
    } else {
        list.take(MAX_RECENT_REPOS as int)
    }
}

/// The stored list after the repository at `path` has been opened: the
/// trimmed path in front, then the other trimmed paths of the list in
/// their order, and the whole cut to `MAX_RECENT_REPOS` entries.
pub fn add_recent_repo(paths: &Vec<String>, path: &str) -> (list: Vec<String>)
    ensures
        texts_of(list@) == capped(list_with(texts_of(paths@), path@)),
{
    let mut list = others_of(paths, path);
    let ghost rest = texts_of(list@);
    let front = normalize_path(path);
    list.insert(0, front);
    assert(texts_of(list@) =~= list_with(texts_of(paths@), path@));
    let ghost whole = texts_of(list@);
    list.truncate(MAX_RECENT_REPOS);
    assert(texts_of(list@) =~= capped(whole));
    list
}

/// The stored list after the repository at `path` has been removed: the
/// other trimmed paths of the list, in their order.
pub fn remove_recent_repo(paths: &Vec<String>, path: &str) -> (list: Vec<String>)
    ensures
        texts_of(list@) == others(texts_of(paths@), trimmed(path@)),
{
    others_of(paths, path)
}

} // verus!
