//! What a repository is asked besides its history: whether it is one,
//! which ref to show first, its branches and tags, and the metadata and
//! the patch of one commit.

use vstd::prelude::*;
use vstd::string::StringExecFns;
use crate::commit_id::CommitId;
use crate::error::{ErrorKind, GitError};
use crate::query::{text_view, CommitTime};
use crate::std_ext::utf8_text;
use crate::repo::{list_tags, read_commit, read_object, resolve_single};
use crate::store::{
    branch_name, branch_tip, branches_next, commit_author_email, commit_author_name,
    commit_author_time, commit_message_lossy, commit_parent, commit_parent_count, commit_time,
    commit_tree, diff_options_context_lines, diff_options_interhunk_lines, diff_patch_lines, diff_trees, discover_repository,
    error_message, local_branches, new_diff_options, object_peel_to_commit, open_repository,
    reference_is_branch, reference_shorthand, repository_head, repository_path,
    repository_workdir,
};
use crate::store::has_nul;
use crate::text::{chars_of, has_prefix, starts_with_chars, text_of};

verus! {

/// A store failure while a repository is opened.
fn not_a_repository(e: &git2::Error) -> (failure: GitError)
    ensures
        failure.kind == ErrorKind::NotARepository,
{
    GitError::new(ErrorKind::NotARepository, error_message(e))
}

/// A store failure while a repository is read.
fn store_failure(e: &git2::Error) -> (failure: GitError)
    ensures
        failure.kind == ErrorKind::Store,
{
    GitError::new(ErrorKind::Store, error_message(e))
}

/// Whether `path` leads to a repository.
pub fn validate_repository(path: &str) -> (valid: Result<(), GitError>)
    ensures
        has_nul(path@) ==> valid is Err,
        valid matches Err(e) ==> e.kind == ErrorKind::NotARepository,
{
    match open_repository(path) {
        Ok(_) => Ok(()),
        Err(e) => Err(not_a_repository(&e)),
    }
}

/// Where a repository is opened: at the root of its working tree, and
/// where it has none at its own directory.
pub fn root_of(workdir: Option<String>, repository_dir: String) -> (root: String)
    ensures
        root@ == match text_view(workdir) {
            Some(dir) => dir,
            None => repository_dir@,
        },
{
    match workdir {
        Some(dir) => dir,
        None => repository_dir,
    }
}

/// Where to open the repository that `path` lies in: the root of its
/// working tree, or for a bare repository the repository's own directory.
/// `None` if `path` lies in no repository.
pub fn discover_repository_root(path: &str) -> (root: Option<String>)
    ensures
        has_nul(path@) ==> root is None,
{
    match discover_repository(path) {
        Ok(repo) => Some(root_of(repository_workdir(&repo), repository_path(&repo))),
        Err(_) => None,
    }
}

/// Whether `branch_name` names something in the repository at `path`.
pub fn branch_exists(path: &str, branch_name: &str) -> (exists: bool)
    ensures
        has_nul(path@) || has_nul(branch_name@) ==> !exists,
{
    match open_repository(path) {
        Ok(repo) => resolve_single(&repo, branch_name).is_ok(),
        Err(_) => false,
    }
}

/// The branch that is checked out, given whether HEAD points at a branch
/// and what that branch is called: the name where HEAD points at a
/// branch, and none where HEAD is detached.
pub fn branch_of_head(is_branch: bool, shorthand: Option<String>) -> (name: Option<String>)
    ensures
        text_view(name) == if is_branch {
            text_view(shorthand)
        } else {
            None
        },
{
    if is_branch {
        shorthand
    } else {
        None
    }
}

/// The branch that HEAD of an open repository points at, if it points at
/// one and the name is valid UTF-8.
fn head_branch(repo: &git2::Repository) -> (name: Option<String>) {
    match repository_head(repo) {
        Ok(head) => {
            let is_branch = reference_is_branch(&head);
            let shorthand = if is_branch {
                reference_shorthand(&head)
            } else {
                None
            };
            branch_of_head(is_branch, shorthand)
        },
        Err(_) => None,
    }
}

/// The checked-out branch of the repository at `path`; `None` if HEAD is
/// detached or cannot be read.
pub fn checked_out_branch_name(path: &str) -> (name: Option<String>)
    ensures
        has_nul(path@) ==> name is None,
{
    match open_repository(path) {
        Ok(repo) => head_branch(&repo),
        Err(_) => None,
    }
}

/// Which ref is shown first: the checked-out branch if it resolves, else
/// `main` if that resolves, else `HEAD`.
pub open spec fn default_ref_choice(
    current: Option<Seq<char>>,
    current_resolves: bool,
    main_resolves: bool,
) -> Seq<char> {
    match current {
        Some(name) if current_resolves => name,
        _ => if main_resolves {
            "main"@
        } else {
            "HEAD"@
        },
    }
}

/// Which ref is shown first, given what resolves.
pub fn choose_default_ref(current: Option<String>, current_resolves: bool, main_resolves: bool) -> (chosen:
    String)
    ensures
        chosen@ == default_ref_choice(text_view(current), current_resolves, main_resolves),
{
    match current {
        Some(name) => {
            if current_resolves {
                return name;
            }
        },
        None => {},
    }
    if main_resolves {
        String::from_str("main")
    } else {
        String::from_str("HEAD")
    }
}

/// The ref to show first for the repository at `path`: the checked-out
/// branch if it resolves, else `main` if it resolves, else `HEAD`; and
/// `HEAD` if the path leads to no repository.
pub fn default_branch_ref(path: &str) -> (chosen: String)
    ensures
        has_nul(path@) ==> chosen@ == "HEAD"@,
        exists|current: Option<Seq<char>>, current_resolves: bool, main_resolves: bool|
            chosen@ == default_ref_choice(current, current_resolves, main_resolves),
{
    let repo = match open_repository(path) {
        Ok(repo) => repo,
        Err(_) => {
            let chosen = String::from_str("HEAD");
            assert(chosen@ == default_ref_choice(None, false, false));
            return chosen;
        },
    };
    let current = head_branch(&repo);
    let current_resolves = match &current {
        Some(name) => resolve_single(&repo, name.as_str()).is_ok(),
        None => false,
    };
    let main_resolves = if current_resolves {
        false
    } else {
        resolve_single(&repo, "main").is_ok()
    };
    let ghost current_text = text_view(current);
    let chosen = choose_default_ref(current, current_resolves, main_resolves);
    assert(chosen@ == default_ref_choice(current_text, current_resolves, main_resolves));
    chosen
}

/// A local branch and the time of the commit at its tip.
#[derive(Debug, Clone, PartialEq, Eq)]
pub struct BranchInfo {
    pub name: String,
    pub latest_commit_time: CommitTime,
}

/// What is listed of a branch, given its name and the time of the commit
/// at its tip: nothing of a branch whose name is not valid UTF-8 or whose
/// tip is no commit.
pub fn kept_branch(name: Option<String>, tip: Option<CommitTime>) -> (info: Option<BranchInfo>)
    ensures
        match info {
            Some(b) => text_view(name) == Some(b.name@) && tip == Some(b.latest_commit_time),
            None => name is None || tip is None,
        },
{
    match (name, tip) {
        (Some(name), Some(latest_commit_time)) => Some(BranchInfo { name, latest_commit_time }),
        _ => None,
    }
}

/// The greatest number of entries that a listing draws from the store.
pub const MAX_LISTED: u64 = 0xffff_ffff_ffff_ffff;

/// The local branches of the repository at `path`, in the order of the
/// store. A branch whose name is not valid UTF-8 or whose tip is no commit
/// is left out. A failure of the store fails the listing.
pub fn get_local_branches(path: &str) -> (listed: Result<Vec<BranchInfo>, GitError>)
    ensures
        has_nul(path@) ==> (listed matches Err(e) && e.kind == ErrorKind::NotARepository),
        listed matches Err(e) ==> e.kind == ErrorKind::NotARepository || e.kind == ErrorKind::Store,
{
    let repo = match open_repository(path) {
        Ok(repo) => repo,
        Err(e) => {
            return Err(not_a_repository(&e));
        },
    };
    let mut branches = match local_branches(&repo) {
        Ok(branches) => branches,
        Err(e) => {
            return Err(store_failure(&e));
        },
    };
    let mut infos: Vec<BranchInfo> = Vec::new();
    let mut drawn: u64 = 0;
    while drawn < MAX_LISTED
        invariant
            drawn <= MAX_LISTED,
            !has_nul(path@),
        decreases MAX_LISTED - drawn,
    {
        drawn += 1;
        let branch = match branches_next(&mut branches) {
            None => {
                return Ok(infos);
            },
            Some(Err(e)) => {
                return Err(store_failure(&e));
            },
            Some(Ok(branch)) => branch,
        };
        let name = match branch_name(&branch) {
            Ok(name) => name,
            Err(e) => {
                return Err(store_failure(&e));
            },
        };
        let tip = match &name {
            Some(_) => match branch_tip(&branch) {
                Ok(tip) => Some(commit_time(&tip)),
                Err(_) => None,
            },
            None => None,
        };
        match kept_branch(name, tip) {
            Some(info) => {
                infos.push(info);
            },
            None => {},
        }
    }
    Ok(infos)
}

/// The prefix that the store puts before the name of every tag.
pub open spec fn tag_prefix() -> Seq<char> {
    "refs/tags/"@
}

/// The name of a tag as it is shown: the full name without `refs/tags/`
/// in front, the full name itself if it does not begin so, and nothing if
/// the full name is not valid UTF-8.
pub open spec fn short_tag_name(full: Option<Seq<char>>) -> Seq<char> {
    match full {
        None => Seq::empty(),
        Some(text) => if has_prefix(text, tag_prefix()) {
            text.skip(tag_prefix().len() as int)
        } else {
            text
        },
    }
}

/// The name of a tag as it is shown, from the bytes of its full name.
pub fn tag_short_name(full_name: &[u8]) -> (name: String)
    ensures
        name@ == short_tag_name(
            if vstd::utf8::valid_utf8(full_name@) {
                Some(vstd::utf8::decode_utf8(full_name@))
            } else {
                None
            },
        ),
{
    match utf8_text(full_name) {
        None => String::new(),
        Some(text) => {
            let chars = chars_of(text.as_str());
            let prefix = chars_of("refs/tags/");
            if starts_with_chars(chars.as_slice(), prefix.as_slice()) {
                let rest = vstd::slice::slice_subrange(chars.as_slice(), prefix.len(), chars.len());
                assert(rest@ =~= text@.skip(tag_prefix().len() as int));
                text_of(rest)
            } else {
                text
            }
        },
    }
}

/// A tag and the time of the commit it leads to.
#[derive(Debug, Clone, PartialEq, Eq)]
pub struct TagInfo {
    pub name: String,
    pub commit_time: CommitTime,
}

/// What is listed of a tag, given its shown name and the time of the
/// commit that it leads to: nothing of a tag whose shown name is empty or
/// that leads to no commit.
pub fn kept_tag(name: String, tip: Option<CommitTime>) -> (tag: Option<TagInfo>)
    ensures
        match tag {
            Some(t) => t.name@ == name@ && name@.len() > 0 && tip == Some(t.commit_time),
            None => name@.len() == 0 || tip is None,
        },
{
    if name.as_str().unicode_len() == 0 {
        return None;
    }
    match tip {
        Some(commit_time) => Some(TagInfo { name, commit_time }),
        None => None,
    }
}

/// The commit that an object leads to when tags are followed.
fn peeled_commit<'repo>(repo: &'repo git2::Repository, id: &CommitId) -> (commit: Option<
    git2::Commit<'repo>,
>) {
    match read_object(repo, id) {
        Ok(object) => match object_peel_to_commit(&object) {
            Ok(commit) => Some(commit),
            Err(_) => None,
        },
        Err(_) => None,
    }
}

/// The tags of the repository at `path`, in the order of the store, each
/// with the time of the commit that it leads to (for an annotated tag the
/// tagged commit, not the tag). A tag with an empty shown name, or one
/// that leads to no commit, is left out.
pub fn get_tag_list(path: &str) -> (listed: Result<Vec<TagInfo>, GitError>)
    ensures
        has_nul(path@) ==> (listed matches Err(e) && e.kind == ErrorKind::NotARepository),
        listed matches Ok(tags) ==> forall|i: int|
            0 <= i < tags@.len() ==> (#[trigger] tags@[i]).name@.len() > 0,
        listed matches Err(e) ==> e.kind == ErrorKind::NotARepository || e.kind == ErrorKind::Store,
{
    let repo = match open_repository(path) {
        Ok(repo) => repo,
        Err(e) => {
            return Err(not_a_repository(&e));
        },
    };
    let entries = match list_tags(&repo) {
        Ok(entries) => entries,
        Err(e) => {
            return Err(store_failure(&e));
        },
    };
    let mut tags: Vec<TagInfo> = Vec::new();
    let mut i: usize = 0;
    while i < entries.len()
        invariant
            i <= entries.len(),
            !has_nul(path@),
            forall|k: int| 0 <= k < tags@.len() ==> (#[trigger] tags@[k]).name@.len() > 0,
        decreases entries.len() - i,
    {
        let name = tag_short_name(entries[i].1.as_slice());
        let tip = if name.as_str().unicode_len() > 0 {
            match peeled_commit(&repo, &entries[i].0) {
                Some(commit) => Some(commit_time(&commit)),
                None => None,
            }
        } else {
            None
        };
        match kept_tag(name, tip) {
            Some(tag) => {
                tags.push(tag);
            },
            None => {},
        }
        i += 1;
    }
    Ok(tags)
}

/// What is shown of one commit beside its patch.
#[derive(Debug, Clone, PartialEq, Eq)]
pub struct CommitMetadata {
    pub author_name: String,
    pub author_email: String,
    pub authored_at: CommitTime,
    pub commit_message: String,
    pub git_sha: String,
}

/// The text of an optional text, empty if absent.
fn text_or_empty(text: Option<String>) -> (out: String)
    ensures
        out@ == match text_view(text) {
            Some(t) => t,
            None => Seq::<char>::empty(),
        },
{
    match text {
        Some(t) => t,
        None => String::new(),
    }
}

/// Opens the repository at `path` and reads the commit that `commit_sha`
/// writes out in forty hexadecimal digits.
fn read_metadata(path: &str, id: &CommitId, commit_sha: &str) -> (found: Result<
    CommitMetadata,
    GitError,
>)
    ensures
        has_nul(path@) ==> (found matches Err(e) && e.kind == ErrorKind::NotARepository),
        found matches Ok(meta) ==> meta.git_sha@ == commit_sha@,
        found matches Err(e) ==> e.kind == ErrorKind::NotARepository || e.kind == ErrorKind::Store,
{
    let repo = match open_repository(path) {
        Ok(repo) => repo,
        Err(e) => {
            return Err(not_a_repository(&e));
        },
    };
    let commit = match read_commit(&repo, id) {
        Ok(commit) => commit,
        Err(e) => {
            return Err(store_failure(&e));
        },
    };
    Ok(
        CommitMetadata {
            author_name: text_or_empty(commit_author_name(&commit)),
            author_email: text_or_empty(commit_author_email(&commit)),
            authored_at: commit_author_time(&commit),
            commit_message: commit_message_lossy(&commit),
            git_sha: String::from_str(commit_sha),
        },
    )
}

/// The author, the time and the message of the commit that `commit_sha`
/// names in the repository at `path`. A `commit_sha` that is not forty
/// hexadecimal digits is an invalid revision.
pub fn get_commit_metadata(path: &str, commit_sha: &str) -> (found: Result<CommitMetadata, GitError>)
    ensures
        !(commit_sha@.len() == 40 && crate::hex::is_hex_text(commit_sha@)) <==> (found matches Err(
            e,
        ) && e.kind == ErrorKind::InvalidRevision),
        has_nul(path@) ==> found is Err,
        found matches Ok(meta) ==> meta.git_sha@ == commit_sha@,
{
    match CommitId::from_hex(commit_sha) {
        Some(id) => read_metadata(path, &id, commit_sha),
        None => Err(
            GitError::new(
                ErrorKind::InvalidRevision,
                String::from_str("commit id is not forty hexadecimal digits"),
            ),
        ),
    }
}

/// The text that one line of a patch adds to what is shown: its origin
/// character, if that is a blank, a plus or a minus; then its content, if
/// that is valid UTF-8.
pub open spec fn patch_line_text(origin: char, content: Seq<u8>) -> Seq<char> {
    (if origin == ' ' || origin == '+' || origin == '-' {
        seq![origin]
    } else {
        Seq::<char>::empty()
    }) + (if vstd::utf8::valid_utf8(content) {
        vstd::utf8::decode_utf8(content)
    } else {
        Seq::<char>::empty()
    })
}

/// The text shown for the lines of a patch, one after the other.
pub open spec fn patch_text(lines: Seq<(char, Vec<u8>)>) -> Seq<char>
    decreases lines.len(),
{
    if lines.len() == 0 {
        Seq::empty()
    } else {
        patch_text(lines.drop_last()) + patch_line_text(lines.last().0, lines.last().1@)
    }
}

/// The note that stands before the patch of a commit with several parents.
pub open spec fn merge_note() -> Seq<char> {
    "Merge commit - showing diff against first parent\n\n"@
}

/// The text shown for a patch: for a commit with more than one parent the
/// merge note, and then the lines.
pub open spec fn shown_patch(parents: nat, lines: Seq<(char, Vec<u8>)>) -> Seq<char> {
    (if parents > 1 {
        merge_note()
    } else {
        Seq::<char>::empty()
    }) + patch_text(lines)
}

/// Writes out the text shown for a patch.
pub fn render_patch(parents: usize, lines: &Vec<(char, Vec<u8>)>) -> (text: String)
    ensures
        text@ == shown_patch(parents as nat, lines@),
{
    let mut text = String::new();
    if parents > 1 {
        text.append("Merge commit - showing diff against first parent\n\n");
    }
    let ghost head = text@;
    let mut i: usize = 0;
    proof {
        assert(lines@.take(0) =~= Seq::<(char, Vec<u8>)>::empty());
        assert(head + patch_text(lines@.take(0)) =~= head);
    }
    while i < lines.len()
        invariant
            i <= lines.len(),
            head == (if parents > 1 {
                merge_note()
            } else {
                Seq::<char>::empty()
            }),
            text@ == head + patch_text(lines@.take(i as int)),
        decreases lines.len() - i,
    {
        let ghost before = text@;
        let origin = lines[i].0;
        if origin == ' ' || origin == '+' || origin == '-' {
            text.push(origin);
        }
        match utf8_text(lines[i].1.as_slice()) {
            Some(content) => {
                text.append(content.as_str());
            },
            None => {},
        }
        proof {
            assert(lines@.take(i + 1).drop_last() =~= lines@.take(i as int));
            assert(lines@.take(i + 1).last() == lines@[i as int]);
            assert(text@ =~= before + patch_line_text(origin, lines@[i as int].1@));
            assert(text@ =~= head + patch_text(lines@.take(i + 1)));
        }
        i += 1;
    }
    assert(lines@.take(i as int) =~= lines@);
    text
}

/// Reads the patch of a commit of an open repository against its first
/// parent, or against the empty tree if it has none, with three lines of
/// context.
fn read_patch(repo: &git2::Repository, id: &CommitId) -> (text: Result<String, git2::Error>)
    ensures
        text matches Ok(t) ==> exists|parents: nat, lines: Seq<(char, Vec<u8>)>|
            t@ == shown_patch(parents, lines),
{
    let commit = match read_commit(repo, id) {
        Ok(commit) => commit,
        Err(e) => {
            return Err(e);
        },
    };
    let parents = commit_parent_count(&commit);
    let parent_tree = if parents >= 1 {
        let parent = match commit_parent(&commit, 0) {
            Ok(parent) => parent,
            Err(e) => {
                return Err(e);
            },
        };
        match commit_tree(&parent) {
            Ok(tree) => Some(tree),
            Err(e) => {
                return Err(e);
            },
        }
    } else {
        None
    };
    let tree = match commit_tree(&commit) {
        Ok(tree) => tree,
        Err(e) => {
            return Err(e);
        },
    };
    let mut opts = new_diff_options();
    diff_options_context_lines(&mut opts, 3);
    diff_options_interhunk_lines(&mut opts, 0);
    let diff = match diff_trees(repo, parent_tree.as_ref(), &tree, &mut opts) {
        Ok(diff) => diff,
        Err(e) => {
            return Err(e);
        },
    };
    match diff_patch_lines(&diff) {
        Ok(lines) => {
            let text = render_patch(parents, &lines);
            assert(text@ == shown_patch(parents as nat, lines@));
            Ok(text)
        },
        Err(e) => Err(e),
    }
}

/// The patch of the commit that `commit_sha` names in the repository at
/// `path`, as text. A `commit_sha` that is not forty hexadecimal digits is
/// an invalid revision.
pub fn get_commit_diff(path: &str, commit_sha: &str) -> (text: Result<String, GitError>)
    ensures
        !(commit_sha@.len() == 40 && crate::hex::is_hex_text(commit_sha@)) <==> (text matches Err(
            e,
        ) && e.kind == ErrorKind::InvalidRevision),
        has_nul(path@) ==> text is Err,
        text matches Ok(t) ==> exists|parents: nat, lines: Seq<(char, Vec<u8>)>|
            t@ == shown_patch(parents, lines),
{
    let id = match CommitId::from_hex(commit_sha) {
        Some(id) => id,
        None => {
            return Err(
                GitError::new(
                    ErrorKind::InvalidRevision,
                    String::from_str("commit id is not forty hexadecimal digits"),
                ),
            );
        },
    };
    let repo = match open_repository(path) {
        Ok(repo) => repo,
        Err(e) => {
            return Err(not_a_repository(&e));
        },
    };
    match read_patch(&repo, &id) {
        Ok(text) => Ok(text),
        Err(e) => Err(store_failure(&e)),
    }
}

} // verus!
