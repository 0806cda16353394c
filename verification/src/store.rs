//! The object store: every call into `git2` that the library makes.
//!
//! The store's types are opaque here. Each function below that calls the
//! store makes one call and hands back plain values; the verifier reads
//! its contract and not its body. What the store answers depends on what
//! is on disk, so none of them promises anything about its result but
//! what its arguments alone decide.

use vstd::prelude::*;
use crate::commit_id::CommitId;
use crate::query::CommitTime;

verus! {

/// `git2::Repository`: a handle on a repository on disk.
#[verifier::external_type_specification]
#[verifier::external_body]
pub struct ExRepository(git2::Repository);

/// `git2::Revwalk`: a traversal of the commit graph in progress.
#[verifier::external_type_specification]
#[verifier::external_body]
pub struct ExRevwalk<'repo>(git2::Revwalk<'repo>);

/// `git2::Oid`: an object identifier as the store holds it.
#[verifier::external_type_specification]
#[verifier::external_body]
pub struct ExOid(git2::Oid);

/// `git2::Error`: a failure reported by the store.
#[verifier::external_type_specification]
#[verifier::external_body]
pub struct ExStoreError(git2::Error);

/// `git2::Commit`: a commit object read from the store.
#[verifier::external_type_specification]
#[verifier::external_body]
pub struct ExCommit<'repo>(git2::Commit<'repo>);

/// `git2::Tree`: a tree object read from the store.
#[verifier::external_type_specification]
#[verifier::external_body]
pub struct ExTree<'repo>(git2::Tree<'repo>);

/// `git2::Diff`: the difference between two trees.
#[verifier::external_type_specification]
#[verifier::external_body]
pub struct ExDiff<'repo>(git2::Diff<'repo>);

/// `git2::Pathspec`: a compiled list of path patterns.
#[verifier::external_type_specification]
#[verifier::external_body]
pub struct ExPathspec(git2::Pathspec);

/// `git2::DiffOptions`: how a difference is computed.
#[verifier::external_type_specification]
#[verifier::external_body]
pub struct ExDiffOptions(git2::DiffOptions);

/// `git2::Reference`: a named pointer into the history.
#[verifier::external_type_specification]
#[verifier::external_body]
pub struct ExReference<'repo>(git2::Reference<'repo>);

/// `git2::Branches`: an iteration over branches in progress.
#[verifier::external_type_specification]
#[verifier::external_body]
pub struct ExBranches<'repo>(git2::Branches<'repo>);

/// `git2::BranchType`: local or remote.
#[verifier::external_type_specification]
#[verifier::external_body]
pub struct ExBranchType(git2::BranchType);

/// `git2::Branch`: a branch.
#[verifier::external_type_specification]
#[verifier::external_body]
pub struct ExBranch<'repo>(git2::Branch<'repo>);

/// `git2::Object`: an object of any kind read from the store.
#[verifier::external_type_specification]
#[verifier::external_body]
pub struct ExObject<'repo>(git2::Object<'repo>);

/// `git2::Revspec`: what a revision spec was resolved to.
#[verifier::external_type_specification]
#[verifier::external_body]
pub struct ExRevspec<'repo>(git2::Revspec<'repo>);

/// `Oid::as_bytes`: the twenty bytes of an object identifier, as an
/// identifier of the library.
#[verifier::external_body]
pub(crate) fn id_of_oid(oid: git2::Oid) -> (id: CommitId) {
    let mut bytes = [0u8; 20];
    bytes.copy_from_slice(oid.as_bytes());
    CommitId { bytes }
}

/// `Oid::from_bytes`: the object identifier with the bytes of an
/// identifier of the library.
#[verifier::external_body]
pub(crate) fn oid_of_id(id: &CommitId) -> (oid: Result<git2::Oid, git2::Error>) {
    git2::Oid::from_bytes(&id.bytes)
}

/// A NUL character stands somewhere in the text.
pub open spec fn has_nul(text: Seq<char>) -> bool {
    exists|i: int| 0 <= i < text.len() && text[i] == '\0'
}

/// `Error::message`: the text of a store failure.
#[verifier::external_body]
pub(crate) fn error_message(e: &git2::Error) -> (text: String) {
    e.message().to_string()
}

/// `Repository::open`: opens the repository at `path`. The path is first
/// made a C string, which fails on a NUL character, so such a path is
/// never opened.
#[verifier::external_body]
pub(crate) fn open_repository(path: &str) -> (repo: Result<git2::Repository, git2::Error>)
    ensures
        has_nul(path@) ==> repo is Err,
{
    git2::Repository::open(path)
}

/// `Repository::revwalk`: a fresh traversal with nothing pushed.
#[verifier::external_body]
pub(crate) fn new_revwalk<'repo>(repo: &'repo git2::Repository) -> (walk: Result<
    git2::Revwalk<'repo>,
    git2::Error,
>) {
    repo.revwalk()
}

/// `Revwalk::set_sorting`, with each of the three flags set or cleared as
/// its argument says.
#[verifier::external_body]
pub(crate) fn revwalk_set_sorting(
    walk: &mut git2::Revwalk<'_>,
    topological: bool,
    time: bool,
    reverse: bool,
) -> (done: Result<(), git2::Error>) {
    let mut mode = git2::Sort::NONE;
    mode.set(git2::Sort::TOPOLOGICAL, topological);
    mode.set(git2::Sort::TIME, time);
    mode.set(git2::Sort::REVERSE, reverse);
    walk.set_sorting(mode)
}

/// `Revwalk::push`: marks a commit as a root of the traversal.
#[verifier::external_body]
pub(crate) fn revwalk_push(walk: &mut git2::Revwalk<'_>, oid: git2::Oid) -> (done: Result<
    (),
    git2::Error,
>) {
    walk.push(oid)
}

/// `Revwalk::hide`: leaves a commit and its ancestors out of the traversal.
#[verifier::external_body]
pub(crate) fn revwalk_hide(walk: &mut git2::Revwalk<'_>, oid: git2::Oid) -> (done: Result<
    (),
    git2::Error,
>) {
    let exclude = git2::Revwalk::hide;
    exclude(walk, oid)
}

/// `Revwalk::push_head`: marks the repository's HEAD as a root.
#[verifier::external_body]
pub(crate) fn revwalk_push_head(walk: &mut git2::Revwalk<'_>) -> (done: Result<(), git2::Error>) {
    walk.push_head()
}

/// `Revwalk::next`: the next identifier of the traversal, a failure, or
/// `None` when the traversal is exhausted.
#[verifier::external_body]
pub(crate) fn revwalk_next(walk: &mut git2::Revwalk<'_>) -> (step: Option<
    Result<git2::Oid, git2::Error>,
>) {
    walk.next()
}

/// `Repository::revparse_single`: the object that a revision string names.
/// The string is first made a C string, which fails on a NUL character, so
/// such a string names nothing.
#[verifier::external_body]
pub(crate) fn revparse_single<'repo>(repo: &'repo git2::Repository, spec: &str) -> (object: Result<
    git2::Object<'repo>,
    git2::Error,
>)
    ensures
        has_nul(spec@) ==> object is Err,
{
    repo.revparse_single(spec)
}

/// `Object::id`.
#[verifier::external_body]
pub(crate) fn object_id(object: &git2::Object<'_>) -> (oid: git2::Oid) {
    object.id()
}

/// `Repository::revparse`: what a revision spec resolves to. The spec is
/// first made a C string, which fails on a NUL character, so such a spec
/// resolves to nothing.
#[verifier::external_body]
pub(crate) fn revparse<'repo>(repo: &'repo git2::Repository, spec: &str) -> (found: Result<
    git2::Revspec<'repo>,
    git2::Error,
>)
    ensures
        has_nul(spec@) ==> found is Err,
{
    repo.revparse(spec)
}

/// `Revspec::from`, then `Object::id`: the `from` end, if it resolved.
#[verifier::external_body]
pub(crate) fn revspec_from(found: &git2::Revspec<'_>) -> (oid: Option<git2::Oid>) {
    found.from().map(|object| object.id())
}

/// `Revspec::to`, then `Object::id`: the `to` end, if it resolved.
#[verifier::external_body]
pub(crate) fn revspec_to(found: &git2::Revspec<'_>) -> (oid: Option<git2::Oid>) {
    found.to().map(|object| object.id())
}

/// `Revspec::mode`: whether the spec names a single object.
#[verifier::external_body]
pub(crate) fn revspec_is_single(found: &git2::Revspec<'_>) -> (yes: bool) {
    found.mode().contains(git2::RevparseMode::SINGLE)
}

/// `Revspec::mode`: whether the spec is written with `...`.
#[verifier::external_body]
pub(crate) fn revspec_is_merge_base(found: &git2::Revspec<'_>) -> (yes: bool) {
    found.mode().contains(git2::RevparseMode::MERGE_BASE)
}

/// `Repository::merge_base`: a best common ancestor of two commits.
#[verifier::external_body]
pub(crate) fn merge_base(repo: &git2::Repository, one: git2::Oid, two: git2::Oid) -> (base: Result<
    git2::Oid,
    git2::Error,
>) {
    repo.merge_base(one, two)
}

/// `Repository::find_object` asked for a commit: fails unless the
/// identifier names a commit.
#[verifier::external_body]
pub(crate) fn find_commit_object<'repo>(repo: &'repo git2::Repository, oid: git2::Oid) -> (found:
    Result<git2::Object<'repo>, git2::Error>) {
    repo.find_object(oid, Some(git2::ObjectType::Commit))
}

/// `Repository::find_commit`: reads a commit.
#[verifier::external_body]
pub(crate) fn find_commit<'repo>(repo: &'repo git2::Repository, oid: git2::Oid) -> (commit: Result<
    git2::Commit<'repo>,
    git2::Error,
>) {
    repo.find_commit(oid)
}

/// `Commit::id`.
#[verifier::external_body]
pub(crate) fn commit_id(commit: &git2::Commit<'_>) -> (oid: git2::Oid) {
    commit.id()
}

/// `Commit::parent_count`.
#[verifier::external_body]
pub(crate) fn commit_parent_count(commit: &git2::Commit<'_>) -> (count: usize) {
    commit.parent_count()
}

/// `Commit::author`, then `Signature::name`; absent if not valid UTF-8.
#[verifier::external_body]
pub(crate) fn commit_author_name(commit: &git2::Commit<'_>) -> (name: Option<String>) {
    commit.author().name().ok().map(|s| s.to_string())
}

/// `Commit::author`, then `Signature::email`; absent if not valid UTF-8.
#[verifier::external_body]
pub(crate) fn commit_author_email(commit: &git2::Commit<'_>) -> (email: Option<String>) {
    commit.author().email().ok().map(|s| s.to_string())
}

/// `Commit::author`, then `Signature::when`: seconds and zone offset.
#[verifier::external_body]
pub(crate) fn commit_author_time(commit: &git2::Commit<'_>) -> (when: CommitTime) {
    let when = commit.author().when();
    CommitTime { seconds: when.seconds(), offset_minutes: when.offset_minutes() }
}

/// `Commit::committer`, then `Signature::name`; absent if not valid UTF-8.
#[verifier::external_body]
pub(crate) fn commit_committer_name(commit: &git2::Commit<'_>) -> (name: Option<String>) {
    commit.committer().name().ok().map(|s| s.to_string())
}

/// `Commit::committer`, then `Signature::email`; absent if not valid UTF-8.
#[verifier::external_body]
pub(crate) fn commit_committer_email(commit: &git2::Commit<'_>) -> (email: Option<String>) {
    commit.committer().email().ok().map(|s| s.to_string())
}

/// `Commit::time`: the committer's seconds and zone offset.
#[verifier::external_body]
pub(crate) fn commit_time(commit: &git2::Commit<'_>) -> (when: CommitTime) {
    let when = commit.time();
    CommitTime { seconds: when.seconds(), offset_minutes: when.offset_minutes() }
}

/// `Commit::message`; absent if not valid UTF-8.
#[verifier::external_body]
pub(crate) fn commit_message(commit: &git2::Commit<'_>) -> (message: Option<String>) {
    commit.message().ok().map(|s| s.to_string())
}

/// `Commit::message_bytes`, read as UTF-8 with each invalid sequence
/// replaced (`String::from_utf8_lossy`).
#[verifier::external_body]
pub(crate) fn commit_message_lossy(commit: &git2::Commit<'_>) -> (message: String) {
    String::from_utf8_lossy(commit.message_bytes()).to_string()
}

/// `Commit::parent`: reads the parent at an index.
#[verifier::external_body]
pub(crate) fn commit_parent<'repo>(commit: &git2::Commit<'repo>, index: usize) -> (parent: Result<
    git2::Commit<'repo>,
    git2::Error,
>) {
    commit.parent(index)
}

/// `Commit::tree`: reads the tree of a commit.
#[verifier::external_body]
pub(crate) fn commit_tree<'repo>(commit: &git2::Commit<'repo>) -> (tree: Result<
    git2::Tree<'repo>,
    git2::Error,
>) {
    commit.tree()
}

/// `Repository::diff_tree_to_tree`: the difference from `old` (the empty
/// tree if absent) to `new`.
#[verifier::external_body]
pub(crate) fn diff_trees<'repo>(
    repo: &'repo git2::Repository,
    old: Option<&git2::Tree<'_>>,
    new: &git2::Tree<'_>,
    opts: &mut git2::DiffOptions,
) -> (diff: Result<git2::Diff<'repo>, git2::Error>) {
    repo.diff_tree_to_tree(old, Some(new), Some(opts))
}

/// `Diff::deltas`, counted: the number of changed files.
#[verifier::external_body]
pub(crate) fn diff_delta_count(diff: &git2::Diff<'_>) -> (count: usize) {
    diff.deltas().len()
}

/// `DiffOptions::new`: the default options.
#[verifier::external_body]
pub(crate) fn new_diff_options() -> (opts: git2::DiffOptions) {
    git2::DiffOptions::new()
}

/// `DiffOptions::pathspec`: adds a path pattern. The call panics on a
/// pattern that holds a NUL character, so such a pattern is not admitted.
#[verifier::external_body]
pub(crate) fn diff_options_add_pathspec(opts: &mut git2::DiffOptions, spec: &str)
    requires
        !has_nul(spec@),
{
    opts.pathspec(spec);
}

/// `Pathspec::new`: compiles a list of path patterns.
#[verifier::external_body]
pub(crate) fn new_pathspec(specs: &Vec<String>) -> (compiled: Result<git2::Pathspec, git2::Error>) {
    git2::Pathspec::new(specs.iter())
}

/// `Pathspec::match_tree` with `NO_MATCH_ERROR`: whether the call reports
/// success, which with that flag means that some file of the tree matches.
#[verifier::external_body]
pub(crate) fn pathspec_matches_tree(spec: &git2::Pathspec, tree: &git2::Tree<'_>) -> (matched: bool) {
    spec.match_tree(tree, git2::PathspecFlags::NO_MATCH_ERROR).is_ok()
}

/// `Repository::discover`: opens the repository at or above `path`. The
/// path is first made a C string, which fails on a NUL character, so
/// nothing is discovered from such a path.
#[verifier::external_body]
pub(crate) fn discover_repository(path: &str) -> (repo: Result<git2::Repository, git2::Error>)
    ensures
        has_nul(path@) ==> repo is Err,
{
    git2::Repository::discover(path)
}

/// `Repository::workdir`, as text; absent for a bare repository.
#[verifier::external_body]
pub(crate) fn repository_workdir(repo: &git2::Repository) -> (dir: Option<String>) {
    repo.workdir().map(|p| p.to_string_lossy().to_string())
}

/// `Repository::path`, as text: where the repository's own files lie.
#[verifier::external_body]
pub(crate) fn repository_path(repo: &git2::Repository) -> (dir: String) {
    repo.path().to_string_lossy().to_string()
}

/// `Repository::head`: the reference that HEAD resolves to.
#[verifier::external_body]
pub(crate) fn repository_head<'repo>(repo: &'repo git2::Repository) -> (head: Result<
    git2::Reference<'repo>,
    git2::Error,
>) {
    repo.head()
}

/// `Reference::is_branch`.
#[verifier::external_body]
pub(crate) fn reference_is_branch(reference: &git2::Reference<'_>) -> (yes: bool) {
    reference.is_branch()
}

/// `Reference::shorthand`; absent if not valid UTF-8.
#[verifier::external_body]
pub(crate) fn reference_shorthand(reference: &git2::Reference<'_>) -> (name: Option<String>) {
    reference.shorthand().ok().map(|s| s.to_string())
}

/// `Repository::branches` asked for local branches.
#[verifier::external_body]
pub(crate) fn local_branches<'repo>(repo: &'repo git2::Repository) -> (branches: Result<
    git2::Branches<'repo>,
    git2::Error,
>) {
    repo.branches(Some(git2::BranchType::Local))
}

/// `Branches::next`: the next branch, a failure, or `None` at the end.
#[verifier::external_body]
pub(crate) fn branches_next<'repo>(branches: &mut git2::Branches<'repo>) -> (step: Option<
    Result<git2::Branch<'repo>, git2::Error>,
>) {
    branches.next().map(|step| step.map(|(branch, _)| branch))
}

/// `Branch::name`; `Ok(None)` if the name is not valid UTF-8.
#[verifier::external_body]
pub(crate) fn branch_name(branch: &git2::Branch<'_>) -> (name: Result<Option<String>, git2::Error>) {
    branch.name().map(|name| name.map(|s| s.to_string()))
}

/// `Branch::get`, then `Reference::peel_to_commit`: the commit at the tip.
#[verifier::external_body]
pub(crate) fn branch_tip<'repo>(branch: &git2::Branch<'repo>) -> (tip: Result<
    git2::Commit<'repo>,
    git2::Error,
>) {
    branch.get().peel_to_commit()
}

/// Takes one tag into a list, and says that the enumeration is to go on.
pub fn keep_tag(tags: &mut Vec<(git2::Oid, Vec<u8>)>, target: git2::Oid, name: Vec<u8>) -> (go_on:
    bool)
    ensures
        go_on,
        final(tags)@ == old(tags)@.push((target, name)),
{
    tags.push((target, name));
    true
}

/// `Repository::tag_foreach`: every tag, as the identifier it points at
/// and the bytes of its full name, in the order of the store.
#[verifier::external_body]
pub(crate) fn tag_entries(repo: &git2::Repository) -> (tags: Result<
    Vec<(git2::Oid, Vec<u8>)>,
    git2::Error,
>) {
    let mut tags: Vec<(git2::Oid, Vec<u8>)> = Vec::new();
    repo.tag_foreach(|oid, name| keep_tag(&mut tags, oid, name.to_vec()))?;
    Ok(tags)
}

/// `Repository::find_object` of any kind.
#[verifier::external_body]
pub(crate) fn find_object<'repo>(repo: &'repo git2::Repository, oid: git2::Oid) -> (object: Result<
    git2::Object<'repo>,
    git2::Error,
>) {
    repo.find_object(oid, None)
}

/// `Object::peel_to_commit`: follows tags until a commit is reached.
#[verifier::external_body]
pub(crate) fn object_peel_to_commit<'repo>(object: &git2::Object<'repo>) -> (commit: Result<
    git2::Commit<'repo>,
    git2::Error,
>) {
    object.peel_to_commit()
}

/// `DiffOptions::context_lines`: how many unchanged lines are shown
/// around a change.
#[verifier::external_body]
pub(crate) fn diff_options_context_lines(opts: &mut git2::DiffOptions, lines: u32) {
    opts.context_lines(lines);
}

/// `DiffOptions::interhunk_lines`: how many unchanged lines between two
/// changes still make one hunk of them.
#[verifier::external_body]
pub(crate) fn diff_options_interhunk_lines(opts: &mut git2::DiffOptions, lines: u32) {
    opts.interhunk_lines(lines);
}

/// Takes one line of a patch into a list, and says that the printing is
/// to go on.
pub fn keep_patch_line(lines: &mut Vec<(char, Vec<u8>)>, origin: char, content: Vec<u8>) -> (go_on:
    bool)
    ensures
        go_on,
        final(lines)@ == old(lines)@.push((origin, content)),
{
    lines.push((origin, content));
    true
}

/// `Diff::print` in patch format: every line of the patch, as the
/// character that `DiffLine::origin` gives and the bytes that
/// `DiffLine::content` gives, in order.
#[verifier::external_body]
pub(crate) fn diff_patch_lines(diff: &git2::Diff<'_>) -> (lines: Result<
    Vec<(char, Vec<u8>)>,
    git2::Error,
>) {
    let mut lines: Vec<(char, Vec<u8>)> = Vec::new();
    diff.print(
        git2::DiffFormat::Patch,
        |_delta, _hunk, line| keep_patch_line(&mut lines, line.origin(), line.content().to_vec()),
    )?;
    Ok(lines)
}

} // verus!
