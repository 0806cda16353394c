//! The object store addressed by the library's own identifiers: each
//! function here turns identifiers into those of the store, asks the store,
//! and turns what comes back into identifiers of the library.

use vstd::prelude::*;
use crate::commit_id::CommitId;
use crate::seeds::ParsedRevspec;
use crate::store::{
    commit_id, find_commit, find_commit_object, find_object, id_of_oid, merge_base, object_id,
    oid_of_id, revparse, revparse_single, revspec_from, revspec_is_merge_base,
    revspec_is_single, revspec_to, revwalk_hide, revwalk_next, revwalk_push, tag_entries,
};

verus! {

/// An optional identifier of the store as one of the library.
fn id_of_optional(oid: Option<git2::Oid>) -> (id: Option<CommitId>)
    ensures
        id is Some == oid is Some,
{
    match oid {
        Some(oid) => Some(id_of_oid(oid)),
        None => None,
    }
}

/// The next identifier of a traversal, a failure, or `None` when the
/// traversal is exhausted.
pub(crate) fn next_id(walk: &mut git2::Revwalk<'_>) -> (step: Option<
    Result<CommitId, git2::Error>,
>) {
    match revwalk_next(walk) {
        Some(Ok(oid)) => Some(Ok(id_of_oid(oid))),
        Some(Err(e)) => Some(Err(e)),
        None => None,
    }
}

/// Marks a commit as a root of a traversal.
pub(crate) fn push_id(walk: &mut git2::Revwalk<'_>, id: &CommitId) -> (done: Result<
    (),
    git2::Error,
>) {
    match oid_of_id(id) {
        Ok(oid) => revwalk_push(walk, oid),
        Err(e) => Err(e),
    }
}

/// Leaves a commit and its ancestors out of a traversal.
pub(crate) fn hide_id(walk: &mut git2::Revwalk<'_>, id: &CommitId) -> (done: Result<
    (),
    git2::Error,
>) {
    match oid_of_id(id) {
        Ok(oid) => revwalk_hide(walk, oid),
        Err(e) => Err(e),
    }
}

/// The object that a revision string names.
pub(crate) fn resolve_single(repo: &git2::Repository, spec: &str) -> (id: Result<
    CommitId,
    git2::Error,
>)
    ensures
        crate::store::has_nul(spec@) ==> id is Err,
{
    match revparse_single(repo, spec) {
        Ok(object) => Ok(id_of_oid(object_id(&object))),
        Err(e) => Err(e),
    }
}

/// The ends and the kind of a revision spec.
pub(crate) fn resolve_spec(repo: &git2::Repository, spec: &str) -> (parsed: Result<
    ParsedRevspec,
    git2::Error,
>)
    ensures
        crate::store::has_nul(spec@) ==> parsed is Err,
{
    match revparse(repo, spec) {
        Ok(found) => Ok(
            ParsedRevspec {
                from: id_of_optional(revspec_from(&found)),
                to: id_of_optional(revspec_to(&found)),
                single: revspec_is_single(&found),
                merge_base: revspec_is_merge_base(&found),
            },
        ),
        Err(e) => Err(e),
    }
}

/// A best common ancestor of two commits, if it is a commit.
pub(crate) fn merge_base_commit(repo: &git2::Repository, one: &CommitId, two: &CommitId) -> (base:
    Result<CommitId, git2::Error>) {
    let first = match oid_of_id(one) {
        Ok(oid) => oid,
        Err(e) => {
            return Err(e);
        },
    };
    let second = match oid_of_id(two) {
        Ok(oid) => oid,
        Err(e) => {
            return Err(e);
        },
    };
    let base = match merge_base(repo, first, second) {
        Ok(oid) => oid,
        Err(e) => {
            return Err(e);
        },
    };
    match find_commit_object(repo, base) {
        Ok(object) => Ok(id_of_oid(object_id(&object))),
        Err(e) => Err(e),
    }
}

/// Reads a commit.
pub(crate) fn read_commit<'repo>(repo: &'repo git2::Repository, id: &CommitId) -> (commit: Result<
    git2::Commit<'repo>,
    git2::Error,
>) {
    match oid_of_id(id) {
        Ok(oid) => find_commit(repo, oid),
        Err(e) => Err(e),
    }
}

/// Reads an object of any kind.
pub(crate) fn read_object<'repo>(repo: &'repo git2::Repository, id: &CommitId) -> (object: Result<
    git2::Object<'repo>,
    git2::Error,
>) {
    match oid_of_id(id) {
        Ok(oid) => find_object(repo, oid),
        Err(e) => Err(e),
    }
}

/// The identifier of a commit that was read.
pub(crate) fn id_of_commit(commit: &git2::Commit<'_>) -> (id: CommitId) {
    id_of_oid(commit_id(commit))
}

/// Every tag, as the identifier it points at and the bytes of its full
/// name, in the order of the store.
pub(crate) fn list_tags(repo: &git2::Repository) -> (tags: Result<
    Vec<(CommitId, Vec<u8>)>,
    git2::Error,
>) {
    let entries = match tag_entries(repo) {
        Ok(entries) => entries,
        Err(e) => {
            return Err(e);
        },
    };
    let mut tags: Vec<(CommitId, Vec<u8>)> = Vec::new();
    let mut i: usize = 0;
    while i < entries.len()
        invariant
            i <= entries.len(),
            tags@.len() == i,
            forall|k: int| 0 <= k < i ==> (#[trigger] tags@[k]).1@ == entries@[k].1@,
        decreases entries.len() - i,
    {
        tags.push((id_of_oid(entries[i].0), entries[i].1.clone()));
        i += 1;
    }
    Ok(tags)
}

} // verus!
