//! The tags of a repository, gathered by the commit that they lead to.

use vstd::prelude::*;
use crate::commit_id::CommitId;
use crate::error::{ErrorKind, GitError};
use crate::git::tag_short_name;
use crate::repo::{id_of_commit, list_tags, read_object};
use crate::store::{error_message, object_peel_to_commit, open_repository};
use crate::text::{
    chars_of, comes_before, text_before, text_order_is_asymmetric, text_order_is_transitive,
    texts_of,
};

verus! {

/// The tags that lead to one commit.
#[derive(Debug, Clone, PartialEq, Eq)]
pub struct TagGroup {
    pub commit: CommitId,
    /// The shown names of the tags, in dictionary order.
    pub names: Vec<String>,
}

/// No text of the list comes before an earlier one.
pub open spec fn texts_sorted(names: Seq<Seq<char>>) -> bool {
    forall|i: int, j: int| 0 <= i < j < names.len() ==> !text_before(names[j], names[i])
}

/// Puts a name into a sorted list at its place: behind every name that
/// does not come after it.
pub fn insert_sorted(names: &mut Vec<String>, name: String)
    requires
        texts_sorted(texts_of(old(names)@)),
    ensures
        texts_sorted(texts_of(final(names)@)),
        exists|at: int|
            0 <= at <= old(names)@.len() && texts_of(final(names)@) == #[trigger] texts_of(
                old(names)@,
            ).insert(at, name@),
{
    let new_chars = chars_of(name.as_str());
    let mut at: usize = 0;
    let mut placed = false;
    while at < names.len() && !placed
        invariant
            at <= names.len(),
            names@ == old(names)@,
            new_chars@ == name@,
            forall|i: int| 0 <= i < at ==> !text_before(name@, #[trigger] names@[i]@),
            placed ==> at < names.len() && text_before(name@, names@[at as int]@),
        decreases names.len() - at + (if placed { 0int } else { 1int }),
    {
        let here = chars_of(names[at].as_str());
        if comes_before(new_chars.as_slice(), here.as_slice()) {
            placed = true;
        } else {
            at += 1;
        }
    }
    let ghost before = texts_of(names@);
    names.insert(at, name);
    proof {
        let after = texts_of(names@);
        assert(after =~= before.insert(at as int, name@));
        assert forall|i: int, j: int| 0 <= i < j < after.len() implies !text_before(
            after[j],
            after[i],
        ) by {
            if j == at {
                assert(after[i] == before[i]);
                assert(before[i] == old(names)@[i]@);
            } else if i == at {
                let p = at as int;
                assert(after[j] == before[j - 1]);
                assert(text_before(name@, before[p]));
                text_order_is_asymmetric(name@, before[p]);
                if j - 1 > p {
                    assert(!text_before(before[j - 1], before[p]));
                    if text_before(before[j - 1], name@) {
                        text_order_is_transitive(before[j - 1], name@, before[p]);
                    }
                }
            } else {
                let bi = if i < at { i } else { i - 1 };
                let bj = if j < at { j } else { j - 1 };
                assert(after[i] == before[bi] && after[j] == before[bj]);
            }
        }
    }
}

/// The place of the group of a commit in a list of groups, if there is
/// one.
fn group_of(groups: &Vec<TagGroup>, commit: &CommitId) -> (found: Option<usize>)
    ensures
        match found {
            Some(at) => at < groups@.len() && groups@[at as int].commit@ == commit@,
            None => forall|i: int| 0 <= i < groups@.len() ==> (#[trigger] groups@[i]).commit@ != commit@,
        },
{
    let mut i: usize = 0;
    while i < groups.len()
        invariant
            i <= groups.len(),
            forall|k: int| 0 <= k < i ==> (#[trigger] groups@[k]).commit@ != commit@,
        decreases groups.len() - i,
    {
        if groups[i].commit.same(commit) {
            return Some(i);
        }
        i += 1;
    }
    None
}

/// The groups are sound: no commit has two groups, no group is empty, and
/// the names of each group are in dictionary order.
pub open spec fn groups_wf(groups: Seq<TagGroup>) -> bool {
    &&& forall|i: int, j: int|
        0 <= i < j < groups.len() ==> (#[trigger] groups[i]).commit@ != (#[trigger] groups[j]).commit@
    &&& forall|i: int|
        0 <= i < groups.len() ==> {
            &&& (#[trigger] groups[i]).names@.len() > 0
            &&& texts_sorted(texts_of(groups[i].names@))
        }
}

/// The name `name` stands in the group of the commit `commit`.
pub open spec fn grouped(groups: Seq<TagGroup>, commit: Seq<u8>, name: Seq<char>) -> bool {
    exists|g: int, n: int|
        0 <= g < groups.len() && 0 <= n < groups[g].names@.len() && (#[trigger] groups[g]).commit@
            == commit && (#[trigger] groups[g].names@[n])@ == name
}

/// The tag `(commit, name)` is one of the list.
pub open spec fn listed(tags: Seq<(CommitId, String)>, commit: Seq<u8>, name: Seq<char>) -> bool {
    exists|k: int| 0 <= k < tags.len() && (#[trigger] tags[k]).0@ == commit && tags[k].1@ == name
}

/// Adds one tag to the groups: to the group of its commit if there is one,
/// and else to a new group at the end.
fn add_tag(groups: &mut Vec<TagGroup>, commit: CommitId, name: String)
    requires
        groups_wf(old(groups)@),
    ensures
        groups_wf(final(groups)@),
        grouped(final(groups)@, commit@, name@),
        forall|c: Seq<u8>, n: Seq<char>|
            grouped(old(groups)@, c, n) ==> grouped(final(groups)@, c, n),
        forall|c: Seq<u8>, n: Seq<char>|
            grouped(final(groups)@, c, n) ==> grouped(old(groups)@, c, n) || (c == commit@ && n
                == name@),
{
    let ghost before = groups@;
    match group_of(groups, &commit) {
        Some(at) => {
            let mut names: Vec<String> = Vec::new();
            std::mem::swap(&mut names, &mut groups[at].names);
            let ghost old_names = names@;
            insert_sorted(&mut names, name);
            let ghost place = choose|p: int|
                0 <= p <= old_names.len() && texts_of(names@) == #[trigger] texts_of(
                    old_names,
                ).insert(p, name@);
            groups[at].names = names;
            proof {
                let after = groups@;
                let a = at as int;
                assert(after.len() == before.len());
                assert forall|i: int| 0 <= i < after.len() implies (#[trigger] after[i]).commit
                    == before[i].commit by {}
                assert forall|i: int| 0 <= i < after.len() && i != a implies (#[trigger] after[i])
                    == before[i] by {}
                assert(texts_of(after[a].names@) == texts_of(before[a].names@).insert(
                    place,
                    name@,
                ));
                assert(after[a].names@[place]@ == texts_of(after[a].names@)[place]);
                assert(grouped(after, commit@, name@));
                assert forall|c: Seq<u8>, n: Seq<char>| grouped(before, c, n) implies grouped(
                    after,
                    c,
                    n,
                ) by {
                    let (g, k) = choose|g: int, k: int|
                        0 <= g < before.len() && 0 <= k < before[g].names@.len() && (
                        #[trigger] before[g]).commit@ == c && (#[trigger] before[g].names@[k])@
                            == n;
                    if g == a {
                        let k2 = if k < place { k } else { k + 1 };
                        assert(texts_of(before[a].names@)[k] == n);
                        assert(texts_of(after[a].names@)[k2] == n);
                        assert(after[a].names@[k2]@ == n);
                    } else {
                        assert(after[g] == before[g]);
                        assert(after[g].names@[k]@ == n);
                    }
                }
                assert forall|c: Seq<u8>, n: Seq<char>| grouped(after, c, n) implies grouped(
                    before,
                    c,
                    n,
                ) || (c == commit@ && n == name@) by {
                    let (g, k) = choose|g: int, k: int|
                        0 <= g < after.len() && 0 <= k < after[g].names@.len() && (
                        #[trigger] after[g]).commit@ == c && (#[trigger] after[g].names@[k])@ == n;
                    if g == a {
                        assert(texts_of(after[a].names@)[k] == n);
                        if k != place {
                            let k0 = if k < place { k } else { k - 1 };
                            assert(texts_of(before[a].names@)[k0] == n);
                            assert(before[a].names@[k0]@ == n);
                        }
                    } else {
                        assert(after[g] == before[g]);
                        assert(before[g].names@[k]@ == n);
                    }
                }
            }
        },
        None => {
            let mut names: Vec<String> = Vec::new();
            names.push(name);
            groups.push(TagGroup { commit, names });
            proof {
                let after = groups@;
                let last = before.len() as int;
                assert(after[last].names@[0]@ == name@);
                assert(grouped(after, commit@, name@));
                assert forall|c: Seq<u8>, n: Seq<char>| grouped(before, c, n) implies grouped(
                    after,
                    c,
                    n,
                ) by {
                    let (g, k) = choose|g: int, k: int|
                        0 <= g < before.len() && 0 <= k < before[g].names@.len() && (
                        #[trigger] before[g]).commit@ == c && (#[trigger] before[g].names@[k])@
                            == n;
                    assert(after[g] == before[g]);
                    assert(after[g].names@[k]@ == n);
                }
                assert forall|c: Seq<u8>, n: Seq<char>| grouped(after, c, n) implies grouped(
                    before,
                    c,
                    n,
                ) || (c == commit@ && n == name@) by {
                    let (g, k) = choose|g: int, k: int|
                        0 <= g < after.len() && 0 <= k < after[g].names@.len() && (
                        #[trigger] after[g]).commit@ == c && (#[trigger] after[g].names@[k])@ == n;
                    if g < last {
                        assert(after[g] == before[g]);
                        assert(before[g].names@[k]@ == n);
                    }
                }
            }
        },
    }
}

/// Gathers tags by commit. Every commit that a tag leads to has one group,
/// in the order in which the commits first occur; the group holds the
/// names of all tags of the commit and no other, in dictionary order.
pub fn group_tags(tags: &Vec<(CommitId, String)>) -> (groups: Vec<TagGroup>)
    ensures
        groups_wf(groups@),
        forall|c: Seq<u8>, n: Seq<char>| grouped(groups@, c, n) <==> listed(tags@, c, n),
{
    let mut groups: Vec<TagGroup> = Vec::new();
    let ghost all = tags@;
    let mut i: usize = 0;
    while i < tags.len()
        invariant
            i <= tags.len(),
            all == tags@,
            groups_wf(groups@),
            forall|c: Seq<u8>, n: Seq<char>|
                grouped(groups@, c, n) <==> listed(all.take(i as int), c, n),
        decreases tags.len() - i,
    {
        let ghost before = groups@;
        let commit = tags[i].0;
        let name = tags[i].1.clone();
        add_tag(&mut groups, commit, name);
        proof {
            let done = all.take(i as int);
            let more = all.take(i + 1);
            assert(more[i as int] == all[i as int]);
            assert forall|c: Seq<u8>, n: Seq<char>| grouped(groups@, c, n) <==> listed(
                more,
                c,
                n,
            ) by {
                if listed(more, c, n) {
                    let k = choose|k: int|
                        0 <= k < more.len() && (#[trigger] more[k]).0@ == c && more[k].1@ == n;
                    if k < i {
                        assert(done[k] == more[k]);
                        assert(listed(done, c, n));
                    }
                }
                if grouped(groups@, c, n) {
                    if grouped(before, c, n) {
                        let k = choose|k: int|
                            0 <= k < done.len() && (#[trigger] done[k]).0@ == c && done[k].1@ == n;
                        assert(more[k] == done[k]);
                    } else {
                        assert(more[i as int].0@ == c && more[i as int].1@ == n);
                    }
                }
            }
        }
        i += 1;
    }
    assert(all.take(i as int) =~= all);
    groups
}

/// The commit that a tag is gathered under, given the commit that
/// following tags from its target reaches, if any: that commit, and the
/// target itself where none is reached.
pub fn commit_of_tag(peeled: Option<CommitId>, target: CommitId) -> (commit: CommitId)
    ensures
        commit == match peeled {
            Some(reached) => reached,
            None => target,
        },
{
    match peeled {
        Some(reached) => reached,
        None => target,
    }
}

/// The commit that a tag leads to: the commit reached by following tags
/// from the object it points at, or that object's identifier if no commit
/// is reached.
fn tagged_commit(repo: &git2::Repository, target: &CommitId) -> (commit: CommitId) {
    let peeled = match read_object(repo, target) {
        Ok(object) => match object_peel_to_commit(&object) {
            Ok(commit) => Some(id_of_commit(&commit)),
            Err(_) => None,
        },
        Err(_) => None,
    };
    commit_of_tag(peeled, *target)
}

/// The tags of the repository at `path`, gathered by the commit that they
/// lead to. A tag with an empty shown name is left out.
pub fn get_tags(path: &str) -> (gathered: Result<Vec<TagGroup>, GitError>)
    ensures
        crate::store::has_nul(path@) ==> (gathered matches Err(e) && e.kind
            == ErrorKind::NotARepository),
        gathered matches Ok(groups) ==> groups_wf(groups@),
        gathered matches Err(e) ==> e.kind == ErrorKind::NotARepository || e.kind == ErrorKind::Store,
{
    let repo = match open_repository(path) {
        Ok(repo) => repo,
        Err(e) => {
            return Err(GitError::new(ErrorKind::NotARepository, error_message(&e)));
        },
    };
    let entries = match list_tags(&repo) {
        Ok(entries) => entries,
        Err(e) => {
            return Err(GitError::new(ErrorKind::Store, error_message(&e)));
        },
    };
    let mut tags: Vec<(CommitId, String)> = Vec::new();
    let mut i: usize = 0;
    while i < entries.len()
        invariant
            i <= entries.len(),
        decreases entries.len() - i,
    {
        let name = tag_short_name(entries[i].1.as_slice());
        if name.as_str().unicode_len() > 0 {
            tags.push((tagged_commit(&repo, &entries[i].0), name));
        }
        i += 1;
    }
    Ok(group_tags(&tags))
}

} // verus!
