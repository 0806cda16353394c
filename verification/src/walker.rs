//! The revision walk: a filtered, ordered stream of commits that is handed
//! out one commit or one page at a time.
//!
//! What the store answers cannot be known beforehand. The walker therefore
//! keeps, as ghost state, the list of every answer it has had so far, and
//! each contract says what was handed out in terms of the answers that the
//! call added to that list.

use vstd::prelude::*;
use vstd::string::StringExecFns;
use std::sync::Arc;
use std::sync::atomic::AtomicBool;
use crate::cancel::is_cancelled;
use crate::clock::{format_datetime, shown_datetime};
use crate::commit_id::CommitId;
use crate::error::{cancelled_message, ErrorKind, GitError};
use crate::hex::hex_text;
use crate::query::{
    ask_on, asked_in_turn, difference_touches, passes_filters, probe_needed, root_verdict,
    verdict_by_the_rules,
    verdict_of_parents, verdict_of_root, CommitFacts, CommitQueryOptions, CommitSort, CommitTime,
    FactsView, ParentAnswer, PathProbe, Person, QueryView,
};
use crate::seeds::{
    hidden_spec, plan_seeds, planned_seeds, split_hide, steps_of, well_resolved, Resolved,
    SeedStep, WalkSetup,
};
use crate::repo::{
    hide_id, merge_base_commit, next_id, push_id, read_commit, resolve_single, resolve_spec,
};
use crate::store::{
    commit_author_email, commit_author_name, commit_author_time, commit_committer_email,
    commit_committer_name, commit_message, commit_message_lossy, commit_parent,
    commit_parent_count, commit_tree, diff_delta_count, diff_options_add_pathspec, diff_trees,
    error_message, has_nul, new_diff_options, new_pathspec, new_revwalk, pathspec_matches_tree,
    revwalk_push_head, revwalk_set_sorting,
};
use crate::text::chars_of;

verus! {

/// One commit as it is handed out.
#[derive(Debug, Clone, PartialEq, Eq)]
pub struct GitCommit {
    pub id: CommitId,
    /// The author's name; empty if it is not valid UTF-8.
    pub author: String,
    /// The message, with every invalid byte sequence replaced.
    pub message: String,
    pub authored_at: CommitTime,
}

/// A handed-out commit as plain values.
pub struct RecordView {
    pub id: Seq<u8>,
    pub author: Seq<char>,
    pub message: Seq<char>,
    pub authored_at: CommitTime,
}

impl View for GitCommit {
    type V = RecordView;

    open spec fn view(&self) -> RecordView {
        RecordView {
            id: self.id@,
            author: self.author@,
            message: self.message@,
            authored_at: self.authored_at,
        }
    }
}

/// The views of a list of handed-out commits.
pub open spec fn record_views(page: Seq<GitCommit>) -> Seq<RecordView> {
    page.map_values(|c: GitCommit| c@)
}

/// The record that is handed out for a commit with the given facts.
pub open spec fn record_of(facts: FactsView) -> RecordView {
    RecordView {
        id: facts.id,
        author: match facts.author.name {
            Some(name) => name,
            None => Seq::empty(),
        },
        message: facts.message_lossy,
        authored_at: facts.authored_at,
    }
}

impl GitCommit {
    /// The record that is handed out for a commit with the given facts.
    pub fn from_facts(facts: &CommitFacts) -> (record: GitCommit)
        ensures
            record@ == record_of(facts@),
    {
        let author = match &facts.author.name {
            Some(name) => name.clone(),
            None => String::new(),
        };
        GitCommit {
            id: facts.id,
            author,
            message: facts.message_lossy.clone(),
            authored_at: facts.authored_at,
        }
    }

    /// The identifier as forty lowercase hexadecimal digits.
    pub fn id_hex(&self) -> (text: String)
        ensures
            text@ == hex_text(self.id@),
    {
        self.id.to_hex()
    }

    /// The author's wall-clock time to the minute; empty where the moment
    /// cannot be written.
    pub fn date(&self) -> (text: String)
        ensures
            text@ == match shown_datetime(self.authored_at) {
                Some(t) => t,
                None => Seq::<char>::empty(),
            },
    {
        match format_datetime(&self.authored_at) {
            Some(t) => t,
            None => String::new(),
        }
    }
}

/// One answer to the walker's request for the next candidate.
#[derive(Debug, Clone, PartialEq, Eq)]
pub enum Pull {
    /// The traversal gave a commit; these are its facts and what the store
    /// said about its paths.
    Candidate { facts: CommitFacts, probe: PathProbe },
    /// The traversal is exhausted.
    EndOfWalk,
    /// The cancellation flag was found raised.
    Cancelled,
    /// The store failed, or the walker has drawn as many candidates as it
    /// can count; the message says which.
    Failed(String),
}

/// An answer as plain values.
pub enum PullView {
    Candidate { facts: FactsView, probe: PathProbe },
    EndOfWalk,
    Cancelled,
    Failed(Seq<char>),
}

impl View for Pull {
    type V = PullView;

    open spec fn view(&self) -> PullView {
        match *self {
            Pull::Candidate { facts, probe } => PullView::Candidate { facts: facts@, probe },
            Pull::EndOfWalk => PullView::EndOfWalk,
            Pull::Cancelled => PullView::Cancelled,
            Pull::Failed(message) => PullView::Failed(message@),
        }
    }
}

/// The record handed out for an answer: that of a candidate that passes
/// every filter, and nothing for any other answer.
pub open spec fn shown(opts: QueryView, pull: PullView) -> Option<RecordView> {
    match pull {
        PullView::Candidate { facts, probe } => if passes_filters(opts, facts, probe) {
            Some(record_of(facts))
        } else {
            None
        },
        _ => None,
    }
}

/// The answer is a candidate that some filter rejects: the walk goes on
/// past it.
pub open spec fn skipped(opts: QueryView, pull: PullView) -> bool {
    pull is Candidate && shown(opts, pull) is None
}

/// The records handed out for a list of answers: those of the candidates
/// that pass, in the order of the answers.
pub open spec fn records(opts: QueryView, pulls: Seq<PullView>) -> Seq<RecordView>
    decreases pulls.len(),
{
    if pulls.len() == 0 {
        Seq::empty()
    } else {
        match shown(opts, pulls.last()) {
            Some(r) => records(opts, pulls.drop_last()).push(r),
            None => records(opts, pulls.drop_last()),
        }
    }
}

/// What `next` returns, as plain values.
pub open spec fn step_view(step: Option<Result<GitCommit, GitError>>) -> Option<
    Result<RecordView, (ErrorKind, Seq<char>)>,
> {
    match step {
        None => None,
        Some(Ok(c)) => Some(Ok(c@)),
        Some(Err(e)) => Some(Err(e@)),
    }
}

/// What `next` returns when the answer it stopped at is `last`: the record
/// of a candidate, `None` at the end of the walk, and the matching failure
/// otherwise.
pub open spec fn answer_of(last: PullView) -> Option<Result<RecordView, (ErrorKind, Seq<char>)>> {
    match last {
        PullView::Candidate { facts, probe } => Some(Ok(record_of(facts))),
        PullView::EndOfWalk => None,
        PullView::Cancelled => Some(Err((ErrorKind::Cancelled, cancelled_message()))),
        PullView::Failed(message) => Some(Err((ErrorKind::Store, message))),
    }
}

/// `whole` begins with `head`.
pub open spec fn extends(whole: Seq<PullView>, head: Seq<PullView>) -> bool {
    head.len() <= whole.len() && whole.take(head.len() as int) == head
}

/// A walk over the commits of one repository. It owns the traversal, so
/// that each page takes up where the last one stopped.
pub struct CommitWalker<'repo> {
    repo: &'repo git2::Repository,
    revwalk: git2::Revwalk<'repo>,
    opts: CommitQueryOptions,
    pathspec: Option<git2::Pathspec>,
    diffopts: git2::DiffOptions,
    drawn: u64,
    setup: Ghost<WalkSetup>,
    answers: Ghost<Seq<PullView>>,
}

/// A store failure while a walk is set up, reported as an invalid revision.
fn invalid_revision(e: &git2::Error) -> (failure: GitError)
    ensures
        failure.kind == ErrorKind::InvalidRevision,
{
    GitError::new(ErrorKind::InvalidRevision, error_message(e))
}

/// Whether a NUL character stands in the text.
pub fn contains_nul(text: &str) -> (yes: bool)
    ensures
        yes == has_nul(text@),
{
    let chars = chars_of(text);
    let mut i: usize = 0;
    while i < chars.len()
        invariant
            i <= chars.len(),
            chars@ == text@,
            forall|j: int| 0 <= j < i ==> chars@[j] != '\0',
        decreases chars.len() - i,
    {
        if chars[i] == '\0' {
            return true;
        }
        i += 1;
    }
    false
}

/// Some path filter holds a NUL character.
pub open spec fn some_path_has_nul(opts: QueryView) -> bool {
    exists|i: int| 0 <= i < opts.pathspecs.len() && has_nul(#[trigger] opts.pathspecs[i])
}

/// Some starting point holds a NUL character.
pub open spec fn some_spec_has_nul(opts: QueryView) -> bool {
    exists|i: int| 0 <= i < opts.revspecs.len() && has_nul(#[trigger] opts.revspecs[i])
}

/// Carries out one instruction to the traversal.
fn apply_seed(repo: &git2::Repository, revwalk: &mut git2::Revwalk<'_>, step: &SeedStep) -> (done:
    Result<(), git2::Error>) {
    match step {
        SeedStep::Push(id) => push_id(revwalk, id),
        SeedStep::Hide(id) => hide_id(revwalk, id),
        SeedStep::PushHead => revwalk_push_head(revwalk),
        SeedStep::PushMergeBase(from, to) => match merge_base_commit(repo, from, to) {
            Ok(base) => push_id(revwalk, &base),
            Err(e) => Err(e),
        },
    }
}

/// Carries out instructions to the traversal, in order.
fn apply_seeds(repo: &git2::Repository, revwalk: &mut git2::Revwalk<'_>, steps: &Vec<SeedStep>) -> (done:
    Result<(), GitError>)
    ensures
        steps@.len() == 0 ==> done is Ok,
        done matches Err(e) ==> e.kind == ErrorKind::InvalidRevision,
{
    let mut i: usize = 0;
    while i < steps.len()
        invariant
            i <= steps.len(),
        decreases steps.len() - i,
    {
        match apply_seed(repo, revwalk, &steps[i]) {
            Ok(()) => {},
            Err(e) => {
                return Err(invalid_revision(&e));
            },
        }
        i += 1;
    }
    Ok(())
}

/// Resolves one starting point and instructs the traversal accordingly.
/// Says what the starting point was resolved to.
fn seed_from_spec(repo: &git2::Repository, revwalk: &mut git2::Revwalk<'_>, spec: &str) -> (done:
    Result<Ghost<Resolved>, GitError>)
    ensures
        has_nul(spec@) ==> done is Err,
        match done {
            Ok(resolved) => {
                &&& resolved@ is Hidden <==> hidden_spec(spec@) is Some
                &&& steps_of(resolved@) is Some
            },
            Err(e) => e.kind == ErrorKind::InvalidRevision,
        },
{
    match split_hide(spec) {
        Some(rest) => {
            proof {
                if has_nul(spec@) {
                    let i = choose|i: int| 0 <= i < spec@.len() && spec@[i] == '\0';
                    assert(rest@[i - 1] == spec@[i]);
                }
            }
            let id = match resolve_single(repo, rest.as_str()) {
                Ok(id) => id,
                Err(e) => {
                    return Err(invalid_revision(&e));
                },
            };
            let mut steps: Vec<SeedStep> = Vec::new();
            steps.push(SeedStep::Hide(id));
            match apply_seeds(repo, revwalk, &steps) {
                Ok(()) => Ok(Ghost(Resolved::Hidden(id))),
                Err(e) => Err(e),
            }
        },
        None => {
            let parsed = match resolve_spec(repo, spec) {
                Ok(parsed) => parsed,
                Err(e) => {
                    return Err(invalid_revision(&e));
                },
            };
            let steps = match plan_seeds(&parsed) {
                Some(steps) => steps,
                None => {
                    return Err(
                        GitError::new(
                            ErrorKind::InvalidRevision,
                            String::from_str("revision spec has an unresolved end"),
                        ),
                    );
                },
            };
            match apply_seeds(repo, revwalk, &steps) {
                Ok(()) => Ok(Ghost(Resolved::Parsed(parsed))),
                Err(e) => Err(e),
            }
        },
    }
}

/// What the filters read of a commit, taken from the commit object.
fn read_facts(id: CommitId, commit: &git2::Commit<'_>) -> (facts: CommitFacts)
    ensures
        facts.id == id,
{
    CommitFacts {
        id,
        parent_count: commit_parent_count(commit),
        author: Person { name: commit_author_name(commit), email: commit_author_email(commit) },
        committer: Person {
            name: commit_committer_name(commit),
            email: commit_committer_email(commit),
        },
        message: commit_message(commit),
        message_lossy: commit_message_lossy(commit),
        authored_at: commit_author_time(commit),
    }
}

/// The number of files that the difference from a parent to its child
/// changes under the path filter, if the store can compute it.
fn changed_files(
    repo: &git2::Repository,
    commit: &git2::Commit<'_>,
    parent: &git2::Commit<'_>,
    opts: &mut git2::DiffOptions,
) -> (changed: Option<usize>) {
    let old_tree = match commit_tree(parent) {
        Ok(tree) => tree,
        Err(_) => {
            return None;
        },
    };
    let new_tree = match commit_tree(commit) {
        Ok(tree) => tree,
        Err(_) => {
            return None;
        },
    };
    match diff_trees(repo, Some(&old_tree), &new_tree, opts) {
        Ok(diff) => Some(diff_delta_count(&diff)),
        Err(_) => None,
    }
}

/// Whether the difference from a parent to its child, under the path
/// filter, changes any file. A failure of the store counts as no change.
fn match_with_parent(
    repo: &git2::Repository,
    commit: &git2::Commit<'_>,
    parent: &git2::Commit<'_>,
    opts: &mut git2::DiffOptions,
) -> bool {
    let changed = changed_files(repo, commit, parent, opts);
    difference_touches(changed)
}

impl<'repo> CommitWalker<'repo> {
    /// What the walk was asked for.
    pub closed spec fn options(&self) -> QueryView {
        self.opts@
    }

    /// How the traversal was set up.
    pub closed spec fn setup(&self) -> WalkSetup {
        self.setup@
    }

    /// Every answer the walker has had so far, oldest first.
    pub closed spec fn answers(&self) -> Seq<PullView> {
        self.answers@
    }

    /// The number of candidates drawn from the traversal so far.
    pub closed spec fn drawn(&self) -> nat {
        self.drawn as nat
    }

    /// Sets up a walk. The order is set as asked. Every starting point is
    /// resolved in turn: one behind `^` is hidden with its ancestors, a
    /// single revision is pushed, a range pushes its `to` end (and,
    /// written with `...`, the merge base) and hides its `from` end; with
    /// no starting point the current HEAD is pushed. Whatever the store
    /// refuses on the way is reported as an invalid revision, and so is a
    /// starting point or a path filter that holds a NUL character.
    pub fn new(repo: &'repo git2::Repository, opts: CommitQueryOptions) -> (made: Result<
        CommitWalker<'repo>,
        GitError,
    >)
        ensures
            match made {
                Ok(walker) => {
                    &&& walker.options() == opts@
                    &&& walker.answers() == Seq::<PullView>::empty()
                    &&& walker.drawn() == 0
                    &&& !some_path_has_nul(opts@)
                    &&& !some_spec_has_nul(opts@)
                    &&& walker.setup().topological == (opts.sort == CommitSort::Topological)
                    &&& walker.setup().by_time == (opts.sort == CommitSort::Time)
                    &&& walker.setup().reverse == opts.reverse
                    &&& exists|resolved: Seq<Resolved>|
                        well_resolved(opts@.revspecs, resolved) && walker.setup().seeds
                            == #[trigger] planned_seeds(opts@.revspecs, resolved)
                },
                Err(e) => e.kind == ErrorKind::InvalidRevision,
            },
    {
        let mut revwalk = match new_revwalk(repo) {
            Ok(revwalk) => revwalk,
            Err(e) => {
                return Err(invalid_revision(&e));
            },
        };
        let topological = opts.sort == CommitSort::Topological;
        let by_time = opts.sort == CommitSort::Time;
        match revwalk_set_sorting(&mut revwalk, topological, by_time, opts.reverse) {
            Ok(()) => {},
            Err(e) => {
                return Err(invalid_revision(&e));
            },
        }
        let ghost mut resolved: Seq<Resolved> = Seq::empty();
        let mut i: usize = 0;
        while i < opts.revspecs.len()
            invariant
                i <= opts.revspecs.len(),
                forall|j: int| 0 <= j < i ==> !has_nul(#[trigger] opts@.revspecs[j]),
                well_resolved(opts@.revspecs.take(i as int), resolved),
            decreases opts.revspecs.len() - i,
        {
            let spec = opts.revspecs[i].as_str();
            assert(opts@.revspecs[i as int] == spec@);
            match seed_from_spec(repo, &mut revwalk, spec) {
                Ok(one) => {
                    proof {
                        let longer = resolved.push(one@);
                        assert forall|k: int| 0 <= k < longer.len() implies {
                            &&& (#[trigger] longer[k]) is Hidden <==> hidden_spec(
                                opts@.revspecs.take(i + 1)[k],
                            ) is Some
                            &&& steps_of(longer[k]) is Some
                        } by {
                            if k < i {
                                assert(longer[k] == resolved[k]);
                                assert(opts@.revspecs.take(i + 1)[k] == opts@.revspecs.take(
                                    i as int,
                                )[k]);
                            }
                        }
                        resolved = longer;
                    }
                },
                Err(e) => {
                    return Err(e);
                },
            }
            i += 1;
        }
        proof {
            assert(opts@.revspecs.take(i as int) =~= opts@.revspecs);
        }
        if opts.revspecs.len() == 0 {
            let mut steps: Vec<SeedStep> = Vec::new();
            steps.push(SeedStep::PushHead);
            match apply_seeds(repo, &mut revwalk, &steps) {
                Ok(()) => {},
                Err(e) => {
                    return Err(e);
                },
            }
        }
        let mut diffopts = new_diff_options();
        let mut k: usize = 0;
        while k < opts.pathspecs.len()
            invariant
                k <= opts.pathspecs.len(),
                !some_spec_has_nul(opts@),
                forall|j: int| 0 <= j < k ==> !has_nul(#[trigger] opts@.pathspecs[j]),
            decreases opts.pathspecs.len() - k,
        {
            let spec = opts.pathspecs[k].as_str();
            assert(opts@.pathspecs[k as int] == spec@);
            if contains_nul(spec) {
                return Err(
                    GitError::new(
                        ErrorKind::InvalidRevision,
                        String::from_str("path filter holds a NUL character"),
                    ),
                );
            }
            diff_options_add_pathspec(&mut diffopts, spec);
            k += 1;
        }
        let pathspec = if opts.pathspecs.len() == 0 {
            None
        } else {
            match new_pathspec(&opts.pathspecs) {
                Ok(compiled) => Some(compiled),
                Err(e) => {
                    return Err(invalid_revision(&e));
                },
            }
        };
        let ghost setup = WalkSetup {
            topological,
            by_time,
            reverse: opts.reverse,
            seeds: planned_seeds(opts@.revspecs, resolved),
        };
        Ok(
            CommitWalker {
                repo,
                revwalk,
                opts,
                pathspec,
                diffopts,
                drawn: 0,
                setup: Ghost(setup),
                answers: Ghost(Seq::empty()),
            },
        )
    }

    /// Asks the store whether a commit's change shows under the path
    /// filter. A root commit shows if its tree holds a filtered path. The
    /// parents of any other commit are asked in turn, and the commit shows
    /// unless the difference to one of them leaves every filtered path
    /// untouched; a parent that cannot be read ends the asking.
    fn probe_paths(&mut self, commit: &git2::Commit<'_>, parents: usize) -> (found: Result<
        PathProbe,
        git2::Error,
    >)
        requires
            old(self).options().pathspecs.len() > 0,
        ensures
            final(self).options() == old(self).options(),
            final(self).setup() == old(self).setup(),
            final(self).answers() == old(self).answers(),
            final(self).drawn() == old(self).drawn(),
            parents > 0 ==> found is Ok,
            found matches Ok(probe) ==> probe != PathProbe::NotAsked && verdict_by_the_rules(
                parents as nat,
                probe,
            ),
    {
        if parents == 0 {
            let tree = match commit_tree(commit) {
                Ok(tree) => tree,
                Err(e) => {
                    return Err(e);
                },
            };
            let tree_matches = match &self.pathspec {
                Some(spec) => pathspec_matches_tree(spec, &tree),
                None => false,
            };
            let probe = verdict_of_root(tree_matches);
            assert(probe == root_verdict(tree_matches));
            return Ok(probe);
        }
        let mut asked: Vec<ParentAnswer> = Vec::new();
        let mut go_on = true;
        while go_on && asked.len() < parents
            invariant
                self.options() == old(self).options(),
                self.setup() == old(self).setup(),
                self.answers() == old(self).answers(),
                self.drawn() == old(self).drawn(),
                asked@.len() <= parents,
                forall|i: int|
                    0 <= i < asked@.len() - 1 ==> (#[trigger] asked@[i]) == ParentAnswer::Touches,
                go_on ==> forall|i: int|
                    0 <= i < asked@.len() ==> (#[trigger] asked@[i]) == ParentAnswer::Touches,
                !go_on ==> asked@.len() > 0 && asked@.last() != ParentAnswer::Touches,
            decreases parents - asked.len() + (if go_on { 1int } else { 0int }),
        {
            let answer = match commit_parent(commit, asked.len()) {
                Ok(parent) => if match_with_parent(self.repo, commit, &parent, &mut self.diffopts) {
                    ParentAnswer::Touches
                } else {
                    ParentAnswer::Untouched
                },
                Err(_) => ParentAnswer::Missing,
            };
            go_on = ask_on(answer);
            asked.push(answer);
        }
        let probe = verdict_of_parents(&asked);
        assert(asked_in_turn(asked@, parents as nat));
        Ok(probe)
    }

    /// Asks for the next candidate. The cancellation flag is polled before
    /// the traversal is advanced, before the commit is read, and after it
    /// has been read. The store is asked about paths only where the answer
    /// can matter.
    pub fn pull(&mut self, cancel: Option<&Arc<AtomicBool>>) -> (pulled: Pull)
        ensures
            final(self).options() == old(self).options(),
            final(self).setup() == old(self).setup(),
            final(self).answers() == old(self).answers().push(pulled@),
            final(self).drawn() == old(self).drawn() + (if pulled is Candidate {
                1nat
            } else {
                0nat
            }),
            final(self).drawn() <= u64::MAX,
            cancel is None ==> !(pulled is Cancelled),
            old(self).drawn() == u64::MAX ==> !(pulled is Candidate) && !(pulled is EndOfWalk),
            pulled matches Pull::Candidate { facts, probe } ==> {
                &&& probe == PathProbe::NotAsked <==> !probe_needed(
                    old(self).options(),
                    facts@.parent_count,
                )
                &&& probe != PathProbe::NotAsked ==> verdict_by_the_rules(
                    facts@.parent_count,
                    probe,
                )
            },
    {
        let pulled = self.pull_unrecorded(cancel);
        proof {
            self.answers@ = self.answers@.push(pulled@);
        }
        pulled
    }

    /// The work of `pull`, before the answer is written to the list.
    fn pull_unrecorded(&mut self, cancel: Option<&Arc<AtomicBool>>) -> (pulled: Pull)
        ensures
            final(self).options() == old(self).options(),
            final(self).setup() == old(self).setup(),
            final(self).answers() == old(self).answers(),
            final(self).drawn() == old(self).drawn() + (if pulled is Candidate {
                1nat
            } else {
                0nat
            }),
            final(self).drawn() <= u64::MAX,
            cancel is None ==> !(pulled is Cancelled),
            old(self).drawn() == u64::MAX ==> !(pulled is Candidate) && !(pulled is EndOfWalk),
            pulled matches Pull::Candidate { facts, probe } ==> {
                &&& probe == PathProbe::NotAsked <==> !probe_needed(
                    old(self).options(),
                    facts@.parent_count,
                )
                &&& probe != PathProbe::NotAsked ==> verdict_by_the_rules(
                    facts@.parent_count,
                    probe,
                )
            },
    {
        if is_cancelled(cancel) {
            return Pull::Cancelled;
        }
        if self.drawn == u64::MAX {
            return Pull::Failed(String::from_str("history too long to walk"));
        }
        let id = match next_id(&mut self.revwalk) {
            None => {
                return Pull::EndOfWalk;
            },
            Some(Err(e)) => {
                return Pull::Failed(error_message(&e));
            },
            Some(Ok(id)) => id,
        };
        if is_cancelled(cancel) {
            return Pull::Cancelled;
        }
        let commit = match read_commit(self.repo, &id) {
            Ok(commit) => commit,
            Err(e) => {
                return Pull::Failed(error_message(&e));
            },
        };
        if is_cancelled(cancel) {
            return Pull::Cancelled;
        }
        let facts = read_facts(id, &commit);
        let probe = if self.opts.needs_probe(facts.parent_count) {
            match self.probe_paths(&commit, facts.parent_count) {
                Ok(probe) => probe,
                Err(e) => {
                    return Pull::Failed(error_message(&e));
                },
            }
        } else {
            PathProbe::NotAsked
        };
        self.drawn = self.drawn + 1;
        Pull::Candidate { facts, probe }
    }

    /// The next commit that passes every filter, or `None` when the
    /// traversal is exhausted. Candidates that a filter rejects are drawn
    /// and passed over. A raised cancellation flag, a failure of the store
    /// and a walk too long to count each end the call with their failure.
    ///
    /// In terms of the answers that the call adds to the walker's list:
    /// there is at least one; all but the last are rejected candidates;
    /// the last is not, and decides what is returned.
    pub fn next(&mut self, cancel: Option<&Arc<AtomicBool>>) -> (step: Option<
        Result<GitCommit, GitError>,
    >)
        ensures
            final(self).options() == old(self).options(),
            final(self).setup() == old(self).setup(),
            extends(final(self).answers(), old(self).answers()),
            final(self).answers().len() > old(self).answers().len(),
            forall|i: int|
                old(self).answers().len() <= i < final(self).answers().len() - 1 ==> skipped(
                    old(self).options(),
                    #[trigger] final(self).answers()[i],
                ),
            !skipped(old(self).options(), final(self).answers().last()),
            step_view(step) == answer_of(final(self).answers().last()),
            cancel is None ==> !(final(self).answers().last() is Cancelled),
    {
        proof {
            assert(self.answers().take(self.answers().len() as int) =~= self.answers());
        }
        loop
            invariant
                self.options() == old(self).options(),
                self.setup() == old(self).setup(),
                extends(self.answers(), old(self).answers()),
                forall|i: int|
                    old(self).answers().len() <= i < self.answers().len() ==> skipped(
                        old(self).options(),
                        #[trigger] self.answers()[i],
                    ),
                self.drawn() <= u64::MAX,
            decreases u64::MAX - self.drawn(),
        {
            let ghost before = self.answers();
            let pulled = self.pull(cancel);
            proof {
                assert(self.answers().take(old(self).answers().len() as int) =~= before.take(
                    old(self).answers().len() as int,
                ));
            }
            match pulled {
                Pull::Candidate { facts, probe } => {
                    if self.opts.admits(&facts, probe) {
                        return Some(Ok(GitCommit::from_facts(&facts)));
                    }
                },
                Pull::EndOfWalk => {
                    return None;
                },
                Pull::Cancelled => {
                    return Some(Err(GitError::cancelled()));
                },
                Pull::Failed(message) => {
                    return Some(Err(GitError::new(ErrorKind::Store, message)));
                },
            }
        }
    }

    /// Up to `page_size` commits that pass every filter, and whether the
    /// traversal is exhausted. A page is never cut short by a failure: a
    /// raised cancellation flag or a failing store fails the whole call.
    ///
    /// In terms of the answers that the call adds to the walker's list: on
    /// success the page is exactly what those answers hand out, in their
    /// order; every answer is a candidate, but for the end of the walk,
    /// which comes last if it comes; and the call stops drawing as soon as
    /// the page is full. On failure the last answer is the failure.
    pub fn next_page(&mut self, page_size: usize, cancel: Option<&Arc<AtomicBool>>) -> (page:
        Result<(Vec<GitCommit>, bool), GitError>)
        ensures
            final(self).options() == old(self).options(),
            final(self).setup() == old(self).setup(),
            extends(final(self).answers(), old(self).answers()),
            match page {
                Ok((commits, done)) => {
                    let fresh = final(self).answers().skip(old(self).answers().len() as int);
                    &&& record_views(commits@) == records(old(self).options(), fresh)
                    &&& commits@.len() <= page_size
                    &&& done <==> fresh.len() > 0 && fresh.last() is EndOfWalk
                    &&& done ==> commits@.len() < page_size
                    &&& !done ==> commits@.len() == page_size
                    &&& forall|i: int| 0 <= i < fresh.len() - 1 ==> (#[trigger] fresh[i]) is Candidate
                    &&& fresh.len() > 0 && !done ==> shown(old(self).options(), fresh.last()) is Some
                },
                Err(e) => {
                    let fresh = final(self).answers().skip(old(self).answers().len() as int);
                    &&& fresh.len() > 0
                    &&& fresh.last() is Cancelled || fresh.last() is Failed
                    &&& cancel is None ==> fresh.last() is Failed && e.kind == ErrorKind::Store
                    &&& Some(Err::<RecordView, (ErrorKind, Seq<char>)>(e@)) == answer_of(fresh.last())
                    &&& forall|i: int| 0 <= i < fresh.len() - 1 ==> (#[trigger] fresh[i]) is Candidate
                },
            },
    {
        let ghost opts = self.options();
        let ghost start = self.answers().len() as int;
        let mut out: Vec<GitCommit> = Vec::new();
        proof {
            assert(self.answers().take(start) =~= self.answers());
            assert(self.answers().skip(start) =~= Seq::<PullView>::empty());
            assert(record_views(out@) =~= Seq::<RecordView>::empty());
        }
        while out.len() < page_size
            invariant
                self.options() == opts,
                self.setup() == old(self).setup(),
                opts == old(self).options(),
                start == old(self).answers().len(),
                extends(self.answers(), old(self).answers()),
                record_views(out@) == records(opts, self.answers().skip(start)),
                out@.len() <= page_size,
                forall|i: int|
                    0 <= i < self.answers().skip(start).len() ==> (#[trigger] self.answers().skip(
                        start,
                    )[i]) is Candidate,
                self.answers().len() > start ==> shown(opts, self.answers().last()) is Some,
            decreases page_size - out.len(),
        {
            let ghost before = self.answers();
            let step = self.next(cancel);
            proof {
                let after = self.answers();
                assert(after.take(start) =~= before.take(start));
                let added = after.skip(before.len() as int);
                assert(after.skip(start) =~= before.skip(start) + added);
                assert forall|i: int| 0 <= i < added.len() - 1 implies skipped(
                    opts,
                    #[trigger] added[i],
                ) by {
                    assert(added[i] == after[before.len() + i]);
                }
                assert(added.last() == after.last());
                records_of_segments(opts, before.skip(start), added);
                records_after_skipping(opts, added);
            }
            match step {
                Some(Ok(commit)) => {
                    proof {
                        assert(record_views(out@.push(commit)) =~= record_views(out@).push(
                            commit@,
                        ));
                    }
                    out.push(commit);
                },
                Some(Err(e)) => {
                    return Err(e);
                },
                None => {
                    return Ok((out, true));
                },
            }
        }
        Ok((out, false))
    }
}

/// The identifiers of a list of records.
pub open spec fn record_ids(records: Seq<RecordView>) -> Seq<Seq<u8>> {
    records.map_values(|r: RecordView| r.id)
}

/// The identifiers of a list, as plain values.
pub open spec fn id_views(ids: Seq<CommitId>) -> Seq<Seq<u8>> {
    ids.map_values(|id: CommitId| id@)
}

/// The answers are those of a walk to its end: every one is a candidate
/// but the last, which is the end of the walk.
pub open spec fn walked_to_the_end(answers: Seq<PullView>) -> bool {
    &&& answers.len() > 0
    &&& answers.last() is EndOfWalk
    &&& forall|i: int| 0 <= i < answers.len() - 1 ==> (#[trigger] answers[i]) is Candidate
}

/// The list holds, in order, the identifiers that a walk over one ref to
/// its end hands out, with no filter and in the store's own order.
pub open spec fn lists_the_walk(ids: Seq<CommitId>, ref_name: Seq<char>) -> bool {
    exists|answers: Seq<PullView>|
        walked_to_the_end(answers) && id_views(ids) == record_ids(
            #[trigger] records(crate::query::branch_query(ref_name), answers),
        )
}

/// The greatest number of identifiers that `collect_ids` gathers: a
/// position in the list must fit in 32 bits.
pub const MAX_COLLECTED: usize = 0xffff_ffff;

impl<'repo> CommitWalker<'repo> {
    /// Walks to the end and gathers the identifier of every commit handed
    /// out, in order. The cancellation flag is polled at every step. A
    /// raised flag, a failing store, or more identifiers than can be given
    /// a position fails the call; nothing partial is returned.
    ///
    /// In terms of the answers that the call adds to the walker's list: on
    /// success they end with the end of the walk, every answer before is a
    /// candidate, and the identifiers are those of the records that the
    /// answers hand out. A cancellation is reported exactly when the last
    /// answer is one.
    pub fn collect_ids(&mut self, cancel: Option<&Arc<AtomicBool>>) -> (ids: Result<
        Vec<CommitId>,
        GitError,
    >)
        ensures
            final(self).options() == old(self).options(),
            final(self).setup() == old(self).setup(),
            extends(final(self).answers(), old(self).answers()),
            final(self).answers().len() > old(self).answers().len(),
            match ids {
                Ok(list) => {
                    let fresh = final(self).answers().skip(old(self).answers().len() as int);
                    &&& fresh.last() is EndOfWalk
                    &&& forall|i: int| 0 <= i < fresh.len() - 1 ==> (#[trigger] fresh[i]) is Candidate
                    &&& id_views(list@) == record_ids(records(old(self).options(), fresh))
                    &&& list@.len() <= MAX_COLLECTED
                },
                Err(e) => {
                    &&& e.kind == ErrorKind::Cancelled || e.kind == ErrorKind::Store
                    &&& e.kind == ErrorKind::Cancelled <==> final(self).answers().last() is Cancelled
                    &&& cancel is None ==> e.kind == ErrorKind::Store
                },
            },
    {
        let ghost opts = self.options();
        let ghost start = self.answers().len() as int;
        let mut out: Vec<CommitId> = Vec::new();
        proof {
            assert(self.answers().take(start) =~= self.answers());
            assert(self.answers().skip(start) =~= Seq::<PullView>::empty());
            assert(id_views(out@) =~= Seq::<Seq<u8>>::empty());
            assert(record_ids(Seq::<RecordView>::empty()) =~= Seq::<Seq<u8>>::empty());
        }
        loop
            invariant
                self.options() == opts,
                self.setup() == old(self).setup(),
                opts == old(self).options(),
                start == old(self).answers().len(),
                extends(self.answers(), old(self).answers()),
                id_views(out@) == record_ids(records(opts, self.answers().skip(start))),
                out@.len() <= MAX_COLLECTED,
                forall|i: int|
                    0 <= i < self.answers().skip(start).len() ==> (#[trigger] self.answers().skip(
                        start,
                    )[i]) is Candidate,
            decreases MAX_COLLECTED - out.len(),
        {
            let ghost before = self.answers();
            let step = self.next(cancel);
            proof {
                let after = self.answers();
                assert(after.take(start) =~= before.take(start));
                let added = after.skip(before.len() as int);
                assert(after.skip(start) =~= before.skip(start) + added);
                assert forall|i: int| 0 <= i < added.len() - 1 implies skipped(
                    opts,
                    #[trigger] added[i],
                ) by {
                    assert(added[i] == after[before.len() + i]);
                }
                assert(added.last() == after.last());
                records_of_segments(opts, before.skip(start), added);
                records_after_skipping(opts, added);
            }
            match step {
                Some(Ok(commit)) => {
                    if out.len() >= MAX_COLLECTED {
                        return Err(
                            GitError::new(
                                ErrorKind::Store,
                                String::from_str("history too long to index"),
                            ),
                        );
                    }
                    proof {
                        let sofar = records(opts, before.skip(start));
                        assert(id_views(out@.push(commit.id)) =~= id_views(out@).push(commit.id@));
                        assert(record_ids(sofar.push(commit@)) =~= record_ids(sofar).push(
                            commit@.id,
                        ));
                        assert(sofar + seq![commit@] =~= sofar.push(commit@));
                    }
                    out.push(commit.id);
                },
                Some(Err(e)) => {
                    return Err(e);
                },
                None => {
                    proof {
                        let sofar = records(opts, before.skip(start));
                        assert(sofar + Seq::<RecordView>::empty() =~= sofar);
                    }
                    return Ok(out);
                },
            }
        }
    }
}

/// Answers that are all rejected candidates but for the last hand out what
/// the last one hands out, and nothing else.
pub proof fn records_after_skipping(opts: QueryView, pulls: Seq<PullView>)
    requires
        pulls.len() > 0,
        forall|i: int| 0 <= i < pulls.len() - 1 ==> skipped(opts, #[trigger] pulls[i]),
    ensures
        records(opts, pulls) == match shown(opts, pulls.last()) {
            Some(r) => seq![r],
            None => Seq::<RecordView>::empty(),
        },
    decreases pulls.len(),
{
    let head = pulls.drop_last();
    if head.len() == 0 {
        assert(records(opts, head) =~= Seq::<RecordView>::empty());
    } else {
        assert forall|i: int| 0 <= i < head.len() - 1 implies skipped(opts, #[trigger] head[i]) by {
            assert(head[i] == pulls[i]);
        }
        assert(head.last() == pulls[pulls.len() - 2]);
        records_after_skipping(opts, head);
    }
    assert(records(opts, head) =~= Seq::<RecordView>::empty());
    match shown(opts, pulls.last()) {
        Some(r) => {
            assert(Seq::<RecordView>::empty().push(r) =~= seq![r]);
        },
        None => {},
    }
}

/// What two runs of answers, one after the other, hand out is what the
/// first hands out followed by what the second hands out.
pub proof fn records_of_segments(opts: QueryView, first: Seq<PullView>, second: Seq<PullView>)
    ensures
        records(opts, first + second) == records(opts, first) + records(opts, second),
    decreases second.len(),
{
    if second.len() == 0 {
        assert(first + second =~= first);
        assert(records(opts, first) + records(opts, second) =~= records(opts, first));
    } else {
        let whole = first + second;
        assert(whole.drop_last() =~= first + second.drop_last());
        assert(whole.last() == second.last());
        records_of_segments(opts, first, second.drop_last());
        match shown(opts, second.last()) {
            Some(r) => {
                assert((records(opts, first) + records(opts, second.drop_last())).push(r)
                    =~= records(opts, first) + records(opts, second.drop_last()).push(r));
            },
            None => {},
        }
    }
}

/// What each run of answers hands out, run by run.
pub open spec fn pages_of(opts: QueryView, runs: Seq<Seq<PullView>>) -> Seq<Seq<RecordView>> {
    runs.map_values(|run: Seq<PullView>| records(opts, run))
}

/// Paging loses nothing and keeps the order: however the answers of a walk
/// are cut into consecutive runs, one run to a page, the pages put end to
/// end are what a single walk over all the answers hands out.
pub proof fn paging_is_lossless(opts: QueryView, runs: Seq<Seq<PullView>>)
    ensures
        pages_of(opts, runs).flatten() == records(opts, runs.flatten()),
    decreases runs.len(),
{
    if runs.len() == 0 {
        assert(pages_of(opts, runs) =~= Seq::<Seq<RecordView>>::empty());
        assert(runs.flatten() =~= Seq::<PullView>::empty());
        assert(pages_of(opts, runs).flatten() =~= Seq::<RecordView>::empty());
    } else {
        let head = runs.drop_last();
        let last = runs.last();
        paging_is_lossless(opts, head);
        assert(runs =~= head.push(last));
        head.lemma_flatten_push(last);
        assert(pages_of(opts, runs) =~= pages_of(opts, head).push(records(opts, last)));
        pages_of(opts, head).lemma_flatten_push(records(opts, last));
        records_of_segments(opts, head.flatten(), last);
    }
}

} // verus!
