//! What a walk over the history is asked for, what is known of one commit,
//! and the rules that decide whether a commit is shown.

use vstd::prelude::*;
use vstd::string::StringExecFns;
use crate::commit_id::CommitId;
use crate::text::{contains_seq, str_contains};

verus! {

/// The order in which a walk hands out commits.
#[derive(Debug, Clone, Copy, PartialEq, Eq, Structural)]
pub enum CommitSort {
    /// The order of the store itself.
    StoreOrder,
    /// No parent before all of its descendants in the walked set.
    Topological,
    /// Newest commit time first.
    Time,
}

impl Default for CommitSort {
    fn default() -> (sort: CommitSort)
        ensures
            sort == CommitSort::StoreOrder,
    {
        CommitSort::StoreOrder
    }
}

/// What a walk is asked for. It is fixed when the walk begins.
#[derive(Debug, Clone)]
pub struct CommitQueryOptions {
    /// Where to start (`main`, `a..b`, `a...b`) and, behind a `^`, what to
    /// leave out together with its ancestors. Empty means the current HEAD.
    pub revspecs: Vec<String>,
    /// Path prefixes; a commit is shown only if it touches one of them.
    /// Empty means no path filter.
    pub pathspecs: Vec<String>,
    pub sort: CommitSort,
    /// Turns the order of the output round, whatever `sort` is.
    pub reverse: bool,
    pub author_contains: Option<String>,
    pub committer_contains: Option<String>,
    pub message_contains: Option<String>,
    /// The least number of parents a shown commit has.
    pub min_parents: usize,
    /// A shown commit has fewer parents than this: the bound itself is
    /// already too many.
    pub max_parents_exclusive: Option<usize>,
}

/// The options as plain values.
pub struct QueryView {
    pub revspecs: Seq<Seq<char>>,
    pub pathspecs: Seq<Seq<char>>,
    pub sort: CommitSort,
    pub reverse: bool,
    pub author_contains: Option<Seq<char>>,
    pub committer_contains: Option<Seq<char>>,
    pub message_contains: Option<Seq<char>>,
    pub min_parents: nat,
    pub max_parents_exclusive: Option<nat>,
}

/// The text of an optional string.
pub open spec fn text_view(s: Option<String>) -> Option<Seq<char>> {
    match s {
        Some(t) => Some(t@),
        None => None,
    }
}

impl View for CommitQueryOptions {
    type V = QueryView;

    open spec fn view(&self) -> QueryView {
        QueryView {
            revspecs: self.revspecs.deep_view(),
            pathspecs: self.pathspecs.deep_view(),
            sort: self.sort,
            reverse: self.reverse,
            author_contains: text_view(self.author_contains),
            committer_contains: text_view(self.committer_contains),
            message_contains: text_view(self.message_contains),
            min_parents: self.min_parents as nat,
            max_parents_exclusive: match self.max_parents_exclusive {
                Some(n) => Some(n as nat),
                None => None,
            },
        }
    }
}

/// The options that list one branch as the store orders it, with no filter.
pub open spec fn branch_query(branch_ref: Seq<char>) -> QueryView {
    QueryView {
        revspecs: seq![branch_ref],
        pathspecs: Seq::empty(),
        sort: CommitSort::StoreOrder,
        reverse: false,
        author_contains: None,
        committer_contains: None,
        message_contains: None,
        min_parents: 0,
        max_parents_exclusive: None,
    }
}

impl CommitQueryOptions {
    /// The options that list one branch as the store orders it, with no
    /// filter.
    pub fn for_branch(branch_ref: &str) -> (opts: CommitQueryOptions)
        ensures
            opts@ == branch_query(branch_ref@),
    {
        let mut revspecs: Vec<String> = Vec::new();
        revspecs.push(String::from_str(branch_ref));
        let opts = CommitQueryOptions {
            revspecs,
            pathspecs: Vec::new(),
            sort: CommitSort::StoreOrder,
            reverse: false,
            author_contains: None,
            committer_contains: None,
            message_contains: None,
            min_parents: 0,
            max_parents_exclusive: None,
        };
        assert(opts@.revspecs =~= seq![branch_ref@]);
        assert(opts@.pathspecs =~= Seq::empty());
        opts
    }
}

/// A moment with the time zone it was written in.
#[derive(Debug, Clone, Copy, PartialEq, Eq, Structural)]
pub struct CommitTime {
    /// Seconds since the epoch.
    pub seconds: i64,
    /// The zone's offset from UTC, in minutes.
    pub offset_minutes: i32,
}

/// Who wrote or committed a commit. A part that is not valid UTF-8 is absent.
#[derive(Debug, Clone, PartialEq, Eq)]
pub struct Person {
    pub name: Option<String>,
    pub email: Option<String>,
}

/// A person as plain values.
pub struct PersonView {
    pub name: Option<Seq<char>>,
    pub email: Option<Seq<char>>,
}

impl View for Person {
    type V = PersonView;

    open spec fn view(&self) -> PersonView {
        PersonView { name: text_view(self.name), email: text_view(self.email) }
    }
}

/// What the filters read of one commit.
#[derive(Debug, Clone, PartialEq, Eq)]
pub struct CommitFacts {
    pub id: CommitId,
    pub parent_count: usize,
    pub author: Person,
    pub committer: Person,
    /// The message, absent if it is not valid UTF-8.
    pub message: Option<String>,
    /// The message with every invalid byte sequence replaced, for display.
    pub message_lossy: String,
    pub authored_at: CommitTime,
}

/// The facts of a commit as plain values.
pub struct FactsView {
    pub id: Seq<u8>,
    pub parent_count: nat,
    pub author: PersonView,
    pub committer: PersonView,
    pub message: Option<Seq<char>>,
    pub message_lossy: Seq<char>,
    pub authored_at: CommitTime,
}

impl View for CommitFacts {
    type V = FactsView;

    open spec fn view(&self) -> FactsView {
        FactsView {
            id: self.id@,
            parent_count: self.parent_count as nat,
            author: self.author@,
            committer: self.committer@,
            message: text_view(self.message),
            message_lossy: self.message_lossy@,
            authored_at: self.authored_at,
        }
    }
}

/// What the store said when asked whether a commit's change is visible
/// under the path filter.
#[derive(Debug, Clone, Copy, PartialEq, Eq, Structural)]
pub enum PathProbe {
    /// The store was not asked.
    NotAsked,
    /// A root commit whose tree holds a filtered path, or a commit whose
    /// difference to every parent touches one.
    Visible,
    /// The change does not show under the filter.
    Hidden,
}

/// What the store said of the difference from one parent to a commit,
/// under the path filter.
#[derive(Debug, Clone, Copy, PartialEq, Eq, Structural)]
pub enum ParentAnswer {
    /// The difference changes a filtered path.
    Touches,
    /// The difference changes no filtered path, or could not be computed.
    Untouched,
    /// The parent could not be read.
    Missing,
}

/// The parents of a commit are asked one after the other as long as each
/// difference touches a filtered path: the first that does not, or that
/// cannot be read, ends the asking.
pub open spec fn asked_in_turn(asked: Seq<ParentAnswer>, parents: nat) -> bool {
    &&& asked.len() <= parents
    &&& forall|i: int| 0 <= i < asked.len() - 1 ==> (#[trigger] asked[i]) == ParentAnswer::Touches
    &&& asked.len() < parents ==> asked.len() > 0 && asked.last() != ParentAnswer::Touches
}

/// Whether a commit with parents shows under the path filter, given what
/// the store said of its parents: it shows unless the difference to some
/// parent leaves every filtered path untouched. The change has to show
/// against every parent, not against any one.
pub open spec fn parents_verdict(asked: Seq<ParentAnswer>) -> PathProbe {
    if exists|i: int| 0 <= i < asked.len() && asked[i] == ParentAnswer::Untouched {
        PathProbe::Hidden
    } else {
        PathProbe::Visible
    }
}

/// Whether a commit without parents shows under the path filter: it shows
/// if its tree holds a filtered path.
pub open spec fn root_verdict(tree_matches: bool) -> PathProbe {
    if tree_matches {
        PathProbe::Visible
    } else {
        PathProbe::Hidden
    }
}

/// What the store was asked of a commit's paths gave this verdict by the
/// rules: for a commit without parents its tree was matched; for any other
/// its parents were asked in turn.
pub open spec fn verdict_by_the_rules(parents: nat, probe: PathProbe) -> bool {
    if parents == 0 {
        exists|tree_matches: bool| probe == #[trigger] root_verdict(tree_matches)
    } else {
        exists|asked: Seq<ParentAnswer>|
            asked_in_turn(asked, parents) && probe == #[trigger] parents_verdict(asked)
    }
}

/// The change must show against every parent: where the parents are asked
/// in turn, the commit is hidden exactly when the asking ended at a parent
/// whose difference leaves every filtered path untouched, and it shows
/// exactly when every parent that could be read was asked and touched.
pub proof fn every_parent_must_touch(asked: Seq<ParentAnswer>, parents: nat)
    requires
        asked_in_turn(asked, parents),
    ensures
        parents_verdict(asked) == PathProbe::Hidden <==> asked.len() > 0 && asked.last()
            == ParentAnswer::Untouched,
        parents_verdict(asked) == PathProbe::Visible <==> asked.len() == 0 || asked.last()
            != ParentAnswer::Untouched,
        parents_verdict(asked) == PathProbe::Visible && asked.len() == parents ==> forall|i: int|
            0 <= i < asked.len() - 1 ==> (#[trigger] asked[i]) == ParentAnswer::Touches,
{
    if asked.len() > 0 && asked.last() == ParentAnswer::Untouched {
        assert(asked[asked.len() - 1] == ParentAnswer::Untouched);
    }
}

/// The difference to a parent touches a filtered path: it could be
/// computed, and it changes at least one file.
pub open spec fn touches(changed_files: Option<usize>) -> bool {
    changed_files matches Some(n) && n > 0
}

/// Whether the difference to a parent touches a filtered path, given the
/// number of files that it changes, if it could be computed.
pub fn difference_touches(changed_files: Option<usize>) -> (yes: bool)
    ensures
        yes == touches(changed_files),
{
    match changed_files {
        Some(n) => n > 0,
        None => false,
    }
}

/// Whether the next parent is to be asked after this answer.
pub fn ask_on(answer: ParentAnswer) -> (yes: bool)
    ensures
        yes == (answer == ParentAnswer::Touches),
{
    answer == ParentAnswer::Touches
}

/// Whether a commit with parents shows under the path filter.
pub fn verdict_of_parents(asked: &Vec<ParentAnswer>) -> (probe: PathProbe)
    ensures
        probe == parents_verdict(asked@),
{
    let mut i: usize = 0;
    while i < asked.len()
        invariant
            i <= asked.len(),
            forall|k: int| 0 <= k < i ==> asked@[k] != ParentAnswer::Untouched,
        decreases asked.len() - i,
    {
        if asked[i] == ParentAnswer::Untouched {
            return PathProbe::Hidden;
        }
        i += 1;
    }
    PathProbe::Visible
}

/// Whether a commit without parents shows under the path filter.
pub fn verdict_of_root(tree_matches: bool) -> (probe: PathProbe)
    ensures
        probe == root_verdict(tree_matches),
{
    if tree_matches {
        PathProbe::Visible
    } else {
        PathProbe::Hidden
    }
}

/// The number of parents lies in the asked range; the upper bound itself
/// lies outside.
pub open spec fn parents_in_range(opts: QueryView, parents: nat) -> bool {
    &&& opts.min_parents <= parents
    &&& match opts.max_parents_exclusive {
        Some(n) => parents < n,
        None => true,
    }
}

/// Without a filter everyone matches; with one, a person matches whose name
/// or whose email holds the filter text, case kept.
pub open spec fn person_matches(who: PersonView, filter: Option<Seq<char>>) -> bool {
    match filter {
        None => true,
        Some(s) => {
            ||| (who.name matches Some(n) && contains_seq(n, s))
            ||| (who.email matches Some(e) && contains_seq(e, s))
        },
    }
}

/// Without a filter every message matches; with one, a message matches that
/// is present and holds the filter text, case kept.
pub open spec fn message_matches(message: Option<Seq<char>>, filter: Option<Seq<char>>) -> bool {
    match filter {
        None => true,
        Some(s) => message matches Some(m) && contains_seq(m, s),
    }
}

/// The path filter lets a commit through: there is no filter, or the store
/// found the change visible.
pub open spec fn paths_pass(opts: QueryView, probe: PathProbe) -> bool {
    opts.pathspecs.len() == 0 || probe == PathProbe::Visible
}

/// The store has to be asked about paths: there is a path filter, and the
/// number of parents has not already ruled the commit out.
pub open spec fn probe_needed(opts: QueryView, parents: nat) -> bool {
    opts.pathspecs.len() > 0 && parents_in_range(opts, parents)
}

/// A commit is shown if and only if every filter lets it through.
pub open spec fn passes_filters(opts: QueryView, facts: FactsView, probe: PathProbe) -> bool {
    &&& parents_in_range(opts, facts.parent_count)
    &&& paths_pass(opts, probe)
    &&& person_matches(facts.author, opts.author_contains)
    &&& person_matches(facts.committer, opts.committer_contains)
    &&& message_matches(facts.message, opts.message_contains)
}

/// Whether `text`, if present, holds `needle`.
fn present_and_contains(text: &Option<String>, needle: &str) -> (yes: bool)
    ensures
        yes == (text_view(*text) matches Some(t) && contains_seq(t, needle@)),
{
    match text {
        Some(t) => str_contains(t.as_str(), needle),
        None => false,
    }
}

/// Whether a person matches an optional filter text.
pub fn sig_matches(who: &Person, contains: &Option<String>) -> (yes: bool)
    ensures
        yes == person_matches(who@, text_view(*contains)),
{
    match contains {
        None => true,
        Some(s) => present_and_contains(&who.name, s.as_str()) || present_and_contains(
            &who.email,
            s.as_str(),
        ),
    }
}

/// Whether a message matches an optional filter text.
pub fn log_message_matches(message: &Option<String>, contains: &Option<String>) -> (yes: bool)
    ensures
        yes == message_matches(text_view(*message), text_view(*contains)),
{
    match contains {
        None => true,
        Some(s) => present_and_contains(message, s.as_str()),
    }
}

impl CommitQueryOptions {
    /// Whether a number of parents lies in the asked range.
    pub fn admits_parents(&self, parents: usize) -> (yes: bool)
        ensures
            yes == parents_in_range(self@, parents as nat),
    {
        if parents < self.min_parents {
            return false;
        }
        match self.max_parents_exclusive {
            Some(n) => parents < n,
            None => true,
        }
    }

    /// Whether the store has to be asked about paths for a commit with this
    /// many parents.
    pub fn needs_probe(&self, parents: usize) -> (yes: bool)
        ensures
            yes == probe_needed(self@, parents as nat),
    {
        self.pathspecs.len() > 0 && self.admits_parents(parents)
    }

    /// Whether a commit is shown, given what the store said about its paths.
    pub fn admits(&self, facts: &CommitFacts, probe: PathProbe) -> (yes: bool)
        ensures
            yes == passes_filters(self@, facts@, probe),
    {
        self.admits_parents(facts.parent_count)
            && (self.pathspecs.len() == 0 || probe == PathProbe::Visible)
            && sig_matches(&facts.author, &self.author_contains)
            && sig_matches(&facts.committer, &self.committer_contains)
            && log_message_matches(&facts.message, &self.message_contains)
    }
}

} // verus!
