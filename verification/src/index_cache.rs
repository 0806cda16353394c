//! The cache of the ordered identifier list of one (repository, ref) pair.
//!
//! The list is built at most once at a time, and a finished list is handed
//! to every caller that asks for the same pair. This module holds the
//! bookkeeping: what a caller is told when it arrives, and what becomes of
//! a build when it ends. Whoever owns the entry guards it with a lock and
//! makes callers wait; the rules are here.

use vstd::prelude::*;
use std::sync::Arc;
use std::sync::atomic::AtomicBool;
use crate::commit_id::CommitId;
use crate::error::{ErrorKind, GitError};
use crate::query::CommitQueryOptions;
use crate::std_ext::share;
use crate::store::{error_message, open_repository};
use crate::walker::CommitWalker;

verus! {

/// What a cached list belongs to.
#[derive(Debug, Clone, PartialEq, Eq)]
pub struct CacheKey {
    pub repository_path: String,
    pub ref_name: String,
}

/// A key as plain values: the path and the ref.
pub type KeyView = (Seq<char>, Seq<char>);

impl View for CacheKey {
    type V = KeyView;

    open spec fn view(&self) -> KeyView {
        (self.repository_path@, self.ref_name@)
    }
}

impl CacheKey {
    /// The key of a path and a ref.
    pub fn new(repository_path: &str, ref_name: &str) -> (key: CacheKey)
        ensures
            key@ == (repository_path@, ref_name@),
    {
        CacheKey { repository_path: repository_path.to_owned(), ref_name: ref_name.to_owned() }
    }

    /// Whether two keys name the same path and the same ref.
    pub fn same(&self, other: &CacheKey) -> (yes: bool)
        ensures
            yes == (self@ == other@),
    {
        self.repository_path == other.repository_path && self.ref_name == other.ref_name
    }

    /// A copy of the key.
    pub fn duplicate(&self) -> (copy: CacheKey)
        ensures
            copy@ == self@,
    {
        CacheKey { repository_path: self.repository_path.clone(), ref_name: self.ref_name.clone() }
    }
}

/// A failure as plain values.
pub type FailureView = (ErrorKind, Seq<char>);

/// The state of the cache as plain values.
pub struct EntryView {
    /// The pair that the state is about, once a caller has named one.
    pub key: Option<KeyView>,
    /// Counts the changes of `key`; a build that began under another count
    /// is stale.
    pub generation: u64,
    /// A build is in flight.
    pub building: bool,
    /// The finished list.
    pub ordered_ids: Option<Seq<CommitId>>,
    /// How the last build failed, for those who waited for it.
    pub failure: Option<FailureView>,
}

/// What a caller is told.
pub enum AdmissionView {
    /// The list is there.
    Ready(Seq<CommitId>),
    /// Another caller is building: wait, then ask again.
    Wait,
    /// Build the list, and settle under this generation.
    Build { generation: u64 },
    /// The build that the caller waited for failed.
    Failed(FailureView),
}

/// What becomes of a build that has ended.
pub enum SettlementView {
    /// The list is stored and handed out.
    Stored(Seq<CommitId>),
    /// The build failed; nothing is stored.
    Failed(FailureView),
    /// The key or the generation has changed since the build began: the
    /// result is dropped and the state is left alone.
    Stale,
}

/// The state of a cache that nobody has used.
pub open spec fn empty_entry() -> EntryView {
    EntryView { key: None, generation: 0, building: false, ordered_ids: None, failure: None }
}

/// The state is sound: a finished list or a build in flight belongs to a
/// key, and no build is in flight beside a finished list.
pub open spec fn entry_wf(e: EntryView) -> bool {
    &&& e.ordered_ids is Some ==> e.key is Some && !e.building
    &&& e.building ==> e.key is Some
}

/// The generation after a change of key. The count starts again after its
/// greatest value; what matters is that it differs from the one before.
pub open spec fn next_generation(generation: u64) -> u64 {
    if generation == u64::MAX {
        0
    } else {
        (generation + 1) as u64
    }
}

/// The state once a caller has named `key`: unchanged if it is the stored
/// key, and otherwise emptied, under the new key and the next generation.
pub open spec fn rekeyed(e: EntryView, key: KeyView) -> EntryView {
    if e.key == Some(key) {
        e
    } else {
        EntryView {
            key: Some(key),
            generation: next_generation(e.generation),
            building: false,
            ordered_ids: None,
            failure: None,
        }
    }
}

/// What a caller that arrives with `key` is told, and the state after.
pub open spec fn arrive_model(e: EntryView, key: KeyView) -> (EntryView, AdmissionView) {
    let e1 = rekeyed(e, key);
    match e1.ordered_ids {
        Some(ids) => (e1, AdmissionView::Ready(ids)),
        None => if e1.building {
            (e1, AdmissionView::Wait)
        } else {
            (
                EntryView { building: true, failure: None, ..e1 },
                AdmissionView::Build { generation: e1.generation },
            )
        },
    }
}

/// What a caller that has waited and asks again with `key` is told, and
/// the state after. It differs from a first arrival in one case: where the
/// build that was waited for has failed and no other has begun, the caller
/// is given that failure.
pub open spec fn wake_model(e: EntryView, key: KeyView) -> (EntryView, AdmissionView) {
    let e1 = rekeyed(e, key);
    match e1.failure {
        Some(failure) => if e1.ordered_ids is None && !e1.building {
            (e1, AdmissionView::Failed(failure))
        } else {
            arrive_model(e, key)
        },
        None => arrive_model(e, key),
    }
}

/// What becomes of a build that began for `key` under `generation` and
/// ended with `outcome`, and the state after.
pub open spec fn settle_model(
    e: EntryView,
    key: KeyView,
    generation: u64,
    outcome: Result<Seq<CommitId>, FailureView>,
) -> (EntryView, SettlementView) {
    if e.key == Some(key) && e.generation == generation && e.building {
        match outcome {
            Ok(ids) => (
                EntryView { building: false, ordered_ids: Some(ids), failure: None, ..e },
                SettlementView::Stored(ids),
            ),
            Err(failure) => (
                EntryView { building: false, ordered_ids: None, failure: Some(failure), ..e },
                SettlementView::Failed(failure),
            ),
        }
    } else {
        (e, SettlementView::Stale)
    }
}

/// The state of the cache.
pub struct CacheEntry {
    key: Option<CacheKey>,
    generation: u64,
    building: bool,
    ordered_ids: Option<Arc<Vec<CommitId>>>,
    failure: Option<GitError>,
}

/// What a caller is told.
pub enum Admission {
    Ready(Arc<Vec<CommitId>>),
    Wait,
    Build { generation: u64 },
    Failed(GitError),
}

impl View for Admission {
    type V = AdmissionView;

    open spec fn view(&self) -> AdmissionView {
        match *self {
            Admission::Ready(ids) => AdmissionView::Ready(ids@),
            Admission::Wait => AdmissionView::Wait,
            Admission::Build { generation } => AdmissionView::Build { generation },
            Admission::Failed(e) => AdmissionView::Failed(e@),
        }
    }
}

/// What becomes of a build that has ended.
pub enum Settlement {
    Stored(Arc<Vec<CommitId>>),
    Failed(GitError),
    Stale,
}

impl View for Settlement {
    type V = SettlementView;

    open spec fn view(&self) -> SettlementView {
        match *self {
            Settlement::Stored(ids) => SettlementView::Stored(ids@),
            Settlement::Failed(e) => SettlementView::Failed(e@),
            Settlement::Stale => SettlementView::Stale,
        }
    }
}

/// The outcome of a build as plain values.
pub open spec fn outcome_view(outcome: Result<Vec<CommitId>, GitError>) -> Result<
    Seq<CommitId>,
    FailureView,
> {
    match outcome {
        Ok(ids) => Ok(ids@),
        Err(e) => Err(e@),
    }
}

impl View for CacheEntry {
    type V = EntryView;

    closed spec fn view(&self) -> EntryView {
        EntryView {
            key: match self.key {
                Some(k) => Some(k@),
                None => None,
            },
            generation: self.generation,
            building: self.building,
            ordered_ids: match self.ordered_ids {
                Some(ids) => Some(ids@),
                None => None,
            },
            failure: match self.failure {
                Some(e) => Some(e@),
                None => None,
            },
        }
    }
}

impl CacheEntry {
    /// A cache that nobody has used.
    pub fn new() -> (entry: CacheEntry)
        ensures
            entry@ == empty_entry(),
    {
        CacheEntry { key: None, generation: 0, building: false, ordered_ids: None, failure: None }
    }

    /// The generation.
    pub fn generation(&self) -> (g: u64)
        ensures
            g == self@.generation,
    {
        self.generation
    }

    /// Whether a build is in flight.
    pub fn is_building(&self) -> (yes: bool)
        ensures
            yes == self@.building,
    {
        self.building
    }

    /// Whether a finished list is stored.
    pub fn has_ids(&self) -> (yes: bool)
        ensures
            yes == self@.ordered_ids is Some,
    {
        self.ordered_ids.is_some()
    }

    /// Names `key`: if it is not the stored key, the state is emptied and
    /// put under the new key and the next generation.
    fn rekey(&mut self, key: &CacheKey)
        ensures
            final(self)@ == rekeyed(old(self)@, key@),
    {
        let same = match &self.key {
            Some(stored) => stored.same(key),
            None => false,
        };
        if !same {
            self.key = Some(key.duplicate());
            self.generation = if self.generation == u64::MAX {
                0
            } else {
                self.generation + 1
            };
            self.building = false;
            self.ordered_ids = None;
            self.failure = None;
        }
    }

    /// Tells a caller that arrives with `key` what to do.
    pub fn arrive(&mut self, key: &CacheKey) -> (told: Admission)
        ensures
            (final(self)@, told@) == arrive_model(old(self)@, key@),
    {
        self.rekey(key);
        match &self.ordered_ids {
            Some(ids) => {
                return Admission::Ready(share(ids));
            },
            None => {},
        }
        if self.building {
            return Admission::Wait;
        }
        self.building = true;
        self.failure = None;
        Admission::Build { generation: self.generation }
    }

    /// Tells a caller that has waited and asks again with `key` what to do.
    pub fn wake(&mut self, key: &CacheKey) -> (told: Admission)
        ensures
            (final(self)@, told@) == wake_model(old(self)@, key@),
    {
        self.rekey(key);
        if self.ordered_ids.is_none() && !self.building {
            match &self.failure {
                Some(e) => {
                    return Admission::Failed(GitError::new(e.kind, e.message.clone()));
                },
                None => {},
            }
        }
        let ghost mid = self@;
        let told = self.arrive(key);
        proof {
            assert(rekeyed(mid, key@) == mid);
        }
        told
    }

    /// Ends a build that began for `key` under `generation`.
    pub fn settle(
        &mut self,
        key: &CacheKey,
        generation: u64,
        outcome: Result<Vec<CommitId>, GitError>,
    ) -> (settled: Settlement)
        ensures
            (final(self)@, settled@) == settle_model(
                old(self)@,
                key@,
                generation,
                outcome_view(outcome),
            ),
    {
        let current = match &self.key {
            Some(stored) => stored.same(key),
            None => false,
        };
        if !(current && self.generation == generation && self.building) {
            return Settlement::Stale;
        }
        self.building = false;
        match outcome {
            Ok(ids) => {
                let shared = Arc::new(ids);
                self.ordered_ids = Some(share(&shared));
                self.failure = None;
                Settlement::Stored(shared)
            },
            Err(e) => {
                self.ordered_ids = None;
                self.failure = Some(GitError::new(e.kind, e.message.clone()));
                Settlement::Failed(e)
            },
        }
    }
}

/// Builds the ordered identifier list of a ref: opens the repository at
/// `path` and walks the ref to its end in the store's own order, with no
/// filter, polling the cancellation flag at every step.
pub fn build_commit_index(path: &str, ref_name: &str, cancel: Option<&Arc<AtomicBool>>) -> (built:
    Result<Vec<CommitId>, GitError>)
    ensures
        built matches Ok(ids) ==> ids@.len() <= crate::walker::MAX_COLLECTED
            && crate::walker::lists_the_walk(ids@, ref_name@),
        cancel is None ==> (built matches Err(e) ==> e.kind != ErrorKind::Cancelled),
        crate::store::has_nul(path@) ==> (built matches Err(e) && e.kind
            == ErrorKind::NotARepository),
{
    let repo = match open_repository(path) {
        Ok(repo) => repo,
        Err(e) => {
            return Err(GitError::new(ErrorKind::NotARepository, error_message(&e)));
        },
    };
    let mut walker = match CommitWalker::new(&repo, CommitQueryOptions::for_branch(ref_name)) {
        Ok(walker) => walker,
        Err(e) => {
            return Err(e);
        },
    };
    let built = walker.collect_ids(cancel);
    proof {
        let answers = walker.answers();
        assert(answers.skip(0) =~= answers);
        if built is Ok {
            assert(crate::walker::walked_to_the_end(answers));
            assert(crate::walker::id_views(built->Ok_0@) == crate::walker::record_ids(
                crate::walker::records(crate::query::branch_query(ref_name@), answers),
            ));
        }
    }
    built
}

/// The state after `n` callers have arrived with the same key, one after
/// the other, and the number of them that were told to build.
pub open spec fn arrivals(e: EntryView, key: KeyView, n: nat) -> (EntryView, nat)
    decreases n,
{
    if n == 0 {
        (e, 0)
    } else {
        let (before, builds) = arrivals(e, key, (n - 1) as nat);
        let (after, told) = arrive_model(before, key);
        (
            after,
            if told is Build {
                builds + 1
            } else {
                builds
            },
        )
    }
}

/// Every step keeps the state sound.
pub proof fn steps_keep_the_state_sound(
    e: EntryView,
    key: KeyView,
    generation: u64,
    outcome: Result<Seq<CommitId>, FailureView>,
)
    requires
        entry_wf(e),
    ensures
        entry_wf(arrive_model(e, key).0),
        entry_wf(wake_model(e, key).0),
        entry_wf(settle_model(e, key, generation, outcome).0),
{
}

/// Single flight: however many callers arrive with the same key while no
/// build ends, at most one of them is told to build.
pub proof fn at_most_one_build(e: EntryView, key: KeyView, n: nat)
    requires
        entry_wf(e),
    ensures
        arrivals(e, key, n).1 <= 1,
        entry_wf(arrivals(e, key, n).0),
        arrivals(e, key, n).1 == 1 ==> {
            let after = arrivals(e, key, n).0;
            after.key == Some(key) && after.building && after.ordered_ids is None
        },
    decreases n,
{
    if n > 0 {
        at_most_one_build(e, key, (n - 1) as nat);
    }
}

/// While a build is in flight for a key, callers that arrive with that key
/// change nothing and are all told to wait.
pub proof fn arrivals_during_a_build_wait(e: EntryView, key: KeyView, n: nat)
    requires
        e.key == Some(key),
        e.building,
        e.ordered_ids is None,
    ensures
        arrivals(e, key, n) == (e, 0nat),
        arrive_model(e, key) == (e, AdmissionView::Wait),
    decreases n,
{
    if n > 0 {
        arrivals_during_a_build_wait(e, key, (n - 1) as nat);
    }
}

/// A finished list is shared: callers that arrive with its key change
/// nothing, start no build, and are all given the same list.
pub proof fn finished_list_is_shared(e: EntryView, key: KeyView, ids: Seq<CommitId>, n: nat)
    requires
        e.key == Some(key),
        e.ordered_ids == Some(ids),
    ensures
        arrivals(e, key, n) == (e, 0nat),
        arrive_model(e, key) == (e, AdmissionView::Ready(ids)),
    decreases n,
{
    if n > 0 {
        finished_list_is_shared(e, key, ids, (n - 1) as nat);
    }
}

/// One build serves all: when a caller has been told to build, the
/// `waiting` callers that arrive with the same key meanwhile start no
/// build; when the build ends with a list, that list is stored; and each
/// of the `later` callers that arrive with the key is given that list,
/// with no further build.
pub proof fn one_build_serves_all(
    e: EntryView,
    key: KeyView,
    ids: Seq<CommitId>,
    waiting: nat,
    later: nat,
)
    requires
        entry_wf(e),
        arrive_model(e, key).1 is Build,
    ensures
        ({
            let (building, told) = arrive_model(e, key);
            let generation = told->generation;
            let (stored, settled) = settle_model(
                arrivals(building, key, waiting).0,
                key,
                generation,
                Ok(ids),
            );
            &&& arrivals(building, key, waiting) == (building, 0nat)
            &&& settled == SettlementView::Stored(ids)
            &&& arrive_model(stored, key) == (stored, AdmissionView::Ready(ids))
            &&& arrivals(stored, key, later) == (stored, 0nat)
        }),
{
    let (building, told) = arrive_model(e, key);
    arrivals_during_a_build_wait(building, key, waiting);
    let (stored, settled) = settle_model(building, key, told->generation, Ok(ids));
    finished_list_is_shared(stored, key, ids, later);
}

/// A change of key orphans the build in flight: the caller with the new key
/// is told to build under another generation; when the old build ends, its
/// result is dropped and the state is left as it was; and of any number of
/// callers that arrive with the new key, exactly the first is told to
/// build.
pub proof fn stale_build_is_discarded(
    e: EntryView,
    old_key: KeyView,
    new_key: KeyView,
    outcome: Result<Seq<CommitId>, FailureView>,
    callers: nat,
)
    requires
        entry_wf(e),
        old_key != new_key,
        arrive_model(e, old_key).1 is Build,
        callers >= 1,
    ensures
        ({
            let (first, told_old) = arrive_model(e, old_key);
            let (second, told_new) = arrive_model(first, new_key);
            &&& told_new == AdmissionView::Build { generation: second.generation }
            &&& second.generation != told_old->generation
            &&& settle_model(second, old_key, told_old->generation, outcome) == (
                second,
                SettlementView::Stale,
            )
            &&& arrivals(first, new_key, callers).1 == 1
        }),
{
    let (first, told_old) = arrive_model(e, old_key);
    let (second, told_new) = arrive_model(first, new_key);
    arrivals_from_first(first, new_key, callers);
    arrivals_during_a_build_wait(second, new_key, (callers - 1) as nat);
}

/// `n` arrivals are one arrival followed by `n - 1` arrivals.
proof fn arrivals_from_first(e: EntryView, key: KeyView, n: nat)
    requires
        n >= 1,
    ensures
        ({
            let (after, told) = arrive_model(e, key);
            let rest = arrivals(after, key, (n - 1) as nat);
            arrivals(e, key, n) == (
                rest.0,
                if told is Build {
                    rest.1 + 1
                } else {
                    rest.1
                },
            )
        }),
    decreases n,
{
    if n == 1 {
        assert(arrivals(e, key, 0) == (e, 0nat));
    } else {
        arrivals_from_first(e, key, (n - 1) as nat);
    }
}

/// A failed build stores nothing, so that the next caller builds anew; a
/// caller that waited for the build is given its failure.
pub proof fn failure_does_not_poison(
    e: EntryView,
    key: KeyView,
    failure: FailureView,
)
    requires
        entry_wf(e),
        arrive_model(e, key).1 is Build,
    ensures
        ({
            let (building, told) = arrive_model(e, key);
            let (failed, settled) = settle_model(building, key, told->generation, Err(failure));
            &&& settled == SettlementView::Failed(failure)
            &&& failed.ordered_ids is None
            &&& wake_model(failed, key) == (failed, AdmissionView::Failed(failure))
            &&& arrive_model(failed, key).1 == AdmissionView::Build { generation: told->generation }
        }),
{
}

} // verus!
