//! The search session: the last query, the positions it matched, and a
//! cursor that steps through them in a circle.

use vstd::prelude::*;
use vstd::string::StringExecFns;
use std::sync::Arc;
use std::sync::atomic::AtomicBool;
use crate::error::{ErrorKind, GitError};
use crate::positions::strictly_ascending;
use crate::search::{found_in_walk, search_repository};
use crate::std_ext::lowercase;
use crate::text::str_eq;

verus! {

/// The session as plain values.
pub struct SessionView {
    pub query: Seq<char>,
    pub positions: Seq<u32>,
    pub cursor: nat,
}

/// The state of a session that has not searched yet.
pub open spec fn idle_session() -> SessionView {
    SessionView { query: Seq::empty(), positions: Seq::empty(), cursor: 0 }
}

/// The cursor points at one of the positions, or at nothing if there are
/// none.
pub open spec fn session_wf(s: SessionView) -> bool {
    if s.positions.len() == 0 {
        s.cursor == 0
    } else {
        s.cursor < s.positions.len()
    }
}

/// The session holds matches for this very query, so that a step needs no
/// new search.
pub open spec fn is_bound(s: SessionView, query: Seq<char>) -> bool {
    s.query.len() > 0 && s.query == query && s.positions.len() > 0
}

/// The session bound to a query and its positions, with the cursor at
/// `cursor`.
pub open spec fn bound_session(query: Seq<char>, positions: Seq<u32>, cursor: nat) -> SessionView {
    SessionView { query, positions, cursor }
}

/// A step forward: the state after, and the position to go to. A session
/// bound to the query moves its cursor on by one, from the last match round
/// to the first. Any other session takes the freshly resolved positions:
/// none resolved (the search failed) leaves it as it is; else it is bound
/// to them with the cursor on the first, and there is a position to go to
/// unless the list is empty.
pub open spec fn next_model(s: SessionView, query: Seq<char>, resolved: Option<Seq<u32>>) -> (
    SessionView,
    Option<u32>,
) {
    if is_bound(s, query) {
        let cursor = ((s.cursor + 1) as int % (s.positions.len() as int)) as nat;
        (bound_session(s.query, s.positions, cursor), Some(s.positions[cursor as int]))
    } else {
        match resolved {
            None => (s, None),
            Some(fresh) => if fresh.len() == 0 {
                (bound_session(query, fresh, 0), None)
            } else {
                (bound_session(query, fresh, 0), Some(fresh[0]))
            },
        }
    }
}

/// A step backward: as a step forward, but the cursor of a bound session
/// moves back by one, from the first match round to the last, and a fresh
/// list is entered at its last position.
pub open spec fn previous_model(s: SessionView, query: Seq<char>, resolved: Option<Seq<u32>>) -> (
    SessionView,
    Option<u32>,
) {
    if is_bound(s, query) {
        let cursor = if s.cursor == 0 {
            (s.positions.len() - 1) as nat
        } else {
            (s.cursor - 1) as nat
        };
        (bound_session(s.query, s.positions, cursor), Some(s.positions[cursor as int]))
    } else {
        match resolved {
            None => (s, None),
            Some(fresh) => if fresh.len() == 0 {
                (bound_session(query, fresh, 0), None)
            } else {
                let last = (fresh.len() - 1) as nat;
                (bound_session(query, fresh, last), Some(fresh[last as int]))
            },
        }
    }
}

/// The positions of an optional list.
pub open spec fn resolved_view(resolved: Option<Vec<u32>>) -> Option<Seq<u32>> {
    match resolved {
        Some(list) => Some(list@),
        None => None,
    }
}

/// The outcome of one search, as it is handed from the thread that
/// searched to the thread that shows it.
#[derive(Debug, Clone, PartialEq, Eq)]
pub struct SearchResult {
    pub query: String,
    /// Positions in the order of the walk, which is the order of the rows
    /// shown.
    pub matching_indices: Vec<u32>,
    pub error: Option<String>,
}

/// What to show once a search result has been taken in.
#[derive(Debug, Clone, Copy, PartialEq, Eq)]
pub struct SearchFeedback {
    /// The number of matches; `None` if the search failed.
    pub match_count: Option<usize>,
    /// The position to select, if there is a match.
    pub select: Option<u32>,
}

/// A search session.
#[derive(Debug, PartialEq, Eq)]
pub struct SearchHandler {
    query: String,
    positions: Vec<u32>,
    cursor: usize,
}

impl View for SearchHandler {
    type V = SessionView;

    closed spec fn view(&self) -> SessionView {
        SessionView { query: self.query@, positions: self.positions@, cursor: self.cursor as nat }
    }
}

impl SearchHandler {
    /// The cursor points at one of the positions, or at nothing if there
    /// are none.
    #[verifier::type_invariant]
    spec fn cursor_in_range(self) -> bool {
        if self.positions@.len() == 0 {
            self.cursor == 0
        } else {
            self.cursor < self.positions@.len()
        }
    }

    /// A session that has not searched yet.
    pub fn new() -> (session: SearchHandler)
        ensures
            session@ == idle_session(),
            session_wf(session@),
    {
        SearchHandler { query: String::new(), positions: Vec::new(), cursor: 0 }
    }

    /// The query that the session is bound to; empty if it is idle.
    pub fn query(&self) -> (q: &str)
        ensures
            q@ == self@.query,
    {
        self.query.as_str()
    }

    /// The matched positions.
    pub fn positions(&self) -> (list: &Vec<u32>)
        ensures
            list@ == self@.positions,
    {
        &self.positions
    }

    /// Where the cursor stands in the list of positions.
    pub fn cursor(&self) -> (at: usize)
        ensures
            at == self@.cursor,
    {
        self.cursor
    }

    /// Whether the session holds matches for this very query.
    pub fn is_bound_to(&self, query: &str) -> (yes: bool)
        ensures
            yes == is_bound(self@, query@),
    {
        let same = self.query.as_str().unicode_len() > 0 && str_eq(self.query.as_str(), query);
        same && self.positions.len() > 0
    }

    /// Binds the session to a query and its positions.
    fn bind(&mut self, query: &str, positions: Vec<u32>, cursor: usize)
        requires
            session_wf(bound_session(query@, positions@, cursor as nat)),
        ensures
            final(self)@ == bound_session(query@, positions@, cursor as nat),
    {
        *self = SearchHandler { query: String::from_str(query), positions, cursor };
    }

    /// Steps forward, given what a fresh search resolved. `resolved` is
    /// looked at only if the session is not bound to the query.
    pub fn step_next(&mut self, query: &str, resolved: Option<Vec<u32>>) -> (target: Option<u32>)
        ensures
            session_wf(final(self)@),
            (final(self)@, target) == next_model(old(self)@, query@, resolved_view(resolved)),
    {
        proof {
            use_type_invariant(&*self);
        }
        if self.is_bound_to(query) {
            let count = self.positions.len();
            let next = if self.cursor + 1 == count {
                0
            } else {
                self.cursor + 1
            };
            proof {
                let (c, n) = (self.cursor as int, self.positions@.len() as int);
                if c + 1 == n {
                    assert((c + 1) % n == 0) by (nonlinear_arith)
                        requires
                            c + 1 == n,
                            n > 0,
                    ;
                } else {
                    assert((c + 1) % n == c + 1) by (nonlinear_arith)
                        requires
                            0 <= c + 1 < n,
                    ;
                }
            }
            self.cursor = next;
            return Some(self.positions[next]);
        }
        match resolved {
            None => None,
            Some(fresh) => {
                let first = if fresh.len() == 0 {
                    None
                } else {
                    Some(fresh[0])
                };
                self.bind(query, fresh, 0);
                first
            },
        }
    }

    /// Steps backward, given what a fresh search resolved. `resolved` is
    /// looked at only if the session is not bound to the query.
    pub fn step_previous(&mut self, query: &str, resolved: Option<Vec<u32>>) -> (target: Option<
        u32,
    >)
        ensures
            session_wf(final(self)@),
            (final(self)@, target) == previous_model(old(self)@, query@, resolved_view(resolved)),
    {
        proof {
            use_type_invariant(&*self);
        }
        if self.is_bound_to(query) {
            let previous = if self.cursor == 0 {
                self.positions.len() - 1
            } else {
                self.cursor - 1
            };
            self.cursor = previous;
            return Some(self.positions[previous]);
        }
        match resolved {
            None => None,
            Some(fresh) => {
                if fresh.len() == 0 {
                    self.bind(query, fresh, 0);
                    None
                } else {
                    let last = fresh.len() - 1;
                    let target = fresh[last];
                    self.bind(query, fresh, last);
                    Some(target)
                }
            },
        }
    }

    /// Steps forward. A session bound to the query moves its cursor; any
    /// other calls `resolver` for fresh positions and is bound to them.
    pub fn compute_next<F: FnOnce(&str) -> Option<Vec<u32>>>(
        &mut self,
        query: &str,
        resolver: F,
    ) -> (target: Option<u32>)
        requires
            !is_bound(old(self)@, query@) ==> call_requires(resolver, (query,)),
        ensures
            session_wf(final(self)@),
            is_bound(old(self)@, query@) ==> (final(self)@, target) == next_model(
                old(self)@,
                query@,
                None,
            ),
            !is_bound(old(self)@, query@) ==> exists|resolved: Option<Vec<u32>>|
                call_ensures(resolver, (query,), resolved) && (final(self)@, target) == next_model(
                    old(self)@,
                    query@,
                    resolved_view(resolved),
                ),
    {
        if self.is_bound_to(query) {
            self.step_next(query, None)
        } else {
            let resolved = resolver(query);
            let ghost witness = resolved;
            let target = self.step_next(query, resolved);
            assert(call_ensures(resolver, (query,), witness));
            target
        }
    }

    /// Steps backward. A session bound to the query moves its cursor; any
    /// other calls `resolver` for fresh positions and is bound to them.
    pub fn compute_previous<F: FnOnce(&str) -> Option<Vec<u32>>>(
        &mut self,
        query: &str,
        resolver: F,
    ) -> (target: Option<u32>)
        requires
            !is_bound(old(self)@, query@) ==> call_requires(resolver, (query,)),
        ensures
            session_wf(final(self)@),
            is_bound(old(self)@, query@) ==> (final(self)@, target) == previous_model(
                old(self)@,
                query@,
                None,
            ),
            !is_bound(old(self)@, query@) ==> exists|resolved: Option<Vec<u32>>|
                call_ensures(resolver, (query,), resolved) && (final(self)@, target)
                    == previous_model(old(self)@, query@, resolved_view(resolved)),
    {
        if self.is_bound_to(query) {
            self.step_previous(query, None)
        } else {
            let resolved = resolver(query);
            let ghost witness = resolved;
            let target = self.step_previous(query, resolved);
            assert(call_ensures(resolver, (query,), witness));
            target
        }
    }
}

/// The text of a failed search: a cancellation is named as such, and any
/// other failure is introduced as an error of reading the commits.
pub open spec fn search_error_text(e: (ErrorKind, Seq<char>)) -> Seq<char> {
    if e.0 == ErrorKind::Cancelled {
        "Cancelled"@
    } else {
        "Error reading git commits for search: "@ + e.1
    }
}

/// The text of a failed search.
pub fn describe_search_error(e: &GitError) -> (text: String)
    ensures
        text@ == search_error_text(e@),
{
    if e.is_cancelled() {
        String::from_str("Cancelled")
    } else {
        let mut text = String::from_str("Error reading git commits for search: ");
        text.append(e.message.as_str());
        text
    }
}

/// The ref that is searched: the one named, and `HEAD` where none is.
pub open spec fn searched_ref(branch_name: Option<&str>) -> Seq<char> {
    match branch_name {
        Some(name) => name@,
        None => "HEAD"@,
    }
}

impl SearchHandler {
    /// The positions, in the order of the walk over `branch_ref`, of the
    /// commits that match the query.
    pub fn find_matching_indices_in_repo(path: &str, branch_ref: &str, query: &str) -> (found:
        Result<Vec<u32>, String>)
        ensures
            lowercase(query@).len() == 0 ==> (found matches Ok(hits) && hits@.len() == 0),
            found matches Ok(hits) ==> strictly_ascending(hits@),
            lowercase(query@).len() > 0 ==> (found matches Ok(hits) ==> found_in_walk(
                hits@,
                branch_ref@,
                query@,
            )),
            found matches Err(text) ==> text@ != "Cancelled"@ && exists|e: (ErrorKind, Seq<char>)|
                text@ == #[trigger] search_error_text(e),
            lowercase(query@).len() > 0 && crate::store::has_nul(path@) ==> found is Err,
    {
        SearchHandler::find_matching_indices_in_repo_cancelable(path, branch_ref, query, None)
    }

    /// The positions, in the order of the walk over `branch_ref`, of the
    /// commits that match the query; the cancellation flag is polled at
    /// every step. An empty query finds nothing without touching the
    /// store. A raised flag gives the text `Cancelled`.
    pub fn find_matching_indices_in_repo_cancelable(
        path: &str,
        branch_ref: &str,
        query: &str,
        cancel: Option<Arc<AtomicBool>>,
    ) -> (found: Result<Vec<u32>, String>)
        ensures
            lowercase(query@).len() == 0 ==> (found matches Ok(hits) && hits@.len() == 0),
            found matches Ok(hits) ==> strictly_ascending(hits@),
            lowercase(query@).len() > 0 ==> (found matches Ok(hits) ==> found_in_walk(
                hits@,
                branch_ref@,
                query@,
            )),
            found matches Err(text) ==> exists|e: (ErrorKind, Seq<char>)|
                text@ == #[trigger] search_error_text(e),
            cancel is None ==> (found matches Err(text) ==> text@ != "Cancelled"@),
            lowercase(query@).len() > 0 && crate::store::has_nul(path@) ==> found is Err,
    {
        let flag = match &cancel {
            Some(flag) => Some(flag),
            None => None,
        };
        match search_repository(path, branch_ref, query, flag) {
            Ok(hits) => Ok(hits),
            Err(e) => {
                let text = describe_search_error(&e);
                proof {
                    assert(text@ == search_error_text(e@));
                    cancelled_is_not_an_error_report(e@.1);
                }
                Err(text)
            },
        }
    }

    /// Runs one search to its end and says what, if anything, is to be
    /// handed to the thread that shows results: nothing if the flag is
    /// found raised before or after the search or the search was
    /// cancelled; else the matches, or the failure with no matches.
    pub fn perform_search_cancelable(
        path: &str,
        branch_name: Option<&str>,
        query: &str,
        cancel: Option<Arc<AtomicBool>>,
    ) -> (outcome: Option<SearchResult>)
        ensures
            cancel is None ==> outcome is Some,
            outcome matches Some(result) ==> {
                &&& result.query@ == query@
                &&& lowercase(query@).len() > 0 && crate::store::has_nul(path@)
                    ==> result.error is Some
                &&& result.error is Some ==> result.matching_indices@.len() == 0
                &&& result.error is None ==> strictly_ascending(result.matching_indices@)
                &&& result.error is None && lowercase(query@).len() > 0 ==> found_in_walk(
                    result.matching_indices@,
                    searched_ref(branch_name),
                    query@,
                )
                &&& result.error is None && lowercase(query@).len() == 0
                    ==> result.matching_indices@.len() == 0
                &&& result.error matches Some(text) ==> text@ != "Cancelled"@ && exists|
                    e: (ErrorKind, Seq<char>),
                | text@ == #[trigger] search_error_text(e)
            },
    {
        let flag = match &cancel {
            Some(flag) => Some(flag),
            None => None,
        };
        if crate::cancel::is_cancelled(flag) {
            return None;
        }
        let branch_ref = match branch_name {
            Some(name) => name,
            None => "HEAD",
        };
        let result = match search_repository(path, branch_ref, query, flag) {
            Ok(hits) => SearchResult {
                query: String::from_str(query),
                matching_indices: hits,
                error: None,
            },
            Err(e) => {
                if e.is_cancelled() {
                    return None;
                }
                let text = describe_search_error(&e);
                proof {
                    assert(text@ == search_error_text(e@));
                    cancelled_is_not_an_error_report(e@.1);
                }
                SearchResult {
                    query: String::from_str(query),
                    matching_indices: Vec::new(),
                    error: Some(text),
                }
            },
        };
        if crate::cancel::is_cancelled(flag) {
            return None;
        }
        Some(result)
    }

    /// Takes in the result of a search. A failed search and a search
    /// without matches leave the session as it is. Any other binds the
    /// session to the query and its matches, with the cursor on the first.
    pub fn process_search_result_async(&mut self, result: SearchResult) -> (shown: SearchFeedback)
        ensures
            session_wf(final(self)@),
            result.error is Some ==> final(self)@ == old(self)@ && shown == (SearchFeedback {
                match_count: None,
                select: None,
            }),
            result.error is None && result.matching_indices@.len() == 0 ==> final(self)@ == old(
                self,
            )@ && shown == (SearchFeedback { match_count: Some(0), select: None }),
            result.error is None && result.matching_indices@.len() > 0 ==> final(self)@
                == bound_session(result.query@, result.matching_indices@, 0) && shown == (
                SearchFeedback {
                    match_count: Some(result.matching_indices@.len() as usize),
                    select: Some(result.matching_indices@[0]),
                }),
    {
        proof {
            use_type_invariant(&*self);
        }
        if result.error.is_some() {
            return SearchFeedback { match_count: None, select: None };
        }
        if result.matching_indices.len() == 0 {
            return SearchFeedback { match_count: Some(0), select: None };
        }
        let count = result.matching_indices.len();
        let first = result.matching_indices[0];
        self.bind(result.query.as_str(), result.matching_indices, 0);
        SearchFeedback { match_count: Some(count), select: Some(first) }
    }

    /// Steps forward to the next match of `query` in the history of
    /// `branch_ref`, searching the repository at `path` if the session is
    /// not bound to the query.
    pub fn compute_next_match_index(&mut self, query: String, path: &str, branch_ref: &str) -> (target:
        Option<u32>)
        ensures
            session_wf(final(self)@),
            is_bound(old(self)@, query@) ==> (final(self)@, target) == next_model(
                old(self)@,
                query@,
                None,
            ),
            !is_bound(old(self)@, query@) ==> exists|resolved: Option<Seq<u32>>|
                (final(self)@, target) == next_model(old(self)@, query@, resolved),
    {
        let resolved = if self.is_bound_to(query.as_str()) {
            None
        } else {
            match SearchHandler::find_matching_indices_in_repo(path, branch_ref, query.as_str()) {
                Ok(hits) => Some(hits),
                Err(_) => None,
            }
        };
        let ghost witness = resolved_view(resolved);
        let target = self.step_next(query.as_str(), resolved);
        assert((self@, target) == next_model(old(self)@, query@, witness));
        target
    }

    /// Steps backward to the previous match of `query` in the history of
    /// `branch_ref`, searching the repository at `path` if the session is
    /// not bound to the query.
    pub fn compute_previous_match_index(&mut self, query: String, path: &str, branch_ref: &str) -> (target:
        Option<u32>)
        ensures
            session_wf(final(self)@),
            is_bound(old(self)@, query@) ==> (final(self)@, target) == previous_model(
                old(self)@,
                query@,
                None,
            ),
            !is_bound(old(self)@, query@) ==> exists|resolved: Option<Seq<u32>>|
                (final(self)@, target) == previous_model(old(self)@, query@, resolved),
    {
        let resolved = if self.is_bound_to(query.as_str()) {
            None
        } else {
            match SearchHandler::find_matching_indices_in_repo(path, branch_ref, query.as_str()) {
                Ok(hits) => Some(hits),
                Err(_) => None,
            }
        };
        let ghost witness = resolved_view(resolved);
        let target = self.step_previous(query.as_str(), resolved);
        assert((self@, target) == previous_model(old(self)@, query@, witness));
        target
    }
}

/// The report of an error of reading is never the word `Cancelled`.
proof fn cancelled_is_not_an_error_report(message: Seq<char>)
    ensures
        "Error reading git commits for search: "@ + message != "Cancelled"@,
{
    reveal_strlit("Error reading git commits for search: ");
    reveal_strlit("Cancelled");
    let report = "Error reading git commits for search: "@ + message;
    assert(report[0] == 'E');
    assert("Cancelled"@[0] == 'C');
}

/// The state after `n` steps forward with the same query and no fresh
/// search.
pub open spec fn steps_forward(s: SessionView, query: Seq<char>, n: nat) -> SessionView
    decreases n,
{
    if n == 0 {
        s
    } else {
        next_model(steps_forward(s, query, (n - 1) as nat), query, None).0
    }
}

/// Steps forward keep a bound session bound, and move the cursor on by
/// their number, round the circle.
pub proof fn steps_forward_add_up(s: SessionView, query: Seq<char>, n: nat)
    requires
        session_wf(s),
        is_bound(s, query),
    ensures
        steps_forward(s, query, n) == bound_session(
            s.query,
            s.positions,
            ((s.cursor + n) as int % (s.positions.len() as int)) as nat,
        ),
    decreases n,
{
    let k = s.positions.len() as int;
    if n == 0 {
        vstd::arithmetic::div_mod::lemma_small_mod(s.cursor, s.positions.len());
    } else {
        steps_forward_add_up(s, query, (n - 1) as nat);
        let a = (s.cursor + n - 1) as int;
        vstd::arithmetic::div_mod::lemma_add_mod_noop_right(1, a, k);
        assert((1 + a % k) % k == (1 + a) % k);
        assert(0 <= a % k < k) by (nonlinear_arith)
            requires
                k > 0,
                a >= 0,
        ;
    }
}

/// The matches are gone through in a circle: in a session bound to a query
/// with `k` matches, `k` steps forward lead back to where the cursor
/// stood.
pub proof fn next_comes_full_circle(s: SessionView, query: Seq<char>)
    requires
        session_wf(s),
        is_bound(s, query),
    ensures
        steps_forward(s, query, s.positions.len()) == s,
{
    steps_forward_add_up(s, query, s.positions.len());
    let k = s.positions.len() as int;
    vstd::arithmetic::div_mod::lemma_mod_add_multiples_vanish(s.cursor as int, k);
    vstd::arithmetic::div_mod::lemma_small_mod(s.cursor, s.positions.len());
}

/// A step backward undoes a step forward, and a step forward undoes a step
/// backward: either pair leads back to where the cursor stood, and the
/// second step goes to the position that the cursor stood on.
pub proof fn previous_undoes_next(s: SessionView, query: Seq<char>)
    requires
        session_wf(s),
        is_bound(s, query),
    ensures
        previous_model(next_model(s, query, None).0, query, None) == (
            s,
            Some(s.positions[s.cursor as int]),
        ),
        next_model(previous_model(s, query, None).0, query, None) == (
            s,
            Some(s.positions[s.cursor as int]),
        ),
{
    let k = s.positions.len() as int;
    let c = s.cursor as int;
    if c + 1 == k {
        assert((c + 1) % k == 0) by (nonlinear_arith)
            requires
                c + 1 == k,
                k > 0,
        ;
    } else {
        assert((c + 1) % k == c + 1) by (nonlinear_arith)
            requires
                0 <= c + 1 < k,
        ;
    }
    if c == 0 {
        assert((k - 1 + 1) % k == 0) by (nonlinear_arith)
            requires
                k > 0,
        ;
    } else {
        assert((c - 1 + 1) % k == c) by (nonlinear_arith)
            requires
                0 < c < k,
        ;
    }
}

} // verus!
