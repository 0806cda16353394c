//! The bookkeeping of a commit list that is loaded page by page by a
//! worker: when a page is asked for, which answers still count, and
//! whether a row that a search points at can be selected yet.

use vstd::prelude::*;

verus! {

/// The number of commits in one page.
pub const COMMIT_PAGE_SIZE: usize = 200;

/// The greatest number of times that the selection of a row is tried
/// again while pages are loaded.
pub const MAX_SELECT_ATTEMPTS: u32 = 200;

/// What the list asks of its worker.
#[derive(Debug, Clone, Copy, PartialEq, Eq, Structural)]
pub enum CommitLoadRequest {
    /// Load the next page.
    NextPage,
    /// End.
    Stop,
}

/// The state of a list that is loaded page by page.
#[derive(Debug, Clone, Copy, PartialEq, Eq, Structural)]
pub struct CommitPagingState {
    /// Counts the loads; an answer that carries another count is stale.
    pub generation: u64,
    /// A page has been asked for and has not come yet.
    pub is_loading: bool,
    /// Every commit has been loaded, or the list has been cleared.
    pub done: bool,
    /// There is a worker to ask.
    pub has_worker: bool,
}

/// What the worker does with a request.
#[derive(Debug, Clone, Copy, PartialEq, Eq, Structural)]
pub enum WorkerStep {
    /// Load a page and answer with it.
    LoadPage,
    /// End.
    Quit,
}

/// What becomes of the wish to select a row.
#[derive(Debug, Clone, Copy, PartialEq, Eq, Structural)]
pub enum SelectStep {
    /// The row is loaded: select it.
    Select,
    /// The row cannot come, or the list has changed: give up.
    Abandon,
    /// Try again in a while; `request_page` says whether a page is to be
    /// asked for first.
    Retry { request_page: bool },
}

/// A page can be asked for: the list is not done and has a worker.
pub open spec fn can_page(state: CommitPagingState) -> bool {
    !state.done && state.has_worker
}

/// What becomes of the wish to select the row `target` when `loaded` rows
/// are there, and the state after.
pub open spec fn select_model(
    state: CommitPagingState,
    expected_generation: u64,
    loaded: u32,
    target: u32,
    attempt: u32,
) -> (CommitPagingState, SelectStep) {
    if state.generation != expected_generation {
        (state, SelectStep::Abandon)
    } else if loaded > target {
        (state, SelectStep::Select)
    } else if !can_page(state) || attempt >= MAX_SELECT_ATTEMPTS {
        (state, SelectStep::Abandon)
    } else {
        (
            CommitPagingState { is_loading: true, ..state },
            SelectStep::Retry { request_page: !state.is_loading },
        )
    }
}

impl Default for CommitPagingState {
    fn default() -> (state: CommitPagingState)
        ensures
            state == (CommitPagingState {
                generation: 0,
                is_loading: false,
                done: false,
                has_worker: false,
            }),
    {
        CommitPagingState { generation: 0, is_loading: false, done: false, has_worker: false }
    }
}

impl CommitPagingState {
    /// Begins a load under a new generation: there is a worker, nothing is
    /// done, and the first page is asked for at once.
    pub fn begin_load(&mut self, generation: u64)
        ensures
            *final(self) == (CommitPagingState {
                generation,
                is_loading: true,
                done: false,
                has_worker: true,
            }),
    {
        self.generation = generation;
        self.is_loading = true;
        self.done = false;
        self.has_worker = true;
    }

    /// Clears the list under a new generation: there is no worker, and
    /// nothing more will come.
    pub fn clear(&mut self, generation: u64)
        ensures
            *final(self) == (CommitPagingState {
                generation,
                is_loading: false,
                done: true,
                has_worker: false,
            }),
    {
        self.generation = generation;
        self.is_loading = false;
        self.done = true;
        self.has_worker = false;
    }

    /// Asks for the next page if one can be asked for and none is on its
    /// way. Says whether the request is to be sent.
    pub fn request_next_page(&mut self) -> (send: bool)
        ensures
            send == (can_page(*old(self)) && !old(self).is_loading),
            *final(self) == if send {
                CommitPagingState { is_loading: true, ..*old(self) }
            } else {
                *old(self)
            },
    {
        if self.done || self.is_loading || !self.has_worker {
            return false;
        }
        self.is_loading = true;
        true
    }

    /// Takes in a page. A page of another generation is stale and changes
    /// nothing. Says whether the page counts.
    pub fn accept_page(&mut self, generation: u64, done: bool) -> (counts: bool)
        ensures
            counts == (generation == old(self).generation),
            *final(self) == if counts {
                CommitPagingState { is_loading: false, done, ..*old(self) }
            } else {
                *old(self)
            },
    {
        if generation != self.generation {
            return false;
        }
        self.is_loading = false;
        self.done = done;
        true
    }

    /// Takes in a failure of the worker. A failure of another generation
    /// is stale and changes nothing. Says whether the failure counts.
    pub fn accept_error(&mut self, generation: u64) -> (counts: bool)
        ensures
            counts == (generation == old(self).generation),
            *final(self) == if counts {
                CommitPagingState { is_loading: false, ..*old(self) }
            } else {
                *old(self)
            },
    {
        if generation != self.generation {
            return false;
        }
        self.is_loading = false;
        true
    }

    /// The worker is gone without a word: no page is on its way.
    pub fn worker_lost(&mut self)
        ensures
            *final(self) == (CommitPagingState { is_loading: false, ..*old(self) }),
    {
        self.is_loading = false;
    }

    /// Decides what becomes of the wish to select the row `target` when
    /// `loaded` rows are there.
    pub fn ensure_loaded_then_select(
        &mut self,
        expected_generation: u64,
        loaded: u32,
        target: u32,
        attempt: u32,
    ) -> (step: SelectStep)
        ensures
            (*final(self), step) == select_model(
                *old(self),
                expected_generation,
                loaded,
                target,
                attempt,
            ),
    {
        if self.generation != expected_generation {
            return SelectStep::Abandon;
        }
        if loaded > target {
            return SelectStep::Select;
        }
        let can_page = !self.done && self.has_worker;
        if !can_page || attempt >= MAX_SELECT_ATTEMPTS {
            return SelectStep::Abandon;
        }
        let request_page = !self.is_loading;
        self.is_loading = true;
        SelectStep::Retry { request_page }
    }
}

/// What the worker does with a request: it loads a page when asked for
/// one while its generation is still the current one, and ends otherwise.
pub fn worker_step(request: CommitLoadRequest, current_generation: u64, own_generation: u64) -> (step:
    WorkerStep)
    ensures
        step == if request == CommitLoadRequest::NextPage && current_generation == own_generation {
            WorkerStep::LoadPage
        } else {
            WorkerStep::Quit
        },
{
    match request {
        CommitLoadRequest::NextPage => if current_generation == own_generation {
            WorkerStep::LoadPage
        } else {
            WorkerStep::Quit
        },
        CommitLoadRequest::Stop => WorkerStep::Quit,
    }
}

/// A row can be selected only once it is loaded, and loading is asked for
/// no more than once at a time: a retry asks for a page exactly when none
/// is on its way, and leaves one on its way.
pub proof fn selection_waits_for_the_row(
    state: CommitPagingState,
    expected_generation: u64,
    loaded: u32,
    target: u32,
    attempt: u32,
)
    ensures
        ({
            let (after, step) = select_model(state, expected_generation, loaded, target, attempt);
            &&& step == SelectStep::Select ==> target < loaded && after == state
            &&& step matches SelectStep::Retry { request_page } ==> after.is_loading && request_page
                == !state.is_loading && attempt < MAX_SELECT_ATTEMPTS
            &&& after.generation == state.generation
        }),
{
}

} // verus!
