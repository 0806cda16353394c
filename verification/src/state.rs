//! What the program knows of its window: which repository and which ref
//! are open, and whether a dialog is up.

use vstd::prelude::*;
use vstd::string::StringExecFns;
use crate::git::{branch_exists, default_branch_ref};
use crate::text::str_eq;
use crate::status::{clamp_search_query, clamped};

verus! {

/// The state of one window.
#[derive(Debug, Clone, PartialEq, Eq)]
pub struct AppState {
    pub current_path: Option<String>,
    /// The name of the branch or tag that is shown.
    pub current_ref: Option<String>,
    /// The dialog that opens a repository is up.
    pub file_portal_active: bool,
}

impl AppState {
    /// The state of a window with no repository open.
    pub fn new() -> (state: AppState)
        ensures
            state.current_path is None,
            state.current_ref is None,
            !state.file_portal_active,
    {
        AppState { current_path: None, current_ref: None, file_portal_active: false }
    }

    /// Forgets the open repository and its ref.
    pub fn clear_repo(&mut self)
        ensures
            final(self).current_path is None,
            final(self).current_ref is None,
            final(self).file_portal_active == old(self).file_portal_active,
    {
        self.current_path = None;
        self.current_ref = None;
    }

    /// Whether a repository is open.
    pub fn is_repo_loaded(&self) -> (yes: bool)
        ensures
            yes == self.current_path is Some,
    {
        self.current_path.is_some()
    }

    /// Puts the dialog up unless it is up already. Says whether it was put
    /// up.
    pub fn begin_file_dialog(&mut self) -> (opened: bool)
        ensures
            opened == !old(self).file_portal_active,
            final(self).file_portal_active,
            final(self).current_path == old(self).current_path,
            final(self).current_ref == old(self).current_ref,
    {
        if self.file_portal_active {
            return false;
        }
        self.file_portal_active = true;
        true
    }

    /// Takes the dialog down.
    pub fn end_file_dialog(&mut self)
        ensures
            !final(self).file_portal_active,
            final(self).current_path == old(self).current_path,
            final(self).current_ref == old(self).current_ref,
    {
        self.file_portal_active = false;
    }
}

/// The ref that is shown when `requested` is asked for: the requested ref
/// if it exists, else the default ref if that exists, else `HEAD`.
pub open spec fn effective_ref_choice(
    requested: Seq<char>,
    requested_exists: bool,
    default: Seq<char>,
    default_exists: bool,
) -> Seq<char> {
    if requested_exists {
        requested
    } else if default_exists {
        default
    } else {
        "HEAD"@
    }
}

/// The ref that is shown, given what exists.
pub fn choose_effective_ref(
    requested: String,
    requested_exists: bool,
    default: String,
    default_exists: bool,
) -> (chosen: String)
    ensures
        chosen@ == effective_ref_choice(requested@, requested_exists, default@, default_exists),
{
    if requested_exists {
        requested
    } else if default_exists {
        default
    } else {
        String::from_str("HEAD")
    }
}

/// The ref that is shown for the repository at `path` when `ref_name` is
/// asked for: the ref asked for, or the default ref if none is; and if
/// that does not exist, the default ref if it exists, and else `HEAD`.
pub fn effective_ref(path: &str, ref_name: Option<String>) -> (chosen: String)
    ensures
        exists|requested: Seq<char>, requested_exists: bool, default: Seq<char>, default_exists: bool|
            {
                &&& chosen@ == effective_ref_choice(
                    requested,
                    requested_exists,
                    default,
                    default_exists,
                )
                &&& ref_name matches Some(name) ==> requested == name@
            },
{
    let requested = match ref_name {
        Some(name) => name,
        None => default_branch_ref(path),
    };
    if branch_exists(path, requested.as_str()) {
        assert(requested@ == effective_ref_choice(requested@, true, requested@, true));
        return requested;
    }
    let default = default_branch_ref(path);
    let default_exists = branch_exists(path, default.as_str());
    let ghost (asked, fallback) = (requested@, default@);
    let chosen = choose_effective_ref(requested, false, default, default_exists);
    assert(chosen@ == effective_ref_choice(asked, false, fallback, default_exists));
    chosen
}

/// The title of the window while a repository is open.
pub fn window_title(app_name: &str, folder_name: &str) -> (title: String)
    ensures
        title@ == app_name@ + " - "@ + folder_name@,
{
    let mut title = String::from_str(app_name);
    title.append(" - ");
    title.append(folder_name);
    title
}

/// Whether the result of a search for `expected_query` still answers what
/// stands in the search field: the field's text, cut as a query is cut,
/// is that query.
pub fn result_is_current(entry_text: &str, expected_query: &str) -> (yes: bool)
    ensures
        yes == (clamped(entry_text@) == expected_query@),
{
    let query = clamp_search_query(entry_text);
    str_eq(query.as_str(), expected_query)
}

/// What is told when a path turns out to lead to no repository.
pub fn repo_error_detail(path: &str, error: &str) -> (detail: String)
    ensures
        detail@ == "\u{201c}"@ + path@ + "\u{201d} is not a Git repository.\n\n"@ + error@,
{
    let mut detail = String::from_str("\u{201c}");
    detail.append(path);
    detail.append("\u{201d} is not a Git repository.\n\n");
    detail.append(error);
    detail
}

/// The line shown above a commit's patch: who wrote the commit, when, and
/// its identifier.
pub fn metadata_label(author_name: &str, author_email: &str, date_time: &str, git_sha: &str) -> (label:
    String)
    ensures
        label@ == author_name@ + " <"@ + author_email@ + "> - "@ + date_time@ + " - "@ + git_sha@,
{
    let mut label = String::from_str(author_name);
    label.append(" <");
    label.append(author_email);
    label.append("> - ");
    label.append(date_time);
    label.append(" - ");
    label.append(git_sha);
    label
}

} // verus!
