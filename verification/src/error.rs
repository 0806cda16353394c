//! The failures that the library reports.

use vstd::prelude::*;
use vstd::string::StringExecFns;

verus! {

/// What went wrong.
#[derive(Clone, Copy, Debug, PartialEq, Eq, Structural)]
pub enum ErrorKind {
    /// The path does not lead to a repository.
    NotARepository,
    /// A ref or revision spec does not name anything that can be walked.
    InvalidRevision,
    /// The caller's cancellation flag was raised: an intended stop, no fault.
    Cancelled,
    /// The object store failed while it was read.
    Store,
}

/// A failure: its kind, and a message for the user.
#[derive(Debug, Clone, PartialEq, Eq)]
pub struct GitError {
    pub kind: ErrorKind,
    pub message: String,
}

impl View for GitError {
    type V = (ErrorKind, Seq<char>);

    open spec fn view(&self) -> (ErrorKind, Seq<char>) {
        (self.kind, self.message@)
    }
}

/// The message carried by a cancellation.
pub open spec fn cancelled_message() -> Seq<char> {
    "Cancelled"@
}

impl GitError {
    /// The failure that stands for a raised cancellation flag.
    pub fn cancelled() -> (e: GitError)
        ensures
            e@ == (ErrorKind::Cancelled, cancelled_message()),
    {
        GitError { kind: ErrorKind::Cancelled, message: String::from_str("Cancelled") }
    }

    /// A failure of the given kind with the given message.
    pub fn new(kind: ErrorKind, message: String) -> (e: GitError)
        ensures
            e@ == (kind, message@),
    {
        GitError { kind, message }
    }

    /// Whether this failure is a cancellation.
    pub fn is_cancelled(&self) -> (yes: bool)
        ensures
            yes == (self.kind == ErrorKind::Cancelled),
    {
        self.kind == ErrorKind::Cancelled
    }

    /// The message, as text to show.
    pub fn to_string(&self) -> (text: String)
        ensures
            text@ == self.message@,
    {
        self.message.clone()
    }
}

} // verus!
