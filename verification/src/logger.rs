//! Diagnostic lines. The library writes nothing itself: it says what a line
//! looks like, and whoever owns the output streams prints it.

use vstd::prelude::*;
use vstd::string::StringExecFns;

verus! {

/// The diagnostic channel of the library.
pub struct Logger;

impl Logger {
    /// The line that reports `message` as information.
    pub fn info_line(message: &str) -> (line: String)
        ensures
            line@ == "[INFO] "@ + message@,
    {
        let mut line = String::from_str("[INFO] ");
        line.append(message);
        line
    }

    /// The line that reports `message` as an error: the message itself.
    pub fn error_line(message: &str) -> (line: String)
        ensures
            line@ == message@,
    {
        String::from_str(message)
    }

    /// Reports `message` as information. The library has no output stream,
    /// so nothing is written.
    pub fn info(message: &str) {
    }

    /// Reports `message` as an error. The library has no output stream, so
    /// nothing is written.
    pub fn error(message: &str) {
    }
}

} // verus!
