//! The one fatal failure: a directory that cannot be opened.

use vstd::prelude::*;
use vstd::string::StringExecFns;

verus! {

/// A fatal failure: what to tell the user, a remediation hint, and the
/// status to exit with.
pub struct Error {
    pub message: String,
    pub hint: String,
    pub exit_code: i32,
}

impl Error {
    /// Builds an error from its message, remediation hint and exit status.
    pub fn new(message: String, hint: String, exit_code: i32) -> (e: Error)
        ensures
            e.message == message,
            e.hint == hint,
            e.exit_code == exit_code,
    {
        Error { message, hint, exit_code }
    }

    /// The error reported when a directory cannot be opened: a short message,
    /// a remediation hint, and a non-zero exit status.
    pub fn directory_open_failure() -> (e: Error)
        ensures
            e.message@ == ("could not read directory.")@,
            e.hint@ == ("ensure that you have enough permissions to read it.")@,
            e.exit_code == 1,
    {
        Error::new(
            String::from_str("could not read directory."),
            String::from_str("ensure that you have enough permissions to read it."),
            1,
        )
    }
}

} // verus!
