//! The error type shared by the command-line verbs and the sync passes: an
//! optional message and a process exit code.
use vstd::prelude::*;

verus! {

/// Result of a verb or a sync pass.
pub type FreightResult = Result<(), FreighterError>;

/// An error with an exit code; the message is absent when only the code is
/// known (a child process's exit status, an HTTP status).
#[derive(Debug)]
pub struct FreighterError {
    pub message: Option<String>,
    pub code: i32,
}

impl FreighterError {
    /// An error carrying a message and a code.
    pub fn new(message: String, code: i32) -> (r: FreighterError)
        ensures
            r.message == Some(message),
            r.code == code,
    {
        FreighterError { message: Some(message), code }
    }

    /// The error for a verb this tool does not know, exit code 1.
    pub fn unknown_command(cmd: String) -> (r: FreighterError)
        ensures
            r.code == 1,
            r.message matches Some(m) && m@ == "Unknown command: "@ + cmd@,
    {
        let mut m = String::from_str("Unknown command: ");
        m.append(cmd.as_str());
        FreighterError { message: Some(m), code: 1 }
    }

    /// An error known only by its exit code.
    pub fn code(code: i32) -> (r: FreighterError)
        ensures
            r.message is None,
            r.code == code,
    {
        FreighterError { message: None, code }
    }

    /// The message to report; empty when none was recorded.
    pub fn print(&self) -> (r: String)
        ensures
            self.message matches Some(m) ==> r@ == m@,
            self.message is None ==> r@ == Seq::<char>::empty(),
    {
        match &self.message {
            Some(m) => m.clone(),
            None => String::new(),
        }
    }
}

} // verus!
