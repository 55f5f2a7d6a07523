//! The error values the core hands back to its caller. All of them are
//! plain data; presentation (color, exit codes) is the caller's business.

use vstd::prelude::*;
use vstd::string::*;

verus! {

/// Why an operation was refused: a malformed or impossible date, a task
/// reference that does not name exactly one task, or invalid field input.
#[derive(Debug, Clone)]
pub enum TaskError {
    InvalidDate(String),
    InvalidId(String),
    InvalidInput(String),
}

impl TaskError {
    /// The error rendered as a line of text, kind first.
    pub fn message(&self) -> (r: String)
        ensures
            self matches TaskError::InvalidDate(m) ==> r@ == "Invalid date: "@ + m@,
            self matches TaskError::InvalidId(m) ==> r@ == "Invalid ID: "@ + m@,
            self matches TaskError::InvalidInput(m) ==> r@ == "Invalid input: "@ + m@,
    {
        match self {
            TaskError::InvalidDate(m) => {
                let mut s = String::from_str("Invalid date: ");
                s.append(m.as_str());
                s
            },
            TaskError::InvalidId(m) => {
                let mut s = String::from_str("Invalid ID: ");
                s.append(m.as_str());
                s
            },
            TaskError::InvalidInput(m) => {
                let mut s = String::from_str("Invalid input: ");
                s.append(m.as_str());
                s
            },
        }
    }
}

} // verus!
