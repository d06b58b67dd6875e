//! Errors that are reported to the caller as a message.

use vstd::prelude::*;

verus! {

/// An error of the interface to the outside, with the message that
/// describes it.
#[derive(Clone, Debug)]
pub struct Error {
    pub message: String,
}

impl Error {
    pub fn new(message: String) -> (e: Error)
        ensures
            e.message@ == message@,
    {
        Error { message }
    }
}

/// An error of the traffic generator, with the message that describes it.
#[derive(Clone, Debug)]
pub enum P4TGError {
    Error { message: String },
}

impl P4TGError {
    /// The message of the error.
    pub open spec fn text(&self) -> Seq<char> {
        match self {
            P4TGError::Error { message } => message@,
        }
    }

    /// The message of the error.
    pub fn message(&self) -> (m: &String)
        ensures
            m@ == self.text(),
    {
        match self {
            P4TGError::Error { message } => message,
        }
    }
}

} // verus!
