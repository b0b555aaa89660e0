//! The error kinds a job can fail with, and the messages an observer sees.

use vstd::prelude::*;

verus! {

/// A failure of the running job: a transport failure or bad HTTP status,
/// a local file failure, or anything else (markup or manifest parsing,
/// template errors, a failed mux run).
#[derive(Debug)]
pub enum Error {
    NetworkError(String),
    FileError(String),
    UnexpectedError(String),
}

/// The message an observer sees for an error, with the same framing for
/// network and file failures and the bare cause for everything else.
pub open spec fn spec_message(e: &Error) -> Seq<char> {
    match e {
        Error::NetworkError(m) => "network error: "@ + m@,
        Error::FileError(m) => "error writing to file: "@ + m@,
        Error::UnexpectedError(m) => m@,
    }
}

impl Error {
    /// Renders the error for display.
    pub fn message(&self) -> (r: String)
        ensures
            r@ == spec_message(self),
    {
        match self {
            Error::NetworkError(m) => {
                let mut s = String::from_str("network error: ");
                s.append(m.as_str());
                s
            },
            Error::FileError(m) => {
                let mut s = String::from_str("error writing to file: ");
                s.append(m.as_str());
                s
            },
            Error::UnexpectedError(m) => m.clone(),
        }
    }
}

} // verus!
