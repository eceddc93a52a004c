//! The error that request handling ends in.

use vstd::prelude::*;

verus! {

/// The status of the response that an error turns into.
pub const INTERNAL_SERVER_ERROR: u16 = 500;

/// A failure while a request was handled. What went wrong is kept for the
/// log; the client is told nothing of it.
#[derive(Debug)]
pub struct Error(pub String);

impl Error {
    /// Wraps the description of a failure.
    pub fn from(message: String) -> (r: Error)
        ensures
            r.0@ == message@,
    {
        Error(message)
    }

    /// The response that the client gets: status 500 and a body that does
    /// not depend on what went wrong.
    pub fn into_response(self) -> (r: (u16, String))
        ensures
            r.0 == INTERNAL_SERVER_ERROR,
            r.1@ == "Something went wrong"@,
    {
        (INTERNAL_SERVER_ERROR, "Something went wrong".to_owned())
    }
}

} // verus!
