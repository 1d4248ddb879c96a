//! Failures of the server front end itself.

use vstd::prelude::*;

verus! {

/// A server-side failure that is not an engine or protocol error.
#[derive(Debug, Clone, Copy, PartialEq, Eq)]
pub enum ServerError {
    ParsingFailed,
}

impl ServerError {
    /// The diagnostic text of this error.
    pub fn message(&self) -> (r: &'static str)
        ensures
            r@ == "Parsing has failed!"@,
    {
        "Parsing has failed!"
    }
}

} // verus!
