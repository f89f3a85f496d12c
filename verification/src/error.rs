//! The failure that a stage or a handler reports.

use crate::response::Response;
use vstd::prelude::*;

verus! {

/// What went wrong, and what to do about it.
///
/// `error` says what went wrong: the text of the cause, which a stage may layer
/// by putting its own words around it. `response` is what the client gets if
/// nothing recovers from the failure.
#[derive(Debug)]
pub struct FerrumError {
    /// The cause, as the text it is reported with.
    pub error: String,
    /// The response to fall back on, if the failing stage gave one.
    pub response: Option<Response>,
}

/// What a stage or a handler gives back: a value, or a failure.
pub type FerrumResult<T> = Result<T, FerrumError>;

impl FerrumError {
    /// A failure with its cause and, if there is one, the response to fall back
    /// on.
    pub fn new(error: String, response: Option<Response>) -> (failure: FerrumError)
        ensures
            failure.error == error,
            failure.response == response,
    {
        FerrumError { error, response }
    }

    /// The text of the cause.
    pub fn description(&self) -> (text: &str)
        ensures
            text@ == self.error@,
    {
        self.error.as_str()
    }
}

} // verus!
