//! The uniform response envelope every node-agent endpoint returns:
//! `{is_success, data, error}`. Failure travels in the envelope, not in the
//! transport status, so callers must inspect the envelope to learn the
//! outcome.

use vstd::prelude::*;

verus! {

/// The uniform success/failure envelope of one agent response.
#[derive(Debug, PartialEq, Eq)]
pub struct IgniterApiResult<T> {
    pub is_success: bool,
    pub data: Option<T>,
    pub error: Option<String>,
}

impl<T> IgniterApiResult<T> {
    /// Every constructed envelope satisfies this: success carries no error,
    /// failure carries no data and always a message.
    pub open spec fn well_formed(self) -> bool {
        (self.is_success ==> self.error is None) && (!self.is_success ==> self.data is None
            && self.error is Some)
    }

    /// A failure envelope with the given message.
    pub fn failure(error: String) -> (r: IgniterApiResult<T>)
        ensures
            r.is_success == false,
            r.data is None,
            r.error == Some(error),
            r.well_formed(),
    {
        IgniterApiResult { data: None::<T>, error: Some(error), is_success: false }
    }

    /// A success envelope around the (possibly absent) payload.
    pub fn succeed(data: Option<T>) -> (r: IgniterApiResult<T>)
        ensures
            r.is_success == true,
            r.data == data,
            r.error is None,
            r.well_formed(),
    {
        IgniterApiResult { data, error: None, is_success: true }
    }

    /// Wraps a command's outcome in the envelope, as every agent endpoint
    /// does: a result becomes a success envelope, a failure message a
    /// failure envelope — the transport status stays the success code
    /// either way.
    pub fn respond(outcome: Result<T, String>) -> (r: IgniterApiResult<T>)
        ensures
            (match outcome {
                Ok(v) => r.is_success && r.data == Some(v) && r.error is None,
                Err(e) => !r.is_success && r.data is None && r.error == Some(e),
            }),
            r.well_formed(),
    {
        match outcome {
            Ok(v) => Self::succeed(Some(v)),
            Err(e) => Self::failure(e),
        }
    }
}

} // verus!
