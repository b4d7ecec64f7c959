//! The dashboard's error carrier.
//!
//! Every fault the query layer surfaces travels as one message and is
//! answered with an internal-server-error status; the HTTP framing
//! around it lives with the host.

use vstd::prelude::*;

use vstd::string::StringExecFns;

verus! {

/// An error on the query surface: the message that will be reported.
#[derive(Debug)]
pub struct AppError {
    pub message: String,
}

impl AppError {
    /// Wraps a message.
    pub fn new(message: String) -> (err: AppError)
        ensures
            err.message@ == message@,
    {
        AppError { message }
    }

    /// The HTTP status every such error is answered with.
    pub fn status_code(&self) -> (code: u16)
        ensures
            code == 500,
    {
        500
    }

    /// The response body: the fixed preamble followed by the message.
    pub fn response_body(&self) -> (body: String)
        ensures
            body@ == "Something went wrong: "@ + self.message@,
    {
        let preamble = String::from_str("Something went wrong: ");
        preamble.concat(self.message.as_str())
    }
}

} // verus!
