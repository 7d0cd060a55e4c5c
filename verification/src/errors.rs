//! The request-terminal error taxonomy: client errors, internal errors,
//! the per-file size violation, and the uniform not-found answer.

use vstd::prelude::*;
use vstd::string::StringExecFns;

verus! {

/// Every way a request can fail, each carried to the client as a status
/// code and a message.
#[derive(Debug)]
pub enum YamafError {
    /// A malformed or unauthorised request; answered with status 400.
    BadRequest(String),
    /// A server-side failure; answered with status 500.
    InternalError(String),
    /// One uploaded file passed the per-file ceiling; carries the stored
    /// name it was assigned; answered with status 413.
    FileTooBig(String),
    /// The requested stored file does not resolve; answered with status 404.
    FileNotFound,
}

impl YamafError {
    /// The HTTP status code this error is answered with.
    pub fn status_code(&self) -> (s: u16)
        ensures
            self is BadRequest ==> s == 400,
            self is InternalError ==> s == 500,
            self is FileTooBig ==> s == 413,
            self is FileNotFound ==> s == 404,
    {
        match self {
            YamafError::BadRequest(_) => 400,
            YamafError::InternalError(_) => 500,
            YamafError::FileTooBig(_) => 413,
            YamafError::FileNotFound => 404,
        }
    }

    /// The human-readable body this error is answered with.
    pub fn message(self) -> (m: String)
        ensures
            self is BadRequest ==> m@ == self->BadRequest_0@,
            self is InternalError ==> m@ == self->InternalError_0@,
            self is FileTooBig ==> m@ == "File "@ + self->FileTooBig_0@ + " is too big!"@,
            self is FileNotFound ==> m@ == "File Not Found!"@,
    {
        match self {
            YamafError::BadRequest(msg) => msg,
            YamafError::InternalError(msg) => msg,
            YamafError::FileTooBig(filename) => {
                let r = String::from_str("File ").concat(filename.as_str()).concat(
                    " is too big!",
                );
                r
            },
            YamafError::FileNotFound => String::from_str("File Not Found!"),
        }
    }
}

} // verus!
