//! Error taxonomy shared by every fallible operation of the crate.

use vstd::prelude::*;

verus! {

/// The kinds of failure that the crate reports.
#[derive(Clone, Copy, Debug, PartialEq, Eq, Structural)]
pub enum Code {
    /// A configuration or subscription file is missing.
    NotFound,
    /// Unparseable JSON or configuration, or a malformed address.
    InvalidArgument,
    /// A transport could not be set up, or reading a file failed.
    Internal,
    /// The forwarding rule asked for is already active.
    AlreadyExists,
    /// A send failed for now; it may succeed when tried again.
    Unavailable,
}

/// A failure: its kind and a message for the operator.
#[derive(Debug)]
pub struct Status {
    pub code: Code,
    pub message: String,
}

impl Clone for Status {
    fn clone(&self) -> (r: Self)
        ensures
            r == *self,
    {
        Status { code: self.code, message: self.message.clone() }
    }
}

impl Status {
    pub fn fail_with_code(code: Code, message: String) -> (r: Status)
        ensures
            r.code == code,
            r.message == message,
    {
        Status { code, message }
    }

    /// A status whose message is `what`, followed by `subject`, a colon, a
    /// space and `detail`.
    pub fn describe(code: Code, what: &str, subject: &str, detail: &str) -> (r: Status)
        ensures
            r.code == code,
            r.message@ == what@ + subject@ + ": "@ + detail@,
    {
        let mut message = what.to_owned();
        message.append(subject);
        message.append(": ");
        message.append(detail);
        Status { code, message }
    }

    pub fn get_code(&self) -> (r: Code)
        ensures
            r == self.code,
    {
        self.code
    }

    pub fn get_message(&self) -> (r: String)
        ensures
            r == self.message,
    {
        self.message.clone()
    }
}

} // verus!
