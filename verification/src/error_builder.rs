use vstd::prelude::*;

verus! {

/// An error a service reports: a short code, an HTTP-like status, and a
/// message for people.  Built starting from `Error::default()` or
/// `Error::new(code)` and refined with the `status` and `message` builders.
#[derive(Debug)]
pub struct Error {
    code: String,
    status: u16,
    message: String,
}

impl Error {
    /// The error's short code.
    pub closed spec fn spec_code(self) -> Seq<char> {
        self.code@
    }

    /// The error's status number.
    pub closed spec fn spec_status(self) -> u16 {
        self.status
    }

    /// The error's message.
    pub closed spec fn spec_message(self) -> Seq<char> {
        self.message@
    }

    pub fn new(code: String) -> (e: Error)
        ensures
            e.spec_code() == code@,
            e.spec_status() == 500,
            e.spec_message() == "Unknown error has happened."@,
    {
        let base = Error::default();
        Error { code, ..base }
    }

    /// The same error with status `s`.
    pub fn status(self, s: u16) -> (e: Error)
        ensures
            e.spec_code() == self.spec_code(),
            e.spec_status() == s,
            e.spec_message() == self.spec_message(),
    {
        Error { status: s, ..self }
    }

    /// The same error with message `m`.
    pub fn message(self, m: String) -> (e: Error)
        ensures
            e.spec_code() == self.spec_code(),
            e.spec_status() == self.spec_status(),
            e.spec_message() == m@,
    {
        Error { message: m, ..self }
    }
}

impl Default for Error {
    /// The unknown error: code `UNKNOWN`, status 500.
    fn default() -> (e: Error)
        ensures
            e.spec_code() == "UNKNOWN"@,
            e.spec_status() == 500,
            e.spec_message() == "Unknown error has happened."@,
    {
        Error {
            code: "UNKNOWN".to_owned(),
            status: 500,
            message: "Unknown error has happened.".to_owned(),
        }
    }
}

} // verus!
