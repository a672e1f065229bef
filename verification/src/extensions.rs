//! Extension values carried beside a request or response: the document
//! root of a request and the exception note of a response. The host
//! stores them in its per-message side channels; this core only defines
//! the values themselves.

use vstd::prelude::*;
use vstd::string::StringExecFns;

verus! {

/// Document root for a request
#[derive(Debug, Clone)]
pub struct DocumentRoot {
    /// The document root path
    pub path: String,
}

impl DocumentRoot {
    /// Create a new DocumentRoot with the given path
    pub fn new(path: &str) -> (r: Self)
        ensures
            r.path@ == path@,
    {
        DocumentRoot { path: String::from_str(path) }
    }
}

/// Response exception information
#[derive(Debug, Clone)]
pub struct ResponseException(pub String);

impl ResponseException {
    /// Create a new exception
    pub fn new(message: &str) -> (r: Self)
        ensures
            r.0@ == message@,
    {
        ResponseException(String::from_str(message))
    }

    /// Get the exception message
    pub fn message(&self) -> (r: &str)
        ensures
            r@ == self.0@,
    {
        self.0.as_str()
    }
}

impl From<String> for ResponseException {
    fn from(s: String) -> (r: Self) {
        ResponseException(s)
    }
}

impl vstd::std_specs::convert::FromSpecImpl<String> for ResponseException {
    open spec fn obeys_from_spec() -> bool {
        true
    }

    open spec fn from_spec(s: String) -> Self {
        ResponseException(s)
    }
}

impl<'a> From<&'a str> for ResponseException {
    fn from(s: &'a str) -> (r: Self)
        ensures
            r.0@ == s@,
    {
        ResponseException(String::from_str(s))
    }
}

impl<'a> vstd::std_specs::convert::FromSpecImpl<&'a str> for ResponseException {
    open spec fn obeys_from_spec() -> bool {
        false
    }

    open spec fn from_spec(s: &'a str) -> Self {
        choose|r: ResponseException| r.0@ == s@
    }
}

} // verus!
