//! The request methods that the server knows.

use vstd::prelude::*;
use crate::server::errors::{HttpParseError, ParseFailure};
use crate::text::same_text;

verus! {

/// A request method.
#[derive(Debug, Clone, Copy, PartialEq, Eq, Structural)]
pub enum HttpMethod {
    GET,
    POST,
    PUT,
    DELETE,
}

impl HttpMethod {
    /// The token that stands for the method in a request line.
    pub open spec fn token(self) -> Seq<char> {
        match self {
            HttpMethod::GET => "GET"@,
            HttpMethod::POST => "POST"@,
            HttpMethod::PUT => "PUT"@,
            HttpMethod::DELETE => "DELETE"@,
        }
    }

    /// The token that stands for the method in a request line.
    pub fn as_str(&self) -> (token: &'static str)
        ensures
            token@ == self.token(),
    {
        match self {
            HttpMethod::GET => "GET",
            HttpMethod::POST => "POST",
            HttpMethod::PUT => "PUT",
            HttpMethod::DELETE => "DELETE",
        }
    }
}

/// The method that `token` stands for, if it is the upper-case name of one.
pub open spec fn method_of(token: Seq<char>) -> Option<HttpMethod> {
    if token == "GET"@ {
        Some(HttpMethod::GET)
    } else if token == "POST"@ {
        Some(HttpMethod::POST)
    } else if token == "PUT"@ {
        Some(HttpMethod::PUT)
    } else if token == "DELETE"@ {
        Some(HttpMethod::DELETE)
    } else {
        None
    }
}

impl HttpMethod {
    /// Reads a method token. Any token but the four upper-case names is refused and
    /// handed back in the error.
    pub fn try_from(method_str: &str) -> (r: Result<HttpMethod, HttpParseError>)
        ensures
            match method_of(method_str@) {
                Some(m) => r == Ok::<HttpMethod, HttpParseError>(m),
                None => r is Err && r->Err_0@ == ParseFailure::InvalidMethod(method_str@),
            },
    {
        if same_text(method_str, "GET") {
            Ok(HttpMethod::GET)
        } else if same_text(method_str, "POST") {
            Ok(HttpMethod::POST)
        } else if same_text(method_str, "PUT") {
            Ok(HttpMethod::PUT)
        } else if same_text(method_str, "DELETE") {
            Ok(HttpMethod::DELETE)
        } else {
            Err(HttpParseError::InvalidMethod(method_str.to_owned()))
        }
    }
}

} // verus!
