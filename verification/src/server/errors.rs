//! The ways in which reading a request, or answering one, can fail.

use vstd::prelude::*;
use vstd::std_specs::convert::FromSpecImpl;
use vstd::string::StringExecFns;
use crate::utils::error::shows;

verus! {

/// What is wrong with the text of a request.
#[derive(Debug)]
pub enum HttpParseError {
    /// The input has no request line.
    InvalidFormat,
    /// The method token is none of the methods that the server knows; it is carried along.
    InvalidMethod(String),
    /// The request line has no method token or no target token.
    InvalidRequestLine,
    /// A header line has no colon.
    InvalidHeader,
    /// A header that the server needs is missing.
    MissingRequiredHeaders,
    /// The request target cannot be read; the reason is carried along.
    UrlParseError(String),
}

/// [`HttpParseError`] with its texts as character sequences.
pub enum ParseFailure {
    InvalidFormat,
    InvalidMethod(Seq<char>),
    InvalidRequestLine,
    InvalidHeader,
    MissingRequiredHeaders,
    UrlParseError(Seq<char>),
}

impl View for HttpParseError {
    type V = ParseFailure;

    open spec fn view(&self) -> ParseFailure {
        match self {
            HttpParseError::InvalidFormat => ParseFailure::InvalidFormat,
            HttpParseError::InvalidMethod(m) => ParseFailure::InvalidMethod(m@),
            HttpParseError::InvalidRequestLine => ParseFailure::InvalidRequestLine,
            HttpParseError::InvalidHeader => ParseFailure::InvalidHeader,
            HttpParseError::MissingRequiredHeaders => ParseFailure::MissingRequiredHeaders,
            HttpParseError::UrlParseError(r) => ParseFailure::UrlParseError(r@),
        }
    }
}

impl ParseFailure {
    /// The sentence that describes the failure.
    pub open spec fn message(self) -> Seq<char> {
        match self {
            ParseFailure::InvalidFormat => "invalid request format"@,
            ParseFailure::InvalidMethod(m) => "invalid HTTP method: "@ + m,
            ParseFailure::InvalidRequestLine => "invalid request line"@,
            ParseFailure::InvalidHeader => "invalid header format"@,
            ParseFailure::MissingRequiredHeaders => "missing required headers"@,
            ParseFailure::UrlParseError(r) => "error parsing URL: "@ + r,
        }
    }
}

impl HttpParseError {
    /// The sentence that describes the failure.
    pub fn message(&self) -> (text: String)
        ensures
            text@ == self@.message(),
    {
        match self {
            HttpParseError::InvalidFormat => String::from_str("invalid request format"),
            HttpParseError::InvalidMethod(m) => String::from_str("invalid HTTP method: ").concat(
                m.as_str(),
            ),
            HttpParseError::InvalidRequestLine => String::from_str("invalid request line"),
            HttpParseError::InvalidHeader => String::from_str("invalid header format"),
            HttpParseError::MissingRequiredHeaders => String::from_str("missing required headers"),
            HttpParseError::UrlParseError(r) => String::from_str("error parsing URL: ").concat(
                r.as_str(),
            ),
        }
    }
}

/// What can go wrong in the server: the failures of parsing, and the failure of
/// rendering a page.
#[derive(Debug)]
pub enum ServerError {
    /// The input has no request line.
    InvalidFormat,
    /// The method token is none of the methods that the server knows; it is carried along.
    InvalidMethod(String),
    /// The request line has no method token or no target token.
    InvalidRequestLine,
    /// A header line has no colon.
    InvalidHeader,
    /// A header that the server needs is missing.
    MissingRequiredHeaders,
    /// The request target cannot be read; the reason is carried along.
    UrlParseError(String),
    /// A page could not be rendered; what the template engine said is carried along.
    TemplateError(String),
}

impl ServerError {
    /// The sentence that describes the error, as a character sequence.
    pub open spec fn message_text(&self) -> Seq<char> {
        match self {
            ServerError::InvalidFormat => "invalid request format"@,
            ServerError::InvalidMethod(m) => "invalid HTTP method: "@ + m@,
            ServerError::InvalidRequestLine => "invalid request line"@,
            ServerError::InvalidHeader => "invalid header format"@,
            ServerError::MissingRequiredHeaders => "missing required headers"@,
            ServerError::UrlParseError(r) => "error parsing URL: "@ + r@,
            ServerError::TemplateError(t) => "template error: "@ + t@,
        }
    }

    /// The sentence that describes the error.
    pub fn message(&self) -> (text: String)
        ensures
            text@ == self.message_text(),
    {
        match self {
            ServerError::InvalidFormat => String::from_str("invalid request format"),
            ServerError::InvalidMethod(m) => String::from_str("invalid HTTP method: ").concat(
                m.as_str(),
            ),
            ServerError::InvalidRequestLine => String::from_str("invalid request line"),
            ServerError::InvalidHeader => String::from_str("invalid header format"),
            ServerError::MissingRequiredHeaders => String::from_str("missing required headers"),
            ServerError::UrlParseError(r) => String::from_str("error parsing URL: ").concat(
                r.as_str(),
            ),
            ServerError::TemplateError(t) => String::from_str("template error: ").concat(
                t.as_str(),
            ),
        }
    }
}

/// The error that a failure of the template engine becomes. The text that it carries is
/// what the failure says of itself, so no spec function gives the error; the contract of
/// `from` says what kind of error it is.
impl FromSpecImpl<askama::Error> for ServerError {
    open spec fn obeys_from_spec() -> bool {
        false
    }

    open spec fn from_spec(err: askama::Error) -> ServerError {
        ServerError::TemplateError(arbitrary())
    }
}

impl From<askama::Error> for ServerError {
    /// Makes a template error of a failure of the template engine.
    fn from(err: askama::Error) -> (e: ServerError)
        ensures
            e is TemplateError,
            shows(&err, e->TemplateError_0@),
    {
        ServerError::TemplateError(err.to_string())
    }
}

} // verus!
