//! The failures of the application around the server.

use vstd::prelude::*;
use vstd::std_specs::convert::FromSpecImpl;
use vstd::string::{to_string_from_display_ensures, StringExecFns};
use crate::text::has_prefix;

verus! {

/// `askama::Error`, the failure of rendering a template. Nothing is known of what is
/// inside one.
#[verifier::external_type_specification]
#[verifier::external_body]
pub struct ExTemplateError(askama::Error);

/// `sqlx::Error`, the failure of a database operation. Nothing is known of what is
/// inside one.
#[verifier::external_type_specification]
#[verifier::external_body]
pub struct ExDatabaseError(sqlx::Error);

/// `chrono::ParseError`, the failure of reading a date. Nothing is known of what is
/// inside one.
#[verifier::external_type_specification]
#[verifier::external_body]
pub struct ExDateParseError(chrono::ParseError);

/// `reqwest::Error`, the failure of a request to a remote service. Nothing is known of
/// what is inside one.
#[verifier::external_type_specification]
#[verifier::external_body]
pub struct ExRequestError(reqwest::Error);

/// `std::io::Error`, the failure of an input or output operation. Nothing is known of
/// what is inside one.
#[verifier::external_type_specification]
#[verifier::external_body]
pub struct ExIoError(std::io::Error);

/// Whether `text` is what `t` shows of itself when it is written out.
pub open spec fn shows<T: std::fmt::Display>(t: &T, text: Seq<char>) -> bool {
    exists|shown: String| #[trigger] to_string_from_display_ensures::<T>(t, shown) && shown@ == text
}

/// What can go wrong anywhere in the application.
#[derive(Debug)]
pub enum ApplicationError {
    InvalidRequestFormat,
    InvalidHttpMethod(String),
    InvalidRequestLine,
    InvalidFormat,
    InvalidHeaderFormat,
    MissingRequiredHeaders,
    UrlParseError(String),
    TemplateError(String),
    DatabaseError(sqlx::Error),
    MissingDatabaseUrl,
    DateParseError(chrono::ParseError),
    ApiRequestFailed(reqwest::Error),
    ApiResponseParseError(serde_json::Error),
    ApiError(String),
    MissingEnvVar(String),
    InvalidEnvVar(String),
    IoError(std::io::Error),
    OtherError(String),
}

impl ApplicationError {
    /// The words with which the message of the error begins.
    pub open spec fn heading(&self) -> Seq<char> {
        match self {
            ApplicationError::InvalidRequestFormat => "Invalid request format"@,
            ApplicationError::InvalidHttpMethod(_) => "Invalid HTTP method: "@,
            ApplicationError::InvalidRequestLine => "Invalid request line"@,
            ApplicationError::InvalidFormat => "Invalid format"@,
            ApplicationError::InvalidHeaderFormat => "Invalid header format"@,
            ApplicationError::MissingRequiredHeaders => "Missing required headers"@,
            ApplicationError::UrlParseError(_) => "Error parsing URL: "@,
            ApplicationError::TemplateError(_) => "Template rendering error: "@,
            ApplicationError::DatabaseError(_) => "Database error: "@,
            ApplicationError::MissingDatabaseUrl => "Missing database URL"@,
            ApplicationError::DateParseError(_) => "Date parsing error: "@,
            ApplicationError::ApiRequestFailed(_) => "API request failed: "@,
            ApplicationError::ApiResponseParseError(_) => "Failed to parse API response: "@,
            ApplicationError::ApiError(_) => "API error: "@,
            ApplicationError::MissingEnvVar(_) => "Missing environment variable: "@,
            ApplicationError::InvalidEnvVar(_) => "Invalid environment variable: "@,
            ApplicationError::IoError(_) => "IO error: "@,
            ApplicationError::OtherError(_) => ""@,
        }
    }

    /// Whether `detail` is what follows the heading in the message of the error: the
    /// text that the error carries, nothing where it carries none, and for an error that
    /// wraps a failure from elsewhere what that failure shows of itself.
    pub open spec fn is_detail(&self, detail: Seq<char>) -> bool {
        match self {
            ApplicationError::InvalidHttpMethod(m) => detail == m@,
            ApplicationError::UrlParseError(m) => detail == m@,
            ApplicationError::TemplateError(m) => detail == m@,
            ApplicationError::ApiError(m) => detail == m@,
            ApplicationError::MissingEnvVar(m) => detail == m@,
            ApplicationError::InvalidEnvVar(m) => detail == m@,
            ApplicationError::OtherError(m) => detail == m@,
            ApplicationError::DatabaseError(e) => shows(e, detail),
            ApplicationError::DateParseError(e) => shows(e, detail),
            ApplicationError::ApiRequestFailed(e) => shows(e, detail),
            ApplicationError::ApiResponseParseError(e) => shows(e, detail),
            ApplicationError::IoError(e) => shows(e, detail),
            _ => detail == Seq::<char>::empty(),
        }
    }

    /// The words with which the message of the error begins.
    pub fn heading_text(&self) -> (heading: &'static str)
        ensures
            heading@ == self.heading(),
    {
        match self {
            ApplicationError::InvalidRequestFormat => "Invalid request format",
            ApplicationError::InvalidHttpMethod(_) => "Invalid HTTP method: ",
            ApplicationError::InvalidRequestLine => "Invalid request line",
            ApplicationError::InvalidFormat => "Invalid format",
            ApplicationError::InvalidHeaderFormat => "Invalid header format",
            ApplicationError::MissingRequiredHeaders => "Missing required headers",
            ApplicationError::UrlParseError(_) => "Error parsing URL: ",
            ApplicationError::TemplateError(_) => "Template rendering error: ",
            ApplicationError::DatabaseError(_) => "Database error: ",
            ApplicationError::MissingDatabaseUrl => "Missing database URL",
            ApplicationError::DateParseError(_) => "Date parsing error: ",
            ApplicationError::ApiRequestFailed(_) => "API request failed: ",
            ApplicationError::ApiResponseParseError(_) => "Failed to parse API response: ",
            ApplicationError::ApiError(_) => "API error: ",
            ApplicationError::MissingEnvVar(_) => "Missing environment variable: ",
            ApplicationError::InvalidEnvVar(_) => "Invalid environment variable: ",
            ApplicationError::IoError(_) => "IO error: ",
            ApplicationError::OtherError(_) => "",
        }
    }

    /// The sentence that describes the error: its heading, and then its detail.
    pub fn message(&self) -> (text: String)
        ensures
            has_prefix(text@, self.heading()),
            self.is_detail(text@.skip(self.heading().len() as int)),
    {
        let detail = match self {
            ApplicationError::InvalidHttpMethod(m) => m.clone(),
            ApplicationError::UrlParseError(m) => m.clone(),
            ApplicationError::TemplateError(m) => m.clone(),
            ApplicationError::ApiError(m) => m.clone(),
            ApplicationError::MissingEnvVar(m) => m.clone(),
            ApplicationError::InvalidEnvVar(m) => m.clone(),
            ApplicationError::OtherError(m) => m.clone(),
            ApplicationError::DatabaseError(e) => e.to_string(),
            ApplicationError::DateParseError(e) => e.to_string(),
            ApplicationError::ApiRequestFailed(e) => e.to_string(),
            ApplicationError::ApiResponseParseError(e) => e.to_string(),
            ApplicationError::IoError(e) => e.to_string(),
            _ => String::new(),
        };
        let text = String::from_str(self.heading_text()).concat(detail.as_str());
        proof {
            let h = self.heading();
            assert(text@.take(h.len() as int) =~= h);
            assert(text@.skip(h.len() as int) =~= detail@);
        }
        text
    }
}

impl FromSpecImpl<sqlx::Error> for ApplicationError {
    open spec fn obeys_from_spec() -> bool {
        true
    }

    open spec fn from_spec(err: sqlx::Error) -> ApplicationError {
        ApplicationError::DatabaseError(err)
    }
}

impl From<sqlx::Error> for ApplicationError {
    fn from(err: sqlx::Error) -> (e: ApplicationError) {
        ApplicationError::DatabaseError(err)
    }
}

impl FromSpecImpl<chrono::ParseError> for ApplicationError {
    open spec fn obeys_from_spec() -> bool {
        true
    }

    open spec fn from_spec(err: chrono::ParseError) -> ApplicationError {
        ApplicationError::DateParseError(err)
    }
}

impl From<chrono::ParseError> for ApplicationError {
    fn from(err: chrono::ParseError) -> (e: ApplicationError) {
        ApplicationError::DateParseError(err)
    }
}

impl FromSpecImpl<reqwest::Error> for ApplicationError {
    open spec fn obeys_from_spec() -> bool {
        true
    }

    open spec fn from_spec(err: reqwest::Error) -> ApplicationError {
        ApplicationError::ApiRequestFailed(err)
    }
}

impl From<reqwest::Error> for ApplicationError {
    fn from(err: reqwest::Error) -> (e: ApplicationError) {
        ApplicationError::ApiRequestFailed(err)
    }
}

impl FromSpecImpl<serde_json::Error> for ApplicationError {
    open spec fn obeys_from_spec() -> bool {
        true
    }

    open spec fn from_spec(err: serde_json::Error) -> ApplicationError {
        ApplicationError::ApiResponseParseError(err)
    }
}

impl From<serde_json::Error> for ApplicationError {
    fn from(err: serde_json::Error) -> (e: ApplicationError) {
        ApplicationError::ApiResponseParseError(err)
    }
}

impl FromSpecImpl<std::io::Error> for ApplicationError {
    open spec fn obeys_from_spec() -> bool {
        true
    }

    open spec fn from_spec(err: std::io::Error) -> ApplicationError {
        ApplicationError::IoError(err)
    }
}

impl From<std::io::Error> for ApplicationError {
    fn from(err: std::io::Error) -> (e: ApplicationError) {
        ApplicationError::IoError(err)
    }
}

/// The error that a failure of the template engine becomes. The text that it carries is
/// what the failure says of itself, so no spec function gives the error; the contract of
/// `from` says what kind of error it is.
impl FromSpecImpl<askama::Error> for ApplicationError {
    open spec fn obeys_from_spec() -> bool {
        false
    }

    open spec fn from_spec(err: askama::Error) -> ApplicationError {
        ApplicationError::TemplateError(arbitrary())
    }
}

impl From<askama::Error> for ApplicationError {
    /// Makes a template error of a failure of the template engine.
    fn from(err: askama::Error) -> (e: ApplicationError)
        ensures
            e is TemplateError,
            shows(&err, e->TemplateError_0@),
    {
        ApplicationError::TemplateError(err.to_string())
    }
}

/// Wraps anything that can show itself as text into an error of the application.
pub fn to_app_error<E: std::fmt::Display>(err: E) -> (e: ApplicationError)
    ensures
        e is OtherError,
        shows(&err, e->OtherError_0@),
{
    ApplicationError::OtherError(err.to_string())
}

} // verus!
