//! The route of the front page.

use vstd::prelude::*;
use crate::server::grammar::RequestView;
use crate::server::methods::HttpMethod;
use crate::server::request::Request;
use crate::server::response::{BodyView, Response, ResponseView};
use crate::text::{chars_of, contains, has_infix, same_text};
use crate::utils::error::{shows, ApplicationError};

verus! {

/// Whether `path` is the path of the front page.
pub open spec fn is_root_path(path: Seq<char>) -> bool {
    path == "/"@ || path == "/index.html"@
}

/// Whether the client asks for JSON: its `accept` header names `application/json`.
pub open spec fn wants_json(req: RequestView) -> bool {
    req.headers.contains_key("accept"@) && has_infix(req.headers["accept"@], "application/json"@)
}

/// Decides [`wants_json`].
pub fn accepts_json(req: &Request) -> (b: bool)
    ensures
        b == wants_json(req@),
{
    match req.headers().get("accept") {
        Some(accept) => contains(
            chars_of(accept.as_str()).as_slice(),
            chars_of("application/json").as_slice(),
        ),
        None => false,
    }
}

/// A response with the status `code` and `text` and no body.
pub open spec fn bare_response(code: u16, text: Seq<char>) -> ResponseView {
    ResponseView {
        status_code: code,
        status_text: text,
        headers: Seq::empty(),
        body: BodyView::Raw(Seq::empty()),
    }
}

/// A response with the status `code` and `text` that carries a page.
pub open spec fn page_response(code: u16, text: Seq<char>, html: Seq<char>) -> ResponseView {
    ResponseView {
        status_code: code,
        status_text: text,
        headers: seq![("Content-Type"@, "text/html"@)],
        body: BodyView::Text(html),
    }
}

/// Whether `error` is the template error that the failure `failure` of the template
/// engine becomes: it carries what the failure shows of itself.
pub open spec fn is_template_error(failure: askama::Error, error: ApplicationError) -> bool {
    error is TemplateError && shows(&failure, error->TemplateError_0@)
}

/// The response that carries a rendered page with the status `code` and `text`. Where
/// rendering failed, there is no response: the failure is handed on as a template error.
pub fn html_page(code: u16, text: &str, rendered: Result<String, askama::Error>) -> (result: Result<
    Response,
    ApplicationError,
>)
    ensures
        match rendered {
            Ok(html) => result is Ok && result->Ok_0@ == page_response(code, text@, html@),
            Err(failure) => result is Err && is_template_error(failure, result->Err_0),
        },
{
    match rendered {
        Ok(html) => {
            let resp = Response::new(code, text).with_html_body(html.as_str());
            assert(resp@.headers =~= seq![("Content-Type"@, "text/html"@)]);
            Ok(resp)
        },
        Err(e) => Err(ApplicationError::from(e)),
    }
}

/// What the front page needs before it can answer.
#[derive(Debug, PartialEq, Eq)]
pub enum RootPlan {
    /// The client asks for JSON: the answer is ready.
    Json,
    /// The client asks for the page: it has to be rendered.
    Page,
}

/// The route of the front page: `GET /` and `GET /index.html`.
#[derive(Debug)]
pub struct Root {}

impl Root {
    /// The route.
    pub fn new() -> Root {
        Root {  }
    }

    /// Whether the route claims `path`.
    pub fn path_matches(&self, path: &str) -> (b: bool)
        ensures
            b == is_root_path(path@),
    {
        same_text(path, "/") || same_text(path, "/index.html")
    }

    /// Whether the route claims `method`: it answers `GET` only.
    pub fn method_matches(&self, method: &HttpMethod) -> (b: bool)
        ensures
            b == (*method == HttpMethod::GET),
    {
        *method == HttpMethod::GET
    }

    /// What is to be done for a request, once the symbols have been fetched.
    pub fn plan(&self, req: &Request) -> (plan: RootPlan)
        ensures
            plan == (if wants_json(req@) {
                RootPlan::Json
            } else {
                RootPlan::Page
            }),
    {
        if accepts_json(req) {
            RootPlan::Json
        } else {
            RootPlan::Page
        }
    }

    /// The answer to a client that asks for JSON: 200 with no body.
    pub fn json_answer(&self) -> (resp: Response)
        ensures
            resp@ == bare_response(200, "OK"@),
    {
        Response::new(200, "OK")
    }

    /// The answer to a client that asks for the page: 200 with the rendered page, or the
    /// failure of the rendering.
    pub fn page_answer(&self, rendered: Result<String, askama::Error>) -> (result: Result<
        Response,
        ApplicationError,
    >)
        ensures
            match rendered {
                Ok(html) => result is Ok && result->Ok_0@ == page_response(200, "OK"@, html@),
                Err(failure) => result is Err && is_template_error(failure, result->Err_0),
            },
    {
        html_page(200, "OK", rendered)
    }
}

} // verus!
