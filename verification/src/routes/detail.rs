//! The route of the page of one symbol.

use vstd::prelude::*;
use vstd::slice::slice_subrange;
use vstd::string::StringExecFns;
use crate::routes::root::{
    accepts_json, bare_response, html_page, is_root_path, is_template_error, page_response,
    wants_json,
};
use crate::routes::static_files::is_static_path;
use crate::server::methods::HttpMethod;
use crate::server::request::Request;
use crate::server::response::Response;
use crate::text::{chars_of, find, find_char, lemma_find_char, same_text, string_of};
use crate::utils::error::ApplicationError;

verus! {

/// Whether `path` is the path of a symbol: a slash and one segment after it, and not
/// the path of the index page.
pub open spec fn is_detail_path(path: Seq<char>) -> bool {
    &&& path.len() > 1
    &&& path[0] == '/'
    &&& find_char(path.skip(1), '/') == path.len() - 1
    &&& path != "/index.html"@
}

/// The symbol that `path` names: what follows its first character, if anything does.
pub open spec fn symbol_of(path: Seq<char>) -> Option<Seq<char>> {
    if path.len() > 1 {
        Some(path.skip(1))
    } else {
        None
    }
}

/// The sentence that says that `ticker` is unknown.
pub open spec fn unknown_symbol_message(ticker: Seq<char>) -> Seq<char> {
    "Symbol '"@ + ticker + "' not found"@
}

/// A path of a symbol is neither the path of the front page nor the path of a static
/// file, so the three routes never claim the same path.
pub proof fn lemma_detail_is_apart(path: Seq<char>)
    requires
        is_detail_path(path),
    ensures
        !is_root_path(path),
        !is_static_path(path),
{
    reveal_strlit("/");
    reveal_strlit("/css/");
    reveal_strlit("/js/");
    reveal_strlit("/images/");
    let rest = path.skip(1);
    lemma_find_char(rest, '/');
    assert(path != "/"@);
    assert forall|j: int| 1 <= j < path.len() implies path[j] != '/' by {
        assert(rest[j - 1] == path[j]);
    }
    if path.len() >= 5 {
        assert(path.take(5)[4] == path[4]);
    }
    if path.len() >= 4 {
        assert(path.take(4)[3] == path[3]);
    }
    if path.len() >= 8 {
        assert(path.take(8)[7] == path[7]);
    }
}

/// What the page of a symbol needs before it can answer.
#[derive(Debug)]
pub enum DetailPlan {
    /// The path names no symbol: the error page with this message is to be rendered.
    Invalid(String),
    /// The symbol with this ticker is to be looked up; the flag says whether the client
    /// asks for JSON.
    Lookup(String, bool),
}

/// The route of the page of one symbol: `GET` of a slash and one segment.
#[derive(Debug)]
pub struct Detail {}

impl Detail {
    /// The route.
    pub fn new() -> Detail {
        Detail {  }
    }

    /// The symbol that `path` names. The first character, where there is one, has to be
    /// of one byte, as the slash of a path is.
    pub fn extract_symbol(&self, path: &str) -> (symbol: Option<String>)
        requires
            path@.len() > 0 ==> (path@[0] as u32) < 128,
        ensures
            match symbol_of(path@) {
                Some(ticker) => symbol is Some && symbol->Some_0@ == ticker,
                None => symbol is None,
            },
    {
        let chars = chars_of(path);
        let p = chars.as_slice();
        if p.len() > 1 {
            let rest = slice_subrange(p, 1, p.len());
            assert(rest@ =~= p@.skip(1));
            Some(string_of(rest))
        } else {
            None
        }
    }

    /// Whether the route claims `path`.
    pub fn path_matches(&self, path: &str) -> (b: bool)
        ensures
            b == is_detail_path(path@),
    {
        let chars = chars_of(path);
        let p = chars.as_slice();
        if p.len() <= 1 || p[0] != '/' {
            return false;
        }
        let rest = slice_subrange(p, 1, p.len());
        assert(rest@ =~= p@.skip(1));
        find(rest, '/') == rest.len() && !same_text(path, "/index.html")
    }

    /// Whether the route claims `method`: it answers `GET` only.
    pub fn method_matches(&self, method: &HttpMethod) -> (b: bool)
        ensures
            b == (*method == HttpMethod::GET),
    {
        *method == HttpMethod::GET
    }

    /// What is to be done for a request whose path begins with a slash.
    pub fn plan(&self, req: &Request) -> (plan: DetailPlan)
        requires
            req@.path.len() > 0 ==> (req@.path[0] as u32) < 128,
        ensures
            match symbol_of(req@.path) {
                Some(ticker) => plan matches DetailPlan::Lookup(t, json) && t@ == ticker && json
                    == wants_json(req@),
                None => plan matches DetailPlan::Invalid(message) && message@
                    == "Invalid symbol format"@,
            },
    {
        match self.extract_symbol(req.path().as_str()) {
            Some(ticker) => DetailPlan::Lookup(ticker, accepts_json(req)),
            None => DetailPlan::Invalid(String::from_str("Invalid symbol format")),
        }
    }

    /// The answer to a path that names no symbol: 400 with the rendered error page.
    pub fn invalid_answer(&self, rendered: Result<String, askama::Error>) -> (result: Result<
        Response,
        ApplicationError,
    >)
        ensures
            match rendered {
                Ok(html) => result is Ok && result->Ok_0@ == page_response(
                    400,
                    "Bad Request"@,
                    html@,
                ),
                Err(failure) => result is Err && is_template_error(failure, result->Err_0),
            },
    {
        html_page(400, "Bad Request", rendered)
    }

    /// The answer to a client that asks for JSON: 200 where the symbol is known, 404
    /// where it is not, with no body.
    pub fn json_answer(&self, found: bool) -> (resp: Response)
        ensures
            resp@ == (if found {
                bare_response(200, "OK"@)
            } else {
                bare_response(404, "Symbol Not Found"@)
            }),
    {
        if found {
            Response::new(200, "OK")
        } else {
            Response::new(404, "Symbol Not Found")
        }
    }

    /// The message of the error page for a symbol that is not known.
    pub fn unknown_message(&self, ticker: &str) -> (message: String)
        ensures
            message@ == unknown_symbol_message(ticker@),
    {
        String::from_str("Symbol '").concat(ticker).concat("' not found")
    }

    /// The answer to a client that asks for the page: 200 with the rendered page of a
    /// known symbol, 404 with the rendered error page of an unknown one, or the failure
    /// of the rendering.
    pub fn page_answer(&self, found: bool, rendered: Result<String, askama::Error>) -> (result:
        Result<Response, ApplicationError>)
        ensures
            match rendered {
                Ok(html) => result is Ok && result->Ok_0@ == (if found {
                    page_response(200, "OK"@, html@)
                } else {
                    page_response(404, "Not Found"@, html@)
                }),
                Err(failure) => result is Err && is_template_error(failure, result->Err_0),
            },
    {
        if found {
            html_page(200, "OK", rendered)
        } else {
            html_page(404, "Not Found", rendered)
        }
    }
}

} // verus!
