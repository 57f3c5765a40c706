use std::sync::Arc;

use stock_tracker::routes::detail::{Detail, DetailPlan};
use stock_tracker::routes::root::{accepts_json, html_page, Root, RootPlan};
use stock_tracker::routes::static_files::{FileLookup, StaticFiles};
use stock_tracker::server::methods::HttpMethod;
use stock_tracker::server::request::Request;
use stock_tracker::server::response::Response;
use stock_tracker::server::route::Route;
use stock_tracker::server::router::Router;
use stock_tracker::utils::error::ApplicationError;

fn parse(text: &str) -> Request {
    Request::try_from(text).unwrap()
}

fn render_failure() -> askama::Error {
    askama::Error::Fmt(std::fmt::Error)
}

fn header<'a>(resp: &'a Response, name: &str) -> Option<&'a str> {
    resp.headers().get(name).map(|v| v.as_str())
}

/// The front page with a fixed page in place of the rendered one.
struct RootRoute(Root);

impl Route for RootRoute {
    fn handle(&self, req: Request) -> Result<Response, ApplicationError> {
        match self.0.plan(&req) {
            RootPlan::Json => Ok(self.0.json_answer()),
            RootPlan::Page => self.0.page_answer(Ok("<h1>root</h1>".to_string())),
        }
    }

    fn path_matches(&self, path: &str) -> bool {
        self.0.path_matches(path)
    }

    fn method_matches(&self, method: &HttpMethod) -> bool {
        self.0.method_matches(method)
    }
}

/// The page of a symbol, where only `AAPL` is known.
struct DetailRoute(Detail);

impl Route for DetailRoute {
    fn handle(&self, req: Request) -> Result<Response, ApplicationError> {
        assert!(req.path().starts_with('/'));
        match self.0.plan(&req) {
            DetailPlan::Invalid(message) => self.0.invalid_answer(Ok(message)),
            DetailPlan::Lookup(ticker, true) => Ok(self.0.json_answer(ticker == "AAPL")),
            DetailPlan::Lookup(ticker, false) => {
                if ticker == "AAPL" {
                    self.0.page_answer(true, Ok("<h1>AAPL</h1>".to_string()))
                } else {
                    self.0.page_answer(false, Ok(self.0.unknown_message(&ticker)))
                }
            }
        }
    }

    fn path_matches(&self, path: &str) -> bool {
        self.0.path_matches(path)
    }

    fn method_matches(&self, method: &HttpMethod) -> bool {
        self.0.method_matches(method)
    }
}

fn site(root_first: bool) -> Router<dyn Route> {
    let root: Arc<dyn Route> = Arc::new(RootRoute(Root::new()));
    let detail: Arc<dyn Route> = Arc::new(DetailRoute(Detail::new()));
    if root_first {
        Router::new(vec![root, detail])
    } else {
        Router::new(vec![detail, root])
    }
}

#[test]
fn root_is_served_by_the_root_route_not_the_wildcard() {
    let router = site(true);
    assert_eq!(router.find("/", &HttpMethod::GET), Some(0));
    let resp = router.route(parse("GET / HTTP/1.1\r\n\r\n")).unwrap();
    assert_eq!(resp.status_code(), 200);
    assert_eq!(resp.body_bytes(), b"<h1>root</h1>".to_vec());
    assert_eq!(router.find("/index.html", &HttpMethod::GET), Some(0));
    assert_eq!(router.find("/AAPL", &HttpMethod::GET), Some(1));
    let resp = router.route(parse("GET /AAPL HTTP/1.1\r\n\r\n")).unwrap();
    assert_eq!(resp.body_bytes(), b"<h1>AAPL</h1>".to_vec());
}

#[test]
fn root_and_detail_never_claim_the_same_path() {
    let router = site(false);
    assert_eq!(router.find("/", &HttpMethod::GET), Some(1));
    assert_eq!(router.find("/index.html", &HttpMethod::GET), Some(1));
    assert_eq!(router.find("/AAPL", &HttpMethod::GET), Some(0));
    assert_eq!(router.find("/css/site.css", &HttpMethod::GET), None);
    assert_eq!(router.find("/AAPL", &HttpMethod::POST), None);
}

#[test]
fn root_path_policy() {
    let root = Root::new();
    assert!(root.path_matches("/"));
    assert!(root.path_matches("/index.html"));
    assert!(!root.path_matches(""));
    assert!(!root.path_matches("/index.htm"));
    assert!(!root.path_matches("//"));
    assert!(!root.path_matches("/AAPL"));
    assert!(root.method_matches(&HttpMethod::GET));
    assert!(!root.method_matches(&HttpMethod::POST));
    assert!(!root.method_matches(&HttpMethod::PUT));
    assert!(!root.method_matches(&HttpMethod::DELETE));
}

#[test]
fn detail_path_policy() {
    let detail = Detail::new();
    assert!(detail.path_matches("/AAPL"));
    assert!(detail.path_matches("/a"));
    assert!(detail.path_matches("/\u{e9}t\u{e9}"));
    assert!(detail.path_matches("/index.htm"));
    assert!(!detail.path_matches("/"));
    assert!(!detail.path_matches(""));
    assert!(!detail.path_matches("AAPL"));
    assert!(!detail.path_matches("/index.html"));
    assert!(!detail.path_matches("/a/b"));
    assert!(!detail.path_matches("/a/"));
    assert!(!detail.path_matches("//"));
    assert!(!detail.path_matches("/css/site.css"));
    assert!(!detail.path_matches("/js/app.js"));
    assert!(!detail.path_matches("/images/logo.png"));
    assert!(detail.path_matches("/css"));
    assert!(detail.method_matches(&HttpMethod::GET));
    assert!(!detail.method_matches(&HttpMethod::DELETE));
}

#[test]
fn detail_symbol_extraction() {
    let detail = Detail::new();
    assert_eq!(detail.extract_symbol("/AAPL"), Some("AAPL".to_string()));
    assert_eq!(detail.extract_symbol("/a/b"), Some("a/b".to_string()));
    assert_eq!(detail.extract_symbol("xAAPL"), Some("AAPL".to_string()));
    assert_eq!(detail.extract_symbol("/"), None);
    assert_eq!(detail.extract_symbol(""), None);
    assert_eq!(detail.unknown_message("ZZZ"), "Symbol 'ZZZ' not found");
}

#[test]
fn detail_plans_and_answers() {
    let detail = Detail::new();
    match detail.plan(&parse("GET /MSFT HTTP/1.1\r\nAccept: text/html\r\n\r\n")) {
        DetailPlan::Lookup(ticker, json) => {
            assert_eq!(ticker, "MSFT");
            assert!(!json);
        }
        other => panic!("unexpected plan: {:?}", other),
    }
    match detail.plan(&parse("GET /MSFT HTTP/1.1\r\nAccept: application/json\r\n\r\n")) {
        DetailPlan::Lookup(ticker, json) => {
            assert_eq!(ticker, "MSFT");
            assert!(json);
        }
        other => panic!("unexpected plan: {:?}", other),
    }
    match detail.plan(&parse("GET / HTTP/1.1\r\n\r\n")) {
        DetailPlan::Invalid(message) => assert_eq!(message, "Invalid symbol format"),
        other => panic!("unexpected plan: {:?}", other),
    }
    let resp = detail.json_answer(true);
    assert_eq!((resp.status_code(), resp.status_text().as_str()), (200, "OK"));
    assert!(resp.body_bytes().is_empty());
    let resp = detail.json_answer(false);
    assert_eq!((resp.status_code(), resp.status_text().as_str()), (404, "Symbol Not Found"));
    let resp = detail.page_answer(true, Ok("<p>x</p>".to_string())).unwrap();
    assert_eq!((resp.status_code(), resp.status_text().as_str()), (200, "OK"));
    assert_eq!(header(&resp, "Content-Type"), Some("text/html"));
    let resp = detail.page_answer(false, Ok("<p>y</p>".to_string())).unwrap();
    assert_eq!((resp.status_code(), resp.status_text().as_str()), (404, "Not Found"));
    assert_eq!(resp.body_bytes(), b"<p>y</p>".to_vec());
    let resp = detail.invalid_answer(Ok("<p>bad</p>".to_string())).unwrap();
    assert_eq!((resp.status_code(), resp.status_text().as_str()), (400, "Bad Request"));
    assert!(matches!(
        detail.page_answer(true, Err(render_failure())),
        Err(ApplicationError::TemplateError(_))
    ));
    assert!(matches!(
        detail.invalid_answer(Err(render_failure())),
        Err(ApplicationError::TemplateError(_))
    ));
}

#[test]
fn detail_route_through_the_router() {
    let router = site(true);
    let resp = router.route(parse("GET /ZZZ HTTP/1.1\r\n\r\n")).unwrap();
    assert_eq!(resp.status_code(), 404);
    assert_eq!(resp.body_bytes(), b"Symbol 'ZZZ' not found".to_vec());
    let resp = router.route(parse("GET /ZZZ HTTP/1.1\r\naccept: application/json\r\n\r\n")).unwrap();
    assert_eq!(resp.status_text(), "Symbol Not Found");
    let resp = router.route(parse("GET /AAPL?full=1 HTTP/1.1\r\nACCEPT: */*, application/json\r\n\r\n")).unwrap();
    assert_eq!(resp.status_code(), 200);
    assert!(resp.body_bytes().is_empty());
}

#[test]
fn root_plans_and_answers() {
    let root = Root::new();
    assert_eq!(root.plan(&parse("GET / HTTP/1.1\r\n\r\n")), RootPlan::Page);
    assert_eq!(root.plan(&parse("GET / HTTP/1.1\r\nAccept: text/html\r\n\r\n")), RootPlan::Page);
    assert_eq!(
        root.plan(&parse("GET / HTTP/1.1\r\nAccept: text/html, application/json;q=0.9\r\n\r\n")),
        RootPlan::Json
    );
    assert!(!accepts_json(&parse("GET / HTTP/1.1\r\nAccept: application/jso\r\n\r\n")));
    assert!(!accepts_json(&parse("GET / HTTP/1.1\r\nContent-Type: application/json\r\n\r\n")));
    let resp = root.json_answer();
    assert_eq!(resp.to_bytes(), b"HTTP/1.1 200 OK\r\nContent-Length: 0\r\n\r\n".to_vec());
    let resp = root.page_answer(Ok("<html></html>".to_string())).unwrap();
    assert_eq!(
        resp.to_bytes(),
        b"HTTP/1.1 200 OK\r\nContent-Type: text/html\r\nContent-Length: 13\r\n\r\n<html></html>".to_vec()
    );
    match root.page_answer(Err(render_failure())) {
        Err(ApplicationError::TemplateError(text)) => assert_eq!(text, render_failure().to_string()),
        other => panic!("unexpected result: {:?}", other.map(|r| r.status_code())),
    }
    let resp = html_page(418, "I'm a teapot", Ok("tea".to_string())).unwrap();
    assert_eq!(resp.status_code(), 418);
    assert_eq!(resp.status_text(), "I'm a teapot");
}

#[test]
fn static_path_policy() {
    let files = StaticFiles::new("public".to_string());
    assert_eq!(files.base_path(), "public");
    assert!(files.path_matches("/css/site.css"));
    assert!(files.path_matches("/js/"));
    assert!(files.path_matches("/images/a/b.png"));
    assert!(!files.path_matches("/css"));
    assert!(!files.path_matches("css/site.css"));
    assert!(!files.path_matches("/CSS/site.css"));
    assert!(!files.path_matches("/"));
    assert!(!files.path_matches(""));
    assert!(files.method_matches(&HttpMethod::GET));
    assert!(!files.method_matches(&HttpMethod::POST));
}

#[test]
fn static_content_types() {
    let files = StaticFiles::new("public".to_string());
    assert_eq!(files.get_content_type("css/site.css"), "text/css");
    assert_eq!(files.get_content_type("js/app.js"), "application/javascript");
    assert_eq!(files.get_content_type("images/logo.png"), "image/png");
    assert_eq!(files.get_content_type("a.jpg"), "image/jpeg");
    assert_eq!(files.get_content_type("a.jpeg"), "image/jpeg");
    assert_eq!(files.get_content_type("a.svg"), "image/svg+xml");
    assert_eq!(files.get_content_type("a.txt"), "application/octet-stream");
    assert_eq!(files.get_content_type("a.CSS"), "application/octet-stream");
    assert_eq!(files.get_content_type("css"), "application/octet-stream");
    assert_eq!(files.get_content_type(".js"), "application/javascript");
    assert_eq!(files.get_content_type(""), "application/octet-stream");
}

#[test]
fn static_file_names_and_answers() {
    let files = StaticFiles::new("public".to_string());
    assert_eq!(files.file_name("/css/site.css"), "css/site.css");
    assert_eq!(files.file_name("///js/app.js"), "js/app.js");
    assert_eq!(files.file_name("images/x.png"), "images/x.png");
    assert_eq!(files.file_name("/"), "");
    let resp = files.respond("/css/site.css", FileLookup::Missing);
    assert_eq!(resp.to_bytes(), b"HTTP/1.1 404 Not Found\r\nContent-Length: 0\r\n\r\n".to_vec());
    let resp = files.respond("/css/site.css", FileLookup::Unreadable);
    assert_eq!(
        resp.to_bytes(),
        b"HTTP/1.1 500 Internal Server Error\r\nContent-Length: 0\r\n\r\n".to_vec()
    );
    let resp = files.respond("/css/site.css", FileLookup::Content(b"body{}".to_vec()));
    assert_eq!(
        resp.to_bytes(),
        b"HTTP/1.1 200 OK\r\nContent-Type: text/css\r\nContent-Length: 6\r\n\r\nbody{}".to_vec()
    );
    let resp = files.respond("/images/p.jpeg", FileLookup::Content(vec![0xff, 0xd8]));
    assert_eq!(resp.headers().get("Content-Type").map(|v| v.as_str()), Some("image/jpeg"));
}
