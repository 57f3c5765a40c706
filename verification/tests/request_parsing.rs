use stock_tracker::server::errors::HttpParseError;
use stock_tracker::server::methods::HttpMethod;
use stock_tracker::server::request::{parse_header, parse_url, Request};

fn value<'a>(map: &'a stock_tracker::server::string_map::StringMap, key: &str) -> Option<&'a str> {
    map.get(key).map(|v| v.as_str())
}

#[test]
fn parses_get_with_query_and_header() {
    let req = Request::try_from("GET /AAPL?x=1&y HTTP/1.1\r\nAccept: application/json\r\n\r\n")
        .expect("well-formed request");
    assert_eq!(*req.method(), HttpMethod::GET);
    assert_eq!(req.path(), "/AAPL");
    assert_eq!(req.query_params().len(), 2);
    assert_eq!(value(req.query_params(), "x"), Some("1"));
    assert_eq!(value(req.query_params(), "y"), Some(""));
    assert_eq!(req.headers().len(), 1);
    assert_eq!(value(req.headers(), "accept"), Some("application/json"));
    assert!(req.body().is_empty());
}

#[test]
fn missing_target_is_invalid_request_line() {
    match Request::try_from("GET\r\n\r\n") {
        Err(HttpParseError::InvalidRequestLine) => {}
        other => panic!("unexpected result: {:?}", other),
    }
    match Request::try_from("   \r\n\r\n") {
        Err(HttpParseError::InvalidRequestLine) => {}
        other => panic!("unexpected result: {:?}", other),
    }
}

#[test]
fn unknown_method_is_carried_in_the_error() {
    match Request::try_from("FOO /x HTTP/1.1\r\n\r\n") {
        Err(HttpParseError::InvalidMethod(token)) => assert_eq!(token, "FOO"),
        other => panic!("unexpected result: {:?}", other),
    }
}

#[test]
fn lower_case_method_is_refused() {
    match Request::try_from("get / HTTP/1.1\r\n\r\n") {
        Err(HttpParseError::InvalidMethod(token)) => assert_eq!(token, "get"),
        other => panic!("unexpected result: {:?}", other),
    }
}

#[test]
fn empty_input_is_invalid_format() {
    match Request::try_from("") {
        Err(HttpParseError::InvalidFormat) => {}
        other => panic!("unexpected result: {:?}", other),
    }
}

#[test]
fn header_without_colon_is_invalid_header() {
    match Request::try_from("GET / HTTP/1.1\r\nHost example.org\r\n\r\n") {
        Err(HttpParseError::InvalidHeader) => {}
        other => panic!("unexpected result: {:?}", other),
    }
}

#[test]
fn line_without_colon_after_the_blank_line_is_body() {
    let req = Request::try_from("POST /x HTTP/1.1\r\nA: b\r\n\r\nno colon here").unwrap();
    assert_eq!(req.body().as_slice(), b"no colon here");
}

#[test]
fn bare_line_feeds_are_accepted() {
    let req = Request::try_from("PUT /p HTTP/1.1\nHost: h\n\nabc").unwrap();
    assert_eq!(*req.method(), HttpMethod::PUT);
    assert_eq!(value(req.headers(), "host"), Some("h"));
    assert_eq!(req.body().as_slice(), b"abc");
}

#[test]
fn body_is_taken_verbatim_as_bytes() {
    let req = Request::try_from("POST /p HTTP/1.1\r\nHost: h\r\n\r\nna\u{ef}ve\r\n\r\nmore").unwrap();
    assert_eq!(req.body().as_slice(), "na\u{ef}ve\r\n\r\nmore".as_bytes());
}

#[test]
fn body_starts_after_the_earliest_marker() {
    let req = Request::try_from("POST /p HTTP/1.1\n\nfirst\r\n\r\nsecond").unwrap();
    assert_eq!(req.body().as_slice(), b"first\r\n\r\nsecond");
}

#[test]
fn get_without_blank_line_has_no_body() {
    let req = Request::try_from("GET /p HTTP/1.1\r\nHost: h").unwrap();
    assert_eq!(value(req.headers(), "host"), Some("h"));
    assert!(req.body().is_empty());
    let req = Request::try_from("DELETE /p").unwrap();
    assert_eq!(*req.method(), HttpMethod::DELETE);
    assert!(req.body().is_empty());
}

#[test]
fn post_without_blank_line_has_empty_body() {
    let req = Request::try_from("POST /p HTTP/1.1\r\nHost: h").unwrap();
    assert_eq!(*req.method(), HttpMethod::POST);
    assert!(req.body().is_empty());
}

#[test]
fn duplicate_header_keeps_the_last_value() {
    let req = Request::try_from("GET / HTTP/1.1\r\nX-Tag: one\r\nx-tag: two\r\n\r\n").unwrap();
    assert_eq!(req.headers().len(), 1);
    assert_eq!(value(req.headers(), "x-tag"), Some("two"));
}

#[test]
fn header_name_and_value_are_trimmed() {
    let (name, value) = parse_header("  Content-Type \t:   text/html; charset=utf-8  ").unwrap();
    assert_eq!(name, "content-type");
    assert_eq!(value, "text/html; charset=utf-8");
}

#[test]
fn header_value_keeps_later_colons() {
    let (name, value) = parse_header("Host: example.org:8080").unwrap();
    assert_eq!(name, "host");
    assert_eq!(value, "example.org:8080");
}

#[test]
fn header_line_without_colon_is_refused() {
    assert!(matches!(parse_header("no colon"), Err(HttpParseError::InvalidHeader)));
}

#[test]
fn url_without_query_has_no_parameters() {
    let (path, params) = parse_url("/index.html").unwrap();
    assert_eq!(path, "/index.html");
    assert!(params.is_empty());
}

#[test]
fn url_query_rules() {
    let (path, params) = parse_url("/s?a=1&&b&=v&c=&a=2&d=x=y").unwrap();
    assert_eq!(path, "/s");
    assert_eq!(params.len(), 5);
    assert_eq!(value(&params, "a"), Some("2"));
    assert_eq!(value(&params, "b"), Some(""));
    assert_eq!(value(&params, ""), Some("v"));
    assert_eq!(value(&params, "c"), Some(""));
    assert_eq!(value(&params, "d"), Some("x=y"));
}

#[test]
fn url_query_is_everything_after_the_first_question_mark() {
    let (path, params) = parse_url("/s?a=1?b=2").unwrap();
    assert_eq!(path, "/s");
    assert_eq!(value(&params, "a"), Some("1?b=2"));
}

#[test]
fn method_tokens() {
    assert_eq!(HttpMethod::try_from("GET").unwrap(), HttpMethod::GET);
    assert_eq!(HttpMethod::try_from("POST").unwrap(), HttpMethod::POST);
    assert_eq!(HttpMethod::try_from("PUT").unwrap(), HttpMethod::PUT);
    assert_eq!(HttpMethod::try_from("DELETE").unwrap(), HttpMethod::DELETE);
    assert_eq!(HttpMethod::GET.as_str(), "GET");
    assert_eq!(HttpMethod::DELETE.as_str(), "DELETE");
    assert!(matches!(HttpMethod::try_from("PATCH"), Err(HttpParseError::InvalidMethod(t)) if t == "PATCH"));
}

#[test]
fn parse_error_messages() {
    assert_eq!(HttpParseError::InvalidFormat.message(), "invalid request format");
    assert_eq!(
        HttpParseError::InvalidMethod("FOO".to_string()).message(),
        "invalid HTTP method: FOO"
    );
    assert_eq!(HttpParseError::InvalidRequestLine.message(), "invalid request line");
    assert_eq!(HttpParseError::InvalidHeader.message(), "invalid header format");
    assert_eq!(HttpParseError::MissingRequiredHeaders.message(), "missing required headers");
    assert_eq!(
        HttpParseError::UrlParseError("bad".to_string()).message(),
        "error parsing URL: bad"
    );
}
