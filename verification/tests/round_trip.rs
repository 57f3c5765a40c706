use stock_tracker::server::errors::{HttpParseError, ServerError};
use stock_tracker::server::methods::HttpMethod;
use stock_tracker::server::request::Request;
use stock_tracker::server::string_map::StringMap;
use stock_tracker::utils::error::{to_app_error, ApplicationError};

fn listed(map: &StringMap) -> Vec<(String, String)> {
    (0..map.len()).map(|i| map.entry(i)).map(|(k, v)| (k.clone(), v.clone())).collect()
}

fn assert_round_trip(input: &str) {
    let first = Request::try_from(input).expect("first parse");
    let line = first.request_line();
    let mut text = line.clone();
    text.push_str("\r\n\r\n");
    let second = Request::try_from(text.as_str()).expect("second parse");
    assert_eq!(second.method(), first.method(), "{:?}", input);
    assert_eq!(second.path(), first.path(), "{:?}", input);
    assert_eq!(listed(second.query_params()), listed(first.query_params()), "{:?}", input);
    assert!(second.headers().is_empty());
    assert!(second.body().is_empty());
    assert_eq!(second.request_line(), line);
}

#[test]
fn written_request_line_is_read_back() {
    for input in [
        "GET / HTTP/1.1\r\n\r\n",
        "GET /AAPL?x=1&y HTTP/1.1\r\nAccept: application/json\r\n\r\n",
        "POST /submit?a=1&a=2&b=&=c&d=e=f&&g?h HTTP/1.1\r\nHost: h\r\n\r\nbody",
        "PUT    /spaced\t?q=1   HTTP/1.1\nX: y\n\n",
        "DELETE ?only=query\n",
        "GET /caf\u{e9}?cl\u{e9}=\u{20ac}&k=v HTTP/1.1\r\n\r\n",
        "GET /no-version",
        "GET ? HTTP/1.1",
    ] {
        assert_round_trip(input);
    }
}

#[test]
fn request_line_of_a_request() {
    let req = Request::try_from("GET /AAPL?x=1&y HTTP/1.1\r\nAccept: application/json\r\n\r\n").unwrap();
    assert_eq!(req.request_line(), "GET /AAPL?x=1&y= HTTP/1.1");
    let req = Request::try_from("DELETE /gone HTTP/1.0\r\n\r\n").unwrap();
    assert_eq!(req.request_line(), "DELETE /gone? HTTP/1.1");
    let mut params = StringMap::new();
    params.insert("k".to_string(), "v".to_string());
    let req = Request::new(HttpMethod::POST, "/p".to_string(), StringMap::new(), params, vec![1]);
    assert_eq!(req.request_line(), "POST /p?k=v HTTP/1.1");
    assert_eq!(req.clone().request_line(), "POST /p?k=v HTTP/1.1");
    assert_eq!(req.body(), &vec![1]);
}

#[test]
fn server_error_messages() {
    assert_eq!(ServerError::InvalidFormat.message(), "invalid request format");
    assert_eq!(ServerError::InvalidMethod("X".to_string()).message(), "invalid HTTP method: X");
    assert_eq!(ServerError::InvalidRequestLine.message(), "invalid request line");
    assert_eq!(ServerError::InvalidHeader.message(), "invalid header format");
    assert_eq!(ServerError::MissingRequiredHeaders.message(), "missing required headers");
    assert_eq!(ServerError::UrlParseError("u".to_string()).message(), "error parsing URL: u");
    assert_eq!(ServerError::TemplateError("t".to_string()).message(), "template error: t");
    let failure = askama::Error::Fmt(std::fmt::Error);
    let said = failure.to_string();
    match ServerError::from(failure) {
        ServerError::TemplateError(text) => assert_eq!(text, said),
        other => panic!("unexpected error: {:?}", other),
    }
}

#[test]
fn application_error_messages() {
    assert_eq!(ApplicationError::InvalidRequestFormat.message(), "Invalid request format");
    assert_eq!(
        ApplicationError::InvalidHttpMethod("X".to_string()).message(),
        "Invalid HTTP method: X"
    );
    assert_eq!(ApplicationError::InvalidRequestLine.message(), "Invalid request line");
    assert_eq!(ApplicationError::InvalidFormat.message(), "Invalid format");
    assert_eq!(ApplicationError::InvalidHeaderFormat.message(), "Invalid header format");
    assert_eq!(ApplicationError::MissingRequiredHeaders.message(), "Missing required headers");
    assert_eq!(ApplicationError::UrlParseError("u".to_string()).message(), "Error parsing URL: u");
    assert_eq!(
        ApplicationError::TemplateError("t".to_string()).message(),
        "Template rendering error: t"
    );
    assert_eq!(ApplicationError::MissingDatabaseUrl.message(), "Missing database URL");
    assert_eq!(ApplicationError::ApiError("a".to_string()).message(), "API error: a");
    assert_eq!(
        ApplicationError::MissingEnvVar("PORT".to_string()).message(),
        "Missing environment variable: PORT"
    );
    assert_eq!(
        ApplicationError::InvalidEnvVar("PORT".to_string()).message(),
        "Invalid environment variable: PORT"
    );
    assert_eq!(ApplicationError::OtherError("plain".to_string()).message(), "plain");
}

#[test]
fn application_errors_from_outside_failures() {
    let io = std::io::Error::new(std::io::ErrorKind::NotFound, "no such file");
    let said = io.to_string();
    let e = ApplicationError::from(io);
    assert!(matches!(e, ApplicationError::IoError(_)));
    assert_eq!(e.message(), format!("IO error: {}", said));

    let json = serde_json::from_str::<serde_json::Value>("{").unwrap_err();
    let said = json.to_string();
    let e = ApplicationError::from(json);
    assert!(matches!(e, ApplicationError::ApiResponseParseError(_)));
    assert_eq!(e.message(), format!("Failed to parse API response: {}", said));

    let date = chrono::DateTime::parse_from_rfc3339("yesterday").unwrap_err();
    let said = date.to_string();
    let e = ApplicationError::from(date);
    assert!(matches!(e, ApplicationError::DateParseError(_)));
    assert_eq!(e.message(), format!("Date parsing error: {}", said));

    let db = sqlx::Error::RowNotFound;
    let said = db.to_string();
    let e = ApplicationError::from(db);
    assert!(matches!(e, ApplicationError::DatabaseError(_)));
    assert_eq!(e.message(), format!("Database error: {}", said));

    let template = askama::Error::Fmt(std::fmt::Error);
    let said = template.to_string();
    let e = ApplicationError::from(template);
    assert_eq!(e.message(), format!("Template rendering error: {}", said));

    let e = to_app_error(42);
    assert!(matches!(&e, ApplicationError::OtherError(text) if text == "42"));
    let e = to_app_error(HttpParseError::InvalidHeader.message());
    assert_eq!(e.message(), "invalid header format");
}
