use std::sync::Arc;

use stock_tracker::server::connection::{
    Action, Connection, ConnectionError, Event, HttpServer, REQUEST_CAPACITY,
};
use stock_tracker::server::errors::HttpParseError;
use stock_tracker::server::methods::HttpMethod;
use stock_tracker::server::request::Request;
use stock_tracker::server::response::Response;
use stock_tracker::server::route::Route;
use stock_tracker::server::router::Router;
use stock_tracker::utils::error::ApplicationError;

/// Echoes the path of `GET` requests below `/echo/`, and fails for `/echo/fail`.
struct Echo;

impl Route for Echo {
    fn handle(&self, req: Request) -> Result<Response, ApplicationError> {
        if req.path() == "/echo/fail" {
            return Err(ApplicationError::ApiError("no echo".to_string()));
        }
        Ok(Response::new(200, "OK").with_text_body(req.path()))
    }

    fn path_matches(&self, path: &str) -> bool {
        path.starts_with("/echo/")
    }

    fn method_matches(&self, method: &HttpMethod) -> bool {
        *method == HttpMethod::GET
    }
}

fn server() -> HttpServer<dyn Route> {
    let routes: Vec<Arc<dyn Route>> = vec![Arc::new(Echo)];
    HttpServer::new(Router::new(routes))
}

fn read(server: &HttpServer<dyn Route>, bytes: &[u8]) -> (Connection, Action) {
    let (state, action) = server.step(server.accept(), Event::Proceed);
    assert!(matches!(state, Connection::Reading));
    assert!(matches!(action, Action::Read(n) if n == REQUEST_CAPACITY));
    server.step(state, Event::Read(bytes.to_vec()))
}

#[test]
fn capacity_of_the_read_buffer() {
    assert_eq!(REQUEST_CAPACITY, 4096);
}

#[test]
fn a_connection_runs_from_accepted_to_closed() {
    let server = server();
    assert_eq!(server.router().len(), 1);
    let (state, action) = read(&server, b"GET /echo/hi HTTP/1.1\r\nHost: h\r\n\r\n");
    assert!(matches!(&state, Connection::Parsed(req) if req.path() == "/echo/hi"));
    assert!(matches!(action, Action::Proceed));
    let (state, action) = server.step(state, Event::Proceed);
    assert!(matches!(&state, Connection::Routed(resp) if resp.status_code() == 200));
    match action {
        Action::Write(bytes) => assert_eq!(
            bytes,
            b"HTTP/1.1 200 OK\r\nContent-Type: text/plain\r\nContent-Length: 8\r\n\r\n/echo/hi".to_vec()
        ),
        other => panic!("unexpected action: {:?}", other),
    }
    let (state, action) = server.step(state, Event::WriteDone);
    assert!(matches!(state, Connection::Written));
    assert!(matches!(action, Action::Close));
    let (state, action) = server.step(state, Event::Proceed);
    assert!(matches!(state, Connection::Closed(None)));
    assert!(matches!(action, Action::Stop));
    let (state, action) = server.step(state, Event::Proceed);
    assert!(matches!(state, Connection::Closed(None)));
    assert!(matches!(action, Action::Stop));
}

#[test]
fn unmatched_request_is_answered_with_404() {
    let server = server();
    let (state, _) = read(&server, b"POST /echo/hi HTTP/1.1\r\n\r\nbody");
    let (state, action) = server.step(state, Event::Proceed);
    assert!(matches!(&state, Connection::Routed(resp) if resp.status_code() == 404));
    match action {
        Action::Write(bytes) => {
            assert_eq!(bytes, b"HTTP/1.1 404 Not Found\r\nContent-Length: 0\r\n\r\n".to_vec())
        }
        other => panic!("unexpected action: {:?}", other),
    }
}

#[test]
fn read_of_no_bytes_closes_quietly() {
    let (state, action) = read(&server(), b"");
    assert!(matches!(state, Connection::Closed(None)));
    assert!(matches!(action, Action::Close));
}

#[test]
fn bytes_that_are_no_text_close_the_connection() {
    let (state, action) = read(&server(), b"GET /\xff HTTP/1.1\r\n\r\n");
    assert!(matches!(state, Connection::Closed(Some(ConnectionError::InvalidEncoding))));
    assert!(matches!(action, Action::Close));
    let (state, _) = read(&server(), &[0xc0, 0x80]);
    assert!(matches!(state, Connection::Closed(Some(ConnectionError::InvalidEncoding))));
    let (state, _) = read(&server(), &[0xed, 0xa0, 0x80]);
    assert!(matches!(state, Connection::Closed(Some(ConnectionError::InvalidEncoding))));
}

#[test]
fn text_beyond_ascii_is_decoded() {
    let (state, _) = read(&server(), "GET /echo/caf\u{e9} HTTP/1.1\r\n\r\n".as_bytes());
    assert!(matches!(&state, Connection::Parsed(req) if req.path() == "/echo/caf\u{e9}"));
}

#[test]
fn parse_failure_closes_the_connection() {
    let (state, action) = read(&server(), b"BREW /pot HTCPCP/1.0\r\n\r\n");
    match state {
        Connection::Closed(Some(ConnectionError::Parse(HttpParseError::InvalidMethod(token)))) => {
            assert_eq!(token, "BREW")
        }
        other => panic!("unexpected state: {:?}", other),
    }
    assert!(matches!(action, Action::Close));
    let (state, action) = server().step(Connection::Closed(None), Event::WriteDone);
    assert!(matches!(state, Connection::Closed(None)));
    assert!(matches!(action, Action::Stop));
}

#[test]
fn failure_of_the_route_closes_the_connection() {
    let server = server();
    let (state, _) = read(&server, b"GET /echo/fail HTTP/1.1\r\n\r\n");
    let (state, action) = server.step(state, Event::Proceed);
    match state {
        Connection::Closed(Some(ConnectionError::Handler(ApplicationError::ApiError(reason)))) => {
            assert_eq!(reason, "no echo")
        }
        other => panic!("unexpected state: {:?}", other),
    }
    assert!(matches!(action, Action::Close));
}

#[test]
fn failed_read_and_failed_write_close_the_connection() {
    let server = server();
    let (state, _) = server.step(server.accept(), Event::Proceed);
    let (state, action) = server.step(state, Event::ReadFailed);
    assert!(matches!(state, Connection::Closed(Some(ConnectionError::ReadFailed))));
    assert!(matches!(action, Action::Close));
    let (state, _) = read(&server, b"GET /echo/x HTTP/1.1\r\n\r\n");
    let (state, _) = server.step(state, Event::Proceed);
    let (state, action) = server.step(state, Event::WriteFailed);
    assert!(matches!(state, Connection::Closed(Some(ConnectionError::WriteFailed))));
    assert!(matches!(action, Action::Close));
    let (state, action) = server.step(state, Event::Proceed);
    assert!(matches!(state, Connection::Closed(Some(ConnectionError::WriteFailed))));
    assert!(matches!(action, Action::Stop));
}

#[test]
fn event_out_of_order_closes_the_connection() {
    let server = server();
    let (state, action) = server.step(Connection::Accepted, Event::WriteDone);
    assert!(matches!(state, Connection::Closed(Some(ConnectionError::OutOfOrder))));
    assert!(matches!(action, Action::Close));
    let (state, _) = server.step(Connection::Reading, Event::Proceed);
    assert!(matches!(state, Connection::Closed(Some(ConnectionError::OutOfOrder))));
    let (state, _) = server.step(Connection::Written, Event::Read(vec![1]));
    assert!(matches!(state, Connection::Closed(Some(ConnectionError::OutOfOrder))));
    let (state, _) = read(&server, b"GET /echo/x HTTP/1.1\r\n\r\n");
    let (state, _) = server.step(state, Event::WriteDone);
    assert!(matches!(state, Connection::Closed(Some(ConnectionError::OutOfOrder))));
}
