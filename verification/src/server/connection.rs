//! One connection, from the first read to the close.
//!
//! A connection carries one request and one response. The server decides each step;
//! reading from the socket, writing to it and closing it are left to the caller, who
//! reports what came of them.

use vstd::prelude::*;
use vstd::utf8::{decode_utf8, valid_utf8};
use crate::server::errors::HttpParseError;
use crate::server::grammar::parse_request;
use crate::server::request::Request;
use crate::server::response::Response;
use crate::server::route::Route;
use crate::server::router::{is_routed, Router};
use crate::utils::error::ApplicationError;

verus! {

/// The most bytes that are read for one request.
pub const REQUEST_CAPACITY: usize = 4096;

/// `String::from_utf8` gives the text that the bytes encode in UTF-8, and fails exactly
/// when they are not valid UTF-8.
#[verifier::external_body]
fn text_of_bytes(bytes: Vec<u8>) -> (text: Option<String>)
    ensures
        text is Some <==> valid_utf8(bytes@),
        text is Some ==> text->Some_0@ == decode_utf8(bytes@),
{
    match String::from_utf8(bytes) {
        Ok(text) => Some(text),
        Err(_) => None,
    }
}

/// Why a connection was closed before its response was written.
#[derive(Debug)]
pub enum ConnectionError {
    /// Reading from the socket failed.
    ReadFailed,
    /// The bytes read are not valid UTF-8.
    InvalidEncoding,
    /// The text read is no request.
    Parse(HttpParseError),
    /// The route that was given the request failed.
    Handler(ApplicationError),
    /// Writing to the socket failed.
    WriteFailed,
    /// The caller reported something that cannot happen in the state of the connection.
    OutOfOrder,
}

/// Where a connection stands.
#[derive(Debug)]
pub enum Connection {
    /// The socket was accepted; nothing was read.
    Accepted,
    /// The one read of the request is under way.
    Reading,
    /// The request was read and parsed.
    Parsed(Request),
    /// The request was answered; the response is being written.
    Routed(Response),
    /// The response was written.
    Written,
    /// The connection is over, with the failure that ended it, if one did.
    Closed(Option<ConnectionError>),
}

/// What the caller reports to the server.
#[derive(Debug)]
pub enum Event {
    /// Nothing happened outside; the connection can go on.
    Proceed,
    /// The read gave these bytes; none at all if the peer has closed its side.
    Read(Vec<u8>),
    /// The read failed.
    ReadFailed,
    /// The bytes were written.
    WriteDone,
    /// The write failed.
    WriteFailed,
}

/// What the caller is to do next.
#[derive(Debug)]
pub enum Action {
    /// Read once from the socket, into a buffer of this many bytes, and report
    /// [`Event::Read`] or [`Event::ReadFailed`].
    Read(usize),
    /// Report [`Event::Proceed`].
    Proceed,
    /// Write these bytes to the socket and report [`Event::WriteDone`] or
    /// [`Event::WriteFailed`].
    Write(Vec<u8>),
    /// Close the socket and report [`Event::Proceed`].
    Close,
    /// The connection is over; there is nothing left to do.
    Stop,
}

/// The server: the routes, shared by all its connections.
pub struct HttpServer<R: Route + ?Sized> {
    router: Router<R>,
}

/// The step after the read: no bytes end the connection quietly, bytes that are no text
/// or no request end it with a failure, and a request is kept for routing.
pub open spec fn is_read_step(bytes: Seq<u8>, next: Connection, action: Action) -> bool {
    if bytes.len() == 0 {
        next == Connection::Closed(None) && action == Action::Close
    } else if !valid_utf8(bytes) {
        next == Connection::Closed(Some(ConnectionError::InvalidEncoding)) && action
            == Action::Close
    } else {
        match parse_request(decode_utf8(bytes)) {
            Ok(view) => next matches Connection::Parsed(req) && req@ == view && action
                == Action::Proceed,
            Err(failure) => next matches Connection::Closed(Some(ConnectionError::Parse(e)))
                && e@ == failure && action == Action::Close,
        }
    }
}

/// The step after the parse: the request is routed. A response is kept and its bytes go
/// out; a failure ends the connection.
pub open spec fn is_route_step<R: Route + ?Sized>(
    routes: Seq<std::sync::Arc<R>>,
    req: Request,
    next: Connection,
    action: Action,
) -> bool {
    exists|result: Result<Response, ApplicationError>|
        {
            &&& #[trigger] is_routed(routes, req, result)
            &&& match result {
                Ok(resp) => next == Connection::Routed(resp) && action is Write
                    && action->Write_0@ == resp@.wire(),
                Err(e) => next == Connection::Closed(Some(ConnectionError::Handler(e))) && action
                    == Action::Close,
            }
        }
}

/// Whether a connection that stands at `state` and is told `event` goes on to `next`
/// with `action`.
///
/// A connection goes from `Accepted` through `Reading`, `Parsed`, `Routed` and `Written`
/// to `Closed`, and leaves that way for `Closed` on the first failure. A closed
/// connection stays closed. An event that does not belong to the state closes the
/// connection.
pub open spec fn is_step<R: Route + ?Sized>(
    routes: Seq<std::sync::Arc<R>>,
    state: Connection,
    event: Event,
    next: Connection,
    action: Action,
) -> bool {
    match (state, event) {
        (Connection::Accepted, Event::Proceed) => next == Connection::Reading && action
            == Action::Read(REQUEST_CAPACITY),
        (Connection::Reading, Event::Read(bytes)) => is_read_step(bytes@, next, action),
        (Connection::Reading, Event::ReadFailed) => next == Connection::Closed(
            Some(ConnectionError::ReadFailed),
        ) && action == Action::Close,
        (Connection::Parsed(req), Event::Proceed) => is_route_step(routes, req, next, action),
        (Connection::Routed(_), Event::WriteDone) => next == Connection::Written && action
            == Action::Close,
        (Connection::Routed(_), Event::WriteFailed) => next == Connection::Closed(
            Some(ConnectionError::WriteFailed),
        ) && action == Action::Close,
        (Connection::Written, Event::Proceed) => next == Connection::Closed(None) && action
            == Action::Stop,
        (Connection::Closed(end), _) => next == Connection::Closed(end) && action == Action::Stop,
        _ => next == Connection::Closed(Some(ConnectionError::OutOfOrder)) && action
            == Action::Close,
    }
}

impl<R: Route + ?Sized> HttpServer<R> {
    /// The routes of the server.
    pub closed spec fn routes(&self) -> Seq<std::sync::Arc<R>> {
        self.router.routes()
    }

    /// A server with the given routes.
    pub fn new(router: Router<R>) -> (server: HttpServer<R>)
        ensures
            server.routes() == router.routes(),
    {
        HttpServer { router }
    }

    /// The router.
    pub fn router(&self) -> (router: &Router<R>)
        ensures
            router.routes() == self.routes(),
    {
        &self.router
    }

    /// The state in which every connection begins.
    pub fn accept(&self) -> (state: Connection)
        ensures
            state == Connection::Accepted,
    {
        Connection::Accepted
    }

    /// Takes a connection one step on: from `state`, told `event`, to the state and the
    /// action that [`is_step`] allows.
    pub fn step(&self, state: Connection, event: Event) -> (r: (Connection, Action))
        ensures
            is_step(self.routes(), state, event, r.0, r.1),
    {
        match (state, event) {
            (Connection::Accepted, Event::Proceed) => (
                Connection::Reading,
                Action::Read(REQUEST_CAPACITY),
            ),
            (Connection::Reading, Event::Read(bytes)) => read_step(bytes),
            (Connection::Reading, Event::ReadFailed) => (
                Connection::Closed(Some(ConnectionError::ReadFailed)),
                Action::Close,
            ),
            (Connection::Parsed(req), Event::Proceed) => {
                let result = self.router.route(req);
                assert(is_routed(self.routes(), req, result));
                match result {
                    Ok(resp) => {
                        let bytes = resp.to_bytes();
                        (Connection::Routed(resp), Action::Write(bytes))
                    },
                    Err(e) => (Connection::Closed(Some(ConnectionError::Handler(e))), Action::Close),
                }
            },
            (Connection::Routed(_), Event::WriteDone) => (Connection::Written, Action::Close),
            (Connection::Routed(_), Event::WriteFailed) => (
                Connection::Closed(Some(ConnectionError::WriteFailed)),
                Action::Close,
            ),
            (Connection::Written, Event::Proceed) => (Connection::Closed(None), Action::Stop),
            (Connection::Closed(end), _) => (Connection::Closed(end), Action::Stop),
            _ => (Connection::Closed(Some(ConnectionError::OutOfOrder)), Action::Close),
        }
    }
}

/// What follows from the bytes that the read gave.
fn read_step(bytes: Vec<u8>) -> (r: (Connection, Action))
    ensures
        is_read_step(bytes@, r.0, r.1),
{
    if bytes.len() == 0 {
        return (Connection::Closed(None), Action::Close);
    }
    match text_of_bytes(bytes) {
        None => (Connection::Closed(Some(ConnectionError::InvalidEncoding)), Action::Close),
        Some(text) => match Request::try_from(text.as_str()) {
            Ok(req) => (Connection::Parsed(req), Action::Proceed),
            Err(e) => (Connection::Closed(Some(ConnectionError::Parse(e))), Action::Close),
        },
    }
}

} // verus!
