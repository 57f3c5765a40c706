//! What a unit of application logic owes the router.

use vstd::prelude::*;
use crate::server::methods::HttpMethod;
use crate::server::request::Request;
use crate::server::response::Response;
use crate::utils::error::ApplicationError;

verus! {

/// A unit of application logic that answers the requests for some paths and methods.
///
/// The router asks a route whether it claims a path and a method, and hands the request
/// to the first route that claims both. The two matching functions are meant to be pure;
/// nothing is assumed of them here, and the router's contract speaks of what they
/// returned.
pub trait Route: Send + Sync {
    /// Answers a request: a response, or the failure that kept the route from making one.
    fn handle(&self, req: Request) -> Result<Response, ApplicationError>;

    /// Whether the route claims `path`.
    fn path_matches(&self, path: &str) -> bool;

    /// Whether the route claims `method`.
    fn method_matches(&self, method: &HttpMethod) -> bool;
}

} // verus!
