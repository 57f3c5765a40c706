//! The ordered collection of routes and the choice among them.

use std::sync::Arc;
use vstd::prelude::*;
use crate::server::methods::HttpMethod;
use crate::server::request::Request;
use crate::server::response::{BodyView, Response, ResponseView};
use crate::server::route::Route;
use crate::utils::error::ApplicationError;

verus! {

/// `route` may say of `path` and `method` that it claims both.
pub open spec fn may_claim<R: Route + ?Sized>(route: &R, path: &str, method: &HttpMethod) -> bool {
    call_ensures(R::path_matches, (route, path), true) && call_ensures(
        R::method_matches,
        (route, method),
        true,
    )
}

/// `route` may say of `path` or of `method` that it does not claim it.
pub open spec fn may_decline<R: Route + ?Sized>(route: &R, path: &str, method: &HttpMethod) -> bool {
    call_ensures(R::path_matches, (route, path), false) || call_ensures(
        R::method_matches,
        (route, method),
        false,
    )
}

/// `i` is the place of a route that may claim `path` and `method`, and each route before
/// it may decline; or `i` is the number of routes, and each of them may decline.
pub open spec fn is_first_claim<R: Route + ?Sized>(
    routes: Seq<Arc<R>>,
    path: &str,
    method: &HttpMethod,
    i: int,
) -> bool {
    &&& 0 <= i <= routes.len()
    &&& forall|j: int| 0 <= j < i ==> may_decline(&*#[trigger] routes[j], path, method)
    &&& i < routes.len() ==> may_claim(&*routes[i], path, method)
}

/// The answer to a request that no route claims: 404, no header, no body.
pub open spec fn not_found() -> ResponseView {
    ResponseView {
        status_code: 404,
        status_text: "Not Found"@,
        headers: Seq::empty(),
        body: BodyView::Raw(Seq::empty()),
    }
}

/// `result` is what routing `req` among `routes` gives: the answer of the first route
/// that claims the path and the method of the request, or 404 where each route declines.
pub open spec fn is_routed<R: Route + ?Sized>(
    routes: Seq<Arc<R>>,
    req: Request,
    result: Result<Response, ApplicationError>,
) -> bool {
    exists|i: int, path: &str, method: &HttpMethod|
        {
            &&& path@ == req@.path
            &&& *method == req@.method
            &&& #[trigger] is_first_claim(routes, path, method, i)
            &&& if i < routes.len() {
                call_ensures(R::handle, (&*routes[i], req), result)
            } else {
                result is Ok && result->Ok_0@ == not_found()
            }
        }
}

/// A request that no route can claim is answered with 404, no header and no body,
/// whatever its method.
pub proof fn lemma_unclaimed_is_not_found<R: Route + ?Sized>(
    routes: Seq<Arc<R>>,
    req: Request,
    result: Result<Response, ApplicationError>,
)
    requires
        is_routed(routes, req, result),
        forall|j: int, path: &str, method: &HttpMethod|
            0 <= j < routes.len() && path@ == req@.path && *method == req@.method
                ==> !#[trigger] may_claim(&*routes[j], path, method),
    ensures
        result is Ok,
        result->Ok_0@ == not_found(),
{
    let (i, path, method) = choose|i: int, path: &str, method: &HttpMethod|
        {
            &&& path@ == req@.path
            &&& *method == req@.method
            &&& #[trigger] is_first_claim(routes, path, method, i)
            &&& if i < routes.len() {
                call_ensures(R::handle, (&*routes[i], req), result)
            } else {
                result is Ok && result->Ok_0@ == not_found()
            }
        };
    if i < routes.len() {
        assert(may_claim(&*routes[i], path, method));
    }
}

/// Among routes that answer as their matching functions' contracts say, the request goes
/// to the earliest route that claims it: a route that has to decline is never the one
/// that answers.
pub proof fn lemma_declared_first_goes_first<R: Route + ?Sized>(
    routes: Seq<Arc<R>>,
    path: &str,
    method: &HttpMethod,
    first: int,
    chosen: int,
)
    requires
        0 <= first < routes.len(),
        !may_decline(&*routes[first], path, method),
        is_first_claim(routes, path, method, chosen),
    ensures
        chosen <= first,
{
}

/// Declaration order decides between routes: where a route has to claim the request and
/// no route declared before it can claim it, the answer is the answer of that route,
/// whatever the routes declared after it would say.
pub proof fn lemma_routed_to_first_claim<R: Route + ?Sized>(
    routes: Seq<Arc<R>>,
    req: Request,
    result: Result<Response, ApplicationError>,
    k: int,
)
    requires
        is_routed(routes, req, result),
        0 <= k < routes.len(),
        forall|path: &str, method: &HttpMethod|
            path@ == req@.path && *method == req@.method ==> !#[trigger] may_decline(
                &*routes[k],
                path,
                method,
            ),
        forall|j: int, path: &str, method: &HttpMethod|
            0 <= j < k && path@ == req@.path && *method == req@.method ==> !#[trigger] may_claim(
                &*routes[j],
                path,
                method,
            ),
    ensures
        call_ensures(R::handle, (&*routes[k], req), result),
{
    let (i, path, method) = choose|i: int, path: &str, method: &HttpMethod|
        {
            &&& path@ == req@.path
            &&& *method == req@.method
            &&& #[trigger] is_first_claim(routes, path, method, i)
            &&& if i < routes.len() {
                call_ensures(R::handle, (&*routes[i], req), result)
            } else {
                result is Ok && result->Ok_0@ == not_found()
            }
        };
    assert(!may_decline(&*routes[k], path, method));
    if i < k {
        assert(may_claim(&*routes[i], path, method));
    }
}

/// The routes of a server, in the order in which they were declared. An earlier route
/// goes before a later one.
pub struct Router<R: Route + ?Sized> {
    routes: Vec<Arc<R>>,
}

impl<R: Route + ?Sized> Router<R> {
    /// The routes, in order.
    pub closed spec fn routes(&self) -> Seq<Arc<R>> {
        self.routes@
    }

    /// A router with the given routes, the first of them first.
    pub fn new(routes: Vec<Arc<R>>) -> (router: Router<R>)
        ensures
            router.routes() == routes@,
    {
        Router { routes }
    }

    /// Declares one more route, after those that are there.
    pub fn add_route(&mut self, route: Arc<R>)
        ensures
            final(self).routes() == old(self).routes().push(route),
    {
        self.routes.push(route);
    }

    /// The number of routes.
    pub fn len(&self) -> (n: usize)
        ensures
            n == self.routes().len(),
    {
        self.routes.len()
    }

    /// The place of the first route that claims `path` and `method`, if any does. The
    /// routes are asked in order, and none after the first that claims both.
    pub fn find(&self, path: &str, method: &HttpMethod) -> (found: Option<usize>)
        ensures
            match found {
                Some(i) => i < self.routes().len() && is_first_claim(
                    self.routes(),
                    path,
                    method,
                    i as int,
                ),
                None => is_first_claim(self.routes(), path, method, self.routes().len() as int),
            },
    {
        let mut i: usize = 0;
        while i < self.routes.len()
            invariant
                i <= self.routes.len(),
                forall|j: int|
                    0 <= j < i ==> may_decline(&*#[trigger] self.routes()[j], path, method),
            decreases self.routes.len() - i,
        {
            let route: &R = &*self.routes[i];
            if route.path_matches(path) && route.method_matches(method) {
                return Some(i);
            }
            i += 1;
        }
        None
    }

    /// Hands the request to the first route that claims its path and method, and returns
    /// what that route answers, whether a response or a failure. No other route is tried.
    /// Where no route claims the request, the answer is 404 with an empty body.
    pub fn route(&self, req: Request) -> (result: Result<Response, ApplicationError>)
        ensures
            is_routed(self.routes(), req, result),
    {
        let wanted = req.path().clone();
        let asked = *req.method();
        let path: &str = wanted.as_str();
        let method: &HttpMethod = &asked;
        let found = self.find(path, method);
        match found {
            Some(i) => {
                let result = self.routes[i].handle(req);
                assert(is_first_claim(self.routes(), path, method, i as int));
                result
            },
            None => {
                assert(is_first_claim(self.routes(), path, method, self.routes().len() as int));
                Ok(Response::new(404, "Not Found"))
            },
        }
    }
}

impl<R: Route + ?Sized> Default for Router<R> {
    /// A router without routes.
    fn default() -> (router: Router<R>)
        ensures
            router.routes() == Seq::<Arc<R>>::empty(),
    {
        Router { routes: Vec::new() }
    }
}

} // verus!
