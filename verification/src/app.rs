//! The application: its routes, its global middleware, and the dispatch of
//! a request through both.

use vstd::prelude::*;
use crate::method::Method;
use crate::method::MethodView;
use crate::middleware::chain_handles;
use crate::middleware::exchange;
use crate::middleware::Exchange;
use crate::middleware::Middleware;
use crate::middleware::MiddlewareResult;
use crate::middleware::NotFound;
use crate::middleware::NOT_FOUND_BODY;
use crate::middleware::lemma_not_found_body;
use crate::request::Request;
use crate::request::RequestView;
use crate::response::Response;
use crate::response::ResponseView;
use crate::text::same_text;

verus! {

/// Configuration settings for the application.
#[derive(Debug, Clone, Copy)]
pub struct AppConfig {
    /// The number of threads to be used by the application's thread pool.
    pub threads: usize,
}

/// A route in the application.
pub struct Route<M: Middleware> {
    pub method: Method,
    pub path: String,
    pub middleware: M,
}

impl<M: Middleware> Route<M> {
    /// Whether the route is bound to `method` and `path`. Both are compared
    /// exactly: a path with a query or a trailing slash is another path.
    pub open spec fn matches(&self, method: MethodView, path: Seq<char>) -> bool {
        self.method@ == method && self.path@ == path
    }
}

/// Whether the route at `i` is the last of `routes` that is bound to
/// `method` and `path`: the one that was registered for them last.
pub open spec fn last_match_at<M: Middleware>(
    routes: Seq<Route<M>>,
    method: MethodView,
    path: Seq<char>,
    i: int,
) -> bool {
    &&& 0 <= i < routes.len()
    &&& routes[i].matches(method, path)
    &&& forall|j: int| i < j < routes.len() ==> !(#[trigger] routes[j]).matches(method, path)
}

/// Whether none of `routes` is bound to `method` and `path`.
pub open spec fn no_match<M: Middleware>(
    routes: Seq<Route<M>>,
    method: MethodView,
    path: Seq<char>,
) -> bool {
    forall|j: int| 0 <= j < routes.len() ==> !(#[trigger] routes[j]).matches(method, path)
}

/// Whether `after` is `before` with one more route at its end.
pub open spec fn extends<M: Middleware>(before: Seq<Route<M>>, after: Seq<Route<M>>) -> bool {
    after.len() == before.len() + 1 && after.drop_last() == before
}

/// Whether `after` is `before` with one more route at its end, bound to
/// `method` and `path` and handled by `middleware`.
pub open spec fn registered<M: Middleware>(
    before: Seq<Route<M>>,
    after: Seq<Route<M>>,
    method: MethodView,
    path: Seq<char>,
    middleware: M,
) -> bool {
    &&& extends(before, after)
    &&& after.last().matches(method, path)
    &&& after.last().middleware == middleware
}

/// Whether `routes` may turn the exchange `before` into `after` for a
/// request that came with `method` and `path`: through the handler of the
/// route that was registered for them last, whatever that handler returns,
/// or through the fallback where no route is bound to them.
pub open spec fn routes_handle<M: Middleware>(
    routes: Seq<Route<M>>,
    method: MethodView,
    path: Seq<char>,
    before: Exchange,
    after: Exchange,
) -> bool {
    ||| exists|i: int, result: MiddlewareResult|
        last_match_at(routes, method, path, i) && #[trigger] routes[i].middleware.handles(
            before,
            after,
            result,
        )
    ||| no_match(routes, method, path) && NotFound.handles(before, after, MiddlewareResult::Next)
}

/// The exchange at the start of a dispatch: the request as it came, and a
/// response that nothing has touched.
pub open spec fn fresh(request: RequestView) -> Exchange {
    Exchange { request, response: ResponseView::initial() }
}

/// Whether an application with these routes and this global middleware may
/// answer `request` and come to the exchange `after`: the global
/// middleware run on the request and a fresh response, and the routes take
/// over what they leave. The route is the one for the method and the path
/// with which the request came: what the global middleware do to the
/// request has no part in the choice.
pub open spec fn dispatches<M: Middleware>(
    routes: Seq<Route<M>>,
    chain: Seq<M>,
    request: RequestView,
    after: Exchange,
) -> bool {
    exists|between: Exchange, result: MiddlewareResult| #[trigger]
        chain_handles(chain, fresh(request), between, result) && routes_handle(
            routes,
            request.method,
            request.url,
            between,
            after,
        )
}

/// A request that came with the method and path of a route that no later
/// route is bound to is handled by that route's handler, once, and by no
/// other.
pub proof fn lemma_registered_route_handles<M: Middleware>(
    routes: Seq<Route<M>>,
    method: MethodView,
    path: Seq<char>,
    i: int,
    before: Exchange,
    after: Exchange,
)
    requires
        last_match_at(routes, method, path, i),
        routes_handle(routes, method, path, before, after),
    ensures
        exists|result: MiddlewareResult| #[trigger]
            routes[i].middleware.handles(before, after, result),
{
    // A route matches, so the fallback has not answered: the handler of a
    // last match has, and there is one last match only.
    let (k, result) = choose|k: int, result: MiddlewareResult|
        last_match_at(routes, method, path, k) && #[trigger] routes[k].middleware.handles(
            before,
            after,
            result,
        );
    lemma_last_match_is_one(routes, method, path, i, k);
}

/// At most one route is the last that is bound to a method and a path.
pub proof fn lemma_last_match_is_one<M: Middleware>(
    routes: Seq<Route<M>>,
    method: MethodView,
    path: Seq<char>,
    i: int,
    k: int,
)
    requires
        last_match_at(routes, method, path, i),
        last_match_at(routes, method, path, k),
    ensures
        i == k,
{
}

/// A request that came with a method and a path that no route is bound to
/// is answered by the fallback: the status is 404, the body is the
/// fallback's message, which is not empty, and the request and the headers
/// are as they were.
pub proof fn lemma_unmatched_is_not_found<M: Middleware>(
    routes: Seq<Route<M>>,
    method: MethodView,
    path: Seq<char>,
    before: Exchange,
    after: Exchange,
)
    requires
        no_match(routes, method, path),
        routes_handle(routes, method, path, before, after),
    ensures
        after.response.status_code == 404,
        after.response.body == Some(NOT_FOUND_BODY@),
        after.response.body.unwrap().len() > 0,
        after.response.file.is_none(),
        after.response.headers == before.response.headers,
        after.request == before.request,
{
    lemma_not_found_body();
}

/// An application answers a request for the method and path of a route
/// that no later route is bound to through the handler of that route, once,
/// and through no other: the global middleware run, and the handler takes
/// over what they leave.
pub proof fn lemma_dispatch_registered<M: Middleware>(
    routes: Seq<Route<M>>,
    chain: Seq<M>,
    request: RequestView,
    i: int,
    after: Exchange,
)
    requires
        last_match_at(routes, request.method, request.url, i),
        dispatches(routes, chain, request, after),
    ensures
        exists|between: Exchange, skipped: MiddlewareResult, result: MiddlewareResult|
            #![trigger
                chain_handles(chain, fresh(request), between, skipped),
                routes[i].middleware.handles(between, after, result),
            ]
            chain_handles(chain, fresh(request), between, skipped) && routes[i].middleware.handles(
                between,
                after,
                result,
            ),
{
    let (between, skipped) = choose|between: Exchange, skipped: MiddlewareResult| #[trigger]
        chain_handles(chain, fresh(request), between, skipped) && routes_handle(
            routes,
            request.method,
            request.url,
            between,
            after,
        );
    lemma_registered_route_handles(routes, request.method, request.url, i, between, after);
    let result = choose|result: MiddlewareResult| #[trigger]
        routes[i].middleware.handles(between, after, result);
    assert(chain_handles(chain, fresh(request), between, skipped)
        && routes[i].middleware.handles(between, after, result));
}

/// An application answers a request for a method and a path that no route
/// is bound to with the fallback: the status is 404, the body is the
/// fallback's message, which is not empty, and no handler of a route has a
/// part in the answer.
pub proof fn lemma_dispatch_unmatched<M: Middleware>(
    routes: Seq<Route<M>>,
    chain: Seq<M>,
    request: RequestView,
    after: Exchange,
)
    requires
        no_match(routes, request.method, request.url),
        dispatches(routes, chain, request, after),
    ensures
        after.response.status_code == 404,
        after.response.body == Some(NOT_FOUND_BODY@),
        after.response.body.unwrap().len() > 0,
        after.response.file.is_none(),
        exists|between: Exchange, skipped: MiddlewareResult| #[trigger]
            chain_handles(chain, fresh(request), between, skipped) && after == (Exchange {
                response: NotFound::answer(between.response),
                ..between
            }),
{
    let (between, skipped) = choose|between: Exchange, skipped: MiddlewareResult| #[trigger]
        chain_handles(chain, fresh(request), between, skipped) && routes_handle(
            routes,
            request.method,
            request.url,
            between,
            after,
        );
    lemma_unmatched_is_not_found(routes, request.method, request.url, between, after);
}

/// Whether every handler of `routes` leaves the headers of the response as
/// they were handed to it.
pub open spec fn handlers_keep_headers<M: Middleware>(routes: Seq<Route<M>>) -> bool {
    forall|i: int, before: Exchange, after: Exchange, result: MiddlewareResult|
        0 <= i < routes.len() && #[trigger] routes[i].middleware.handles(before, after, result)
            ==> after.response.headers == before.response.headers
}

/// A header that every run of the global middleware leaves on the response
/// is on the answer, with the value they gave it, where the handlers of
/// the routes keep the headers: whether a route is bound to the request or
/// the fallback answers. Nothing of the kind holds of a handler that puts
/// a new response in place of the one that it was handed.
pub proof fn lemma_dispatch_keeps_header<M: Middleware>(
    routes: Seq<Route<M>>,
    chain: Seq<M>,
    request: RequestView,
    after: Exchange,
    key: Seq<char>,
    value: Seq<char>,
)
    requires
        dispatches(routes, chain, request, after),
        handlers_keep_headers(routes),
        forall|between: Exchange, result: MiddlewareResult| #[trigger]
            chain_handles(chain, fresh(request), between, result)
                ==> between.response.header_map().contains_key(key)
                && between.response.header_map()[key] == value,
    ensures
        after.response.header_map().contains_key(key),
        after.response.header_map()[key] == value,
{
    let (between, skipped) = choose|between: Exchange, skipped: MiddlewareResult| #[trigger]
        chain_handles(chain, fresh(request), between, skipped) && routes_handle(
            routes,
            request.method,
            request.url,
            between,
            after,
        );
    assert(after.response.headers == between.response.headers);
}

/// Of two routes that are bound to the same method and path, the one that
/// was registered last is used: a route that is added is the match for its
/// method and path from then on, whatever was registered for them before.
pub proof fn lemma_last_registration_wins<M: Middleware>(
    before: Seq<Route<M>>,
    after: Seq<Route<M>>,
    method: MethodView,
    path: Seq<char>,
)
    requires
        extends(before, after),
        after.last().matches(method, path),
    ensures
        last_match_at(after, method, path, before.len() as int),
{
}

/// Once a handler is registered for a method and a path, an application
/// answers a request for them through that handler, whatever was
/// registered for them before.
pub proof fn lemma_registered_is_dispatched<M: Middleware>(
    before: Seq<Route<M>>,
    after: Seq<Route<M>>,
    middleware: M,
    chain: Seq<M>,
    request: RequestView,
    end: Exchange,
)
    requires
        registered(before, after, request.method, request.url, middleware),
        dispatches(after, chain, request, end),
    ensures
        exists|between: Exchange, skipped: MiddlewareResult, result: MiddlewareResult|
            #![trigger
                chain_handles(chain, fresh(request), between, skipped),
                middleware.handles(between, end, result),
            ]
            chain_handles(chain, fresh(request), between, skipped) && middleware.handles(
                between,
                end,
                result,
            ),
{
    lemma_last_registration_wins(before, after, request.method, request.url);
    lemma_dispatch_registered(after, chain, request, before.len() as int, end);
    assert(after[before.len() as int] == after.last());
}

/// A route that is added for another method or another path leaves the
/// match of a method and a path that had one where it was, and leaves
/// unmatched what was unmatched.
pub proof fn lemma_other_registration_keeps_match<M: Middleware>(
    before: Seq<Route<M>>,
    after: Seq<Route<M>>,
    method: MethodView,
    path: Seq<char>,
)
    requires
        extends(before, after),
        !after.last().matches(method, path),
    ensures
        forall|i: int|
            last_match_at(before, method, path, i) ==> last_match_at(after, method, path, i),
        no_match(before, method, path) ==> no_match(after, method, path),
{
    assert forall|j: int| 0 <= j < before.len() implies #[trigger] after[j] == before[j] by {
        assert(after.drop_last()[j] == after[j]);
    }
}

/// A Feather application.
pub struct App<M: Middleware> {
    config: AppConfig,
    routes: Vec<Route<M>>,
    middleware: Vec<M>,
}

impl<M: Middleware> App<M> {
    /// The number of worker threads that the application is configured with.
    pub closed spec fn threads(&self) -> usize {
        self.config.threads
    }

    /// The routes, in the order of their registration.
    pub closed spec fn routes(&self) -> Seq<Route<M>> {
        self.routes@
    }

    /// The global middleware, in the order of their registration.
    pub closed spec fn chain(&self) -> Seq<M> {
        self.middleware@
    }

    /// An application without routes and without global middleware.
    #[must_use]
    pub fn new(config: AppConfig) -> (app: App<M>)
        ensures
            app.threads() == config.threads,
            app.routes() == Seq::<Route<M>>::empty(),
            app.chain() == Seq::<M>::empty(),
    {
        App { config, routes: Vec::new(), middleware: Vec::new() }
    }

    /// The configuration that the application was made with.
    pub fn config(&self) -> (config: AppConfig)
        ensures
            config.threads == self.threads(),
    {
        self.config
    }

    /// Add a route to the application.
    pub fn route(&mut self, method: Method, path: String, middleware: M)
        ensures
            final(self).routes() == old(self).routes().push(Route { method, path, middleware }),
            final(self).chain() == old(self).chain(),
            final(self).threads() == old(self).threads(),
    {
        self.routes.push(Route { method, path, middleware });
    }

    /// Add a global middleware to the application that will be applied to all routes.
    pub fn use_middleware(&mut self, middleware: M)
        ensures
            final(self).chain() == old(self).chain().push(middleware),
            final(self).routes() == old(self).routes(),
            final(self).threads() == old(self).threads(),
    {
        self.middleware.push(middleware);
    }

    /// Add a route for `GET` requests to `path`.
    pub fn get(&mut self, path: &str, middleware: M)
        ensures
            registered(
                old(self).routes(),
                final(self).routes(),
                MethodView::Get,
                path@,
                middleware,
            ),
            final(self).chain() == old(self).chain(),
            final(self).threads() == old(self).threads(),
    {
        let ghost before = self.routes@;
        self.route(Method::Get, path.to_owned(), middleware);
        assert(self.routes@.drop_last() =~= before);
    }

    /// Add a route for `POST` requests to `path`.
    pub fn post(&mut self, path: &str, middleware: M)
        ensures
            registered(
                old(self).routes(),
                final(self).routes(),
                MethodView::Post,
                path@,
                middleware,
            ),
            final(self).chain() == old(self).chain(),
            final(self).threads() == old(self).threads(),
    {
        let ghost before = self.routes@;
        self.route(Method::Post, path.to_owned(), middleware);
        assert(self.routes@.drop_last() =~= before);
    }

    /// Add a route for `PUT` requests to `path`.
    pub fn put(&mut self, path: &str, middleware: M)
        ensures
            registered(
                old(self).routes(),
                final(self).routes(),
                MethodView::Put,
                path@,
                middleware,
            ),
            final(self).chain() == old(self).chain(),
            final(self).threads() == old(self).threads(),
    {
        let ghost before = self.routes@;
        self.route(Method::Put, path.to_owned(), middleware);
        assert(self.routes@.drop_last() =~= before);
    }

    /// Add a route for `DELETE` requests to `path`.
    pub fn delete(&mut self, path: &str, middleware: M)
        ensures
            registered(
                old(self).routes(),
                final(self).routes(),
                MethodView::Delete,
                path@,
                middleware,
            ),
            final(self).chain() == old(self).chain(),
            final(self).threads() == old(self).threads(),
    {
        let ghost before = self.routes@;
        self.route(Method::Delete, path.to_owned(), middleware);
        assert(self.routes@.drop_last() =~= before);
    }

    /// Add a route for `PATCH` requests to `path`.
    pub fn patch(&mut self, path: &str, middleware: M)
        ensures
            registered(
                old(self).routes(),
                final(self).routes(),
                MethodView::Patch,
                path@,
                middleware,
            ),
            final(self).chain() == old(self).chain(),
            final(self).threads() == old(self).threads(),
    {
        let ghost before = self.routes@;
        self.route(Method::Patch, path.to_owned(), middleware);
        assert(self.routes@.drop_last() =~= before);
    }

    /// Add a route for `HEAD` requests to `path`.
    pub fn head(&mut self, path: &str, middleware: M)
        ensures
            registered(
                old(self).routes(),
                final(self).routes(),
                MethodView::Head,
                path@,
                middleware,
            ),
            final(self).chain() == old(self).chain(),
            final(self).threads() == old(self).threads(),
    {
        let ghost before = self.routes@;
        self.route(Method::Head, path.to_owned(), middleware);
        assert(self.routes@.drop_last() =~= before);
    }

    /// Add a route for `OPTIONS` requests to `path`.
    pub fn options(&mut self, path: &str, middleware: M)
        ensures
            registered(
                old(self).routes(),
                final(self).routes(),
                MethodView::Options,
                path@,
                middleware,
            ),
            final(self).chain() == old(self).chain(),
            final(self).threads() == old(self).threads(),
    {
        let ghost before = self.routes@;
        self.route(Method::Options, path.to_owned(), middleware);
        assert(self.routes@.drop_last() =~= before);
    }

    /// The index of the route that was registered for `method` and `path`
    /// last, where there is one.
    pub fn find_route(routes: &[Route<M>], method: &Method, path: &str) -> (found: Option<usize>)
        ensures
            match found {
                Some(i) => last_match_at(routes@, method@, path@, i as int),
                None => no_match(routes@, method@, path@),
            },
    {
        let mut i: usize = routes.len();
        while i > 0
            invariant
                0 <= i <= routes@.len(),
                forall|j: int|
                    i <= j < routes@.len() ==> !(#[trigger] routes@[j]).matches(method@, path@),
            decreases i,
        {
            i = i - 1;
            if routes[i].method == *method && same_text(routes[i].path.as_str(), path) {
                return Some(i);
            }
        }
        None
    }

    /// Answer one request: choose the route by the method and the path of
    /// the request, run the global middleware on a fresh response until
    /// one of them skips to the route or none is left, then hand the
    /// request to the handler of the route, whose result is ignored, or to
    /// the fallback where no route was found.
    ///
    /// The handler is handed the response as the global middleware have
    /// left it. One that sets the status, the body or a header keeps the
    /// rest, so a header that a global middleware has set stays; one that
    /// puts a new response in place of the one it was handed drops all that
    /// the global middleware have set, their headers included. The
    /// fallback keeps the headers.
    pub fn run_middleware(
        request: &mut Request,
        routes: &[Route<M>],
        middleware: &[M],
    ) -> (response: Response)
        ensures
            dispatches(
                routes@,
                middleware@,
                old(request)@,
                exchange(*final(request), response),
            ),
    {
        let found = Self::find_route(routes, &request.method, request.url.as_str());
        let mut response = Response::default();
        let _ = middleware.handle(request, &mut response);
        match found {
            Some(i) => {
                let _ = routes[i].middleware.handle(request, &mut response);
            },
            None => {
                let _ = NotFound.handle(request, &mut response);
            },
        }
        response
    }

    /// Answer one request with the routes and the global middleware of the
    /// application.
    pub fn dispatch(&self, request: &mut Request) -> (response: Response)
        ensures
            dispatches(
                self.routes(),
                self.chain(),
                old(request)@,
                exchange(*final(request), response),
            ),
    {
        Self::run_middleware(request, self.routes.as_slice(), self.middleware.as_slice())
    }
}

} // verus!
