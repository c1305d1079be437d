//! The [`Middleware`] trait and some common middleware primitives.

use vstd::prelude::*;
use vstd::string::StringExecFns;
use vstd::utf8::is_ascii_chars;
use ascii::AsciiString;
use ascii::FromAsciiError;
use crate::request::Request;
use crate::request::RequestView;
use crate::response::Response;
use crate::response::ResponseView;
use crate::response::lemma_entries_set_map;

verus! {

/// What a middleware asks of the chain that called it.
#[derive(Debug, Clone, Copy, PartialEq, Eq, Structural)]
pub enum MiddlewareResult {
    /// Continue to the next middleware.
    Next,
    /// Skip all subsequent middleware and continue to the next route.
    NextRoute,
}

/// A request and the response to it, as they stand at one point of their
/// way through the middleware.
pub ghost struct Exchange {
    pub request: RequestView,
    pub response: ResponseView,
}

/// The exchange that `request` and `response` stand for.
pub open spec fn exchange(request: Request, response: Response) -> Exchange {
    Exchange { request: request@, response: response@ }
}

/// Common trait for all middleware types.
pub trait Middleware: Send + Sync {
    /// Whether the middleware may turn the exchange `before` into `after`
    /// and return `result`.
    ///
    /// An implementation that does not say otherwise may do anything.
    open spec fn handles(
        &self,
        before: Exchange,
        after: Exchange,
        result: MiddlewareResult,
    ) -> bool {
        true
    }

    /// Handle an incoming request by transforming it into a response.
    fn handle(&self, request: &mut Request, response: &mut Response) -> (result: MiddlewareResult)
        ensures
            self.handles(
                exchange(*old(request), *old(response)),
                exchange(*final(request), *final(response)),
                result,
            ),
    ;
}

/// Whether the middleware of `chain`, run in order and each returning
/// [`MiddlewareResult::Next`], may turn the exchange `before` into `after`.
pub open spec fn chain_passes<M: Middleware>(
    chain: Seq<M>,
    before: Exchange,
    after: Exchange,
) -> bool
    decreases chain.len(),
{
    if chain.len() == 0 {
        after == before
    } else {
        exists|between: Exchange|
            chain_passes(chain.drop_last(), before, between) && #[trigger] chain.last().handles(
                between,
                after,
                MiddlewareResult::Next,
            )
    }
}

/// Whether `chain`, run in order up to and including the first middleware
/// that returns [`MiddlewareResult::NextRoute`], may turn the exchange
/// `before` into `after` and return `result`.
pub open spec fn chain_handles<M: Middleware>(
    chain: Seq<M>,
    before: Exchange,
    after: Exchange,
    result: MiddlewareResult,
) -> bool {
    match result {
        MiddlewareResult::Next => chain_passes(chain, before, after),
        MiddlewareResult::NextRoute => exists|n: int, between: Exchange|
            0 <= n < chain.len() && chain_passes(chain.take(n), before, between)
                && #[trigger] chain[n].handles(between, after, MiddlewareResult::NextRoute),
    }
}

/// One more middleware that returns [`MiddlewareResult::Next`] extends a
/// run of the chain by one.
pub proof fn lemma_chain_passes_step<M: Middleware>(
    chain: Seq<M>,
    n: int,
    before: Exchange,
    between: Exchange,
    after: Exchange,
)
    requires
        0 <= n < chain.len(),
        chain_passes(chain.take(n), before, between),
        chain[n].handles(between, after, MiddlewareResult::Next),
    ensures
        chain_passes(chain.take(n + 1), before, after),
{
    assert(chain.take(n + 1).drop_last() =~= chain.take(n));
    assert(chain.take(n + 1).last() == chain[n]);
}

/// Middleware run in the order of the chain: a run of a chain is a run of
/// its first `n` middleware, followed by a run of the others on what the
/// first `n` have left.
pub proof fn lemma_chain_passes_split<M: Middleware>(
    chain: Seq<M>,
    n: int,
    before: Exchange,
    after: Exchange,
)
    requires
        0 <= n <= chain.len(),
        chain_passes(chain, before, after),
    ensures
        exists|between: Exchange|
            chain_passes(chain.take(n), before, between) && #[trigger] chain_passes(
                chain.skip(n),
                between,
                after,
            ),
    decreases chain.len(),
{
    if n == chain.len() {
        assert(chain.take(n) =~= chain);
        assert(chain_passes(chain.skip(n), after, after));
    } else {
        let shorter = chain.drop_last();
        let last = choose|last: Exchange|
            chain_passes(shorter, before, last) && #[trigger] chain.last().handles(
                last,
                after,
                MiddlewareResult::Next,
            );
        lemma_chain_passes_split(shorter, n, before, last);
        let between = choose|between: Exchange|
            chain_passes(shorter.take(n), before, between) && #[trigger] chain_passes(
                shorter.skip(n),
                between,
                last,
            );
        assert(shorter.take(n) =~= chain.take(n));
        assert(chain.skip(n).drop_last() =~= shorter.skip(n));
        assert(chain.skip(n).last() == chain.last());
        assert(chain_passes(chain.skip(n), between, after));
    }
}

/// A run of one chain followed by a run of another, on what the first has
/// left, is a run of the two chains joined.
pub proof fn lemma_chain_passes_join<M: Middleware>(
    first: Seq<M>,
    rest: Seq<M>,
    before: Exchange,
    between: Exchange,
    after: Exchange,
)
    requires
        chain_passes(first, before, between),
        chain_passes(rest, between, after),
    ensures
        chain_passes(first + rest, before, after),
    decreases rest.len(),
{
    if rest.len() == 0 {
        assert(first + rest =~= first);
    } else {
        let last = choose|last: Exchange|
            chain_passes(rest.drop_last(), between, last) && #[trigger] rest.last().handles(
                last,
                after,
                MiddlewareResult::Next,
            );
        lemma_chain_passes_join(first, rest.drop_last(), before, between, last);
        assert((first + rest).drop_last() =~= first + rest.drop_last());
        assert((first + rest).last() == rest.last());
    }
}

impl<M: Middleware> Middleware for [M] {
    open spec fn handles(
        &self,
        before: Exchange,
        after: Exchange,
        result: MiddlewareResult,
    ) -> bool {
        chain_handles(self@, before, after, result)
    }

    /// Run the middleware in order. The first that returns
    /// [`MiddlewareResult::NextRoute`] ends the run, which then returns
    /// `NextRoute` too.
    fn handle(&self, request: &mut Request, response: &mut Response) -> (result: MiddlewareResult) {
        let ghost before = exchange(*request, *response);
        let mut i: usize = 0;
        while i < self.len()
            invariant
                0 <= i <= self@.len(),
                before == exchange(*old(request), *old(response)),
                chain_passes(self@.take(i as int), before, exchange(*request, *response)),
            decreases self@.len() - i,
        {
            let ghost between = exchange(*request, *response);
            let result = self[i].handle(request, response);
            match result {
                MiddlewareResult::NextRoute => {
                    return MiddlewareResult::NextRoute;
                },
                MiddlewareResult::Next => {
                    proof {
                        lemma_chain_passes_step(
                            self@,
                            i as int,
                            before,
                            between,
                            exchange(*request, *response),
                        );
                    }
                },
            }
            i = i + 1;
        }
        assert(self@.take(i as int) =~= self@);
        MiddlewareResult::Next
    }
}

/// A middleware of one of two kinds. With it an application holds
/// middleware of several kinds, and each of them does what its own kind
/// does.
#[derive(Debug)]
pub enum Either<A: Middleware, B: Middleware> {
    Left(A),
    Right(B),
}

impl<A: Middleware, B: Middleware> Middleware for Either<A, B> {
    open spec fn handles(
        &self,
        before: Exchange,
        after: Exchange,
        result: MiddlewareResult,
    ) -> bool {
        match self {
            Either::Left(middleware) => middleware.handles(before, after, result),
            Either::Right(middleware) => middleware.handles(before, after, result),
        }
    }

    fn handle(&self, request: &mut Request, response: &mut Response) -> (result: MiddlewareResult) {
        match self {
            Either::Left(middleware) => middleware.handle(request, response),
            Either::Right(middleware) => middleware.handle(request, response),
        }
    }
}

/// The record that [`Logger`] writes for `request`: the method's token and
/// the requested path.
pub open spec fn log_line(request: RequestView) -> Seq<char> {
    "Request: "@ + request.method.token() + " "@ + request.url
}

/// Log incoming requests and transparently pass them to the next middleware.
#[derive(Clone, Copy, Debug)]
pub struct Logger;

impl Middleware for Logger {
    open spec fn handles(
        &self,
        before: Exchange,
        after: Exchange,
        result: MiddlewareResult,
    ) -> bool {
        &&& after.request == (RequestView {
            log: before.request.log.push(log_line(before.request)),
            ..before.request
        })
        &&& after.response == before.response
        &&& result == MiddlewareResult::Next
    }

    /// Append the record of the request to the request's log.
    fn handle(&self, request: &mut Request, response: &mut Response) -> (result: MiddlewareResult) {
        let mut line = String::from_str("Request: ");
        line.append(request.method.as_str());
        line.append(" ");
        line.append(request.url.as_str());
        let ghost log_before = request.log.deep_view();
        request.log.push(line);
        assert(request.log.deep_view() =~= log_before.push(log_line(old(request)@)));
        MiddlewareResult::Next
    }
}

/// `ascii::FromAsciiError`, as a type that is carried through.
#[verifier::external_type_specification]
#[verifier::external_body]
#[verifier::reject_recursive_types(O)]
pub struct ExFromAsciiError<O>(FromAsciiError<O>);

/// `ascii::AsciiString::from_ascii`, with the checked text handed back as a
/// `String`. The contract claims what the crate documents: the call
/// succeeds exactly on text whose characters are all ASCII, and the text
/// that comes back is the text that went in.
#[verifier::external_body]
fn ascii_text(text: String) -> (checked: Result<String, FromAsciiError<String>>)
    ensures
        checked.is_ok() == is_ascii_chars(text@),
        checked matches Ok(same) ==> same@ == text@,
{
    AsciiString::from_ascii(text).map(String::from)
}

/// The name of the header that [`Cors`] sets.
pub const ALLOW_ORIGIN: &'static str = "Access-Control-Allow-Origin";

/// The value that [`Cors`] sets where no origin is configured.
pub const ANY_ORIGIN: &'static str = "*";

/// An origin that [`Cors::new`] refuses, because it holds a character
/// outside ASCII.
#[derive(Debug)]
pub struct OriginError {
    pub origin: String,
}

/// Add [CORS] headers to the response.
///
/// [CORS]: https://developer.mozilla.org/en-US/docs/Web/HTTP/Guides/CORS
#[derive(Debug)]
pub struct Cors(Option<String>);

impl Clone for Cors {
    fn clone(&self) -> (copy: Cors)
        ensures
            copy.origin() == self.origin(),
    {
        match &self.0 {
            Some(origin) => Cors(Some(origin.clone())),
            None => Cors(None),
        }
    }
}

impl Default for Cors {
    /// A middleware that allows any origin.
    fn default() -> (cors: Cors)
        ensures
            cors.origin().is_none(),
    {
        Cors(None)
    }
}

impl Cors {
    /// The origin that the middleware was made with.
    pub closed spec fn origin(&self) -> Option<Seq<char>> {
        match self.0 {
            Some(origin) => Some(origin@),
            None => None,
        }
    }

    /// The value that the middleware gives the header.
    pub open spec fn allowed_origin(&self) -> Seq<char> {
        match self.origin() {
            Some(origin) => origin,
            None => ANY_ORIGIN@,
        }
    }

    /// Create a new middleware that adds CORS headers with the given origin.
    ///
    /// # Errors
    ///
    /// Returns an error if the given string is not valid ASCII.
    pub fn new(origin: String) -> (result: Result<Cors, OriginError>)
        ensures
            match result {
                Ok(cors) => is_ascii_chars(origin@) && cors.origin() == Some(origin@),
                Err(error) => !is_ascii_chars(origin@) && error.origin@ == origin@,
            },
    {
        let refused = origin.clone();
        match ascii_text(origin) {
            Ok(checked) => Ok(Cors(Some(checked))),
            Err(_) => Err(OriginError { origin: refused }),
        }
    }
}

impl Middleware for Cors {
    open spec fn handles(
        &self,
        before: Exchange,
        after: Exchange,
        result: MiddlewareResult,
    ) -> bool {
        &&& after.request == before.request
        &&& after.response == before.response.with_header(ALLOW_ORIGIN@, self.allowed_origin())
        &&& result == MiddlewareResult::Next
    }

    /// Set the header that names the allowed origin.
    fn handle(&self, request: &mut Request, response: &mut Response) -> (result: MiddlewareResult) {
        match &self.0 {
            Some(origin) => {
                response.with_header(ALLOW_ORIGIN, origin.as_str());
            },
            None => {
                response.with_header(ALLOW_ORIGIN, ANY_ORIGIN);
            },
        }
        MiddlewareResult::Next
    }
}

/// Whatever the response was, it names the allowed origin once [`Cors`]
/// has handled it, and is otherwise as it was.
pub proof fn lemma_cors_names_origin(
    cors: Cors,
    before: Exchange,
    after: Exchange,
    result: MiddlewareResult,
)
    requires
        cors.handles(before, after, result),
    ensures
        after.response.header_map() == before.response.header_map().insert(
            ALLOW_ORIGIN@,
            cors.allowed_origin(),
        ),
        after.response.header_map().contains_key(ALLOW_ORIGIN@),
        after.response.header_map()[ALLOW_ORIGIN@] == cors.allowed_origin(),
        after.response.status_code == before.response.status_code,
        after.response.body == before.response.body,
        after.response.file == before.response.file,
        after.request == before.request,
        result == MiddlewareResult::Next,
{
    lemma_entries_set_map(before.response.headers, ALLOW_ORIGIN@, cors.allowed_origin());
}

/// The body of the response to a request that no route matches.
pub const NOT_FOUND_BODY: &'static str = "404 Not Found";

/// The fallback for requests that no route matches: it answers with status
/// 404 and a body that says so, in place of any status, body or file that
/// the response held, and keeps the headers.
#[derive(Clone, Copy, Debug)]
pub struct NotFound;

impl NotFound {
    /// The response that the fallback makes of `response`.
    pub open spec fn answer(response: ResponseView) -> ResponseView {
        response.with_status(404).with_body(NOT_FOUND_BODY@)
    }
}

impl Middleware for NotFound {
    open spec fn handles(
        &self,
        before: Exchange,
        after: Exchange,
        result: MiddlewareResult,
    ) -> bool {
        &&& after.request == before.request
        &&& after.response == NotFound::answer(before.response)
        &&& result == MiddlewareResult::Next
    }

    fn handle(&self, request: &mut Request, response: &mut Response) -> (result: MiddlewareResult) {
        response.with_status(Response::NOT_FOUND).with_body(NOT_FOUND_BODY);
        MiddlewareResult::Next
    }
}

/// The body of the fallback's answer is not empty.
pub proof fn lemma_not_found_body()
    ensures
        NOT_FOUND_BODY@.len() == 13,
{
    reveal_strlit("404 Not Found");
}

} // verus!
