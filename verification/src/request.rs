//! The request that passes through the middleware chain.

use vstd::prelude::*;
use crate::method::Method;
use crate::method::MethodView;
use crate::response::Entries;

verus! {

/// An incoming request, as plain values.
///
/// Routing reads `method` and `url` only. The whole value is handed to each
/// middleware by exclusive reference, and `log` collects the diagnostic
/// records that middleware write while the request is handled.
#[derive(Debug)]
pub struct Request {
    pub method: Method,
    /// The request target as received: no part of it is split off or
    /// normalised.
    pub url: String,
    pub headers: Vec<(String, String)>,
    pub body: Vec<u8>,
    pub log: Vec<String>,
}

/// The mathematical value of a [`Request`].
pub ghost struct RequestView {
    pub method: MethodView,
    pub url: Seq<char>,
    pub headers: Entries,
    pub body: Seq<u8>,
    pub log: Seq<Seq<char>>,
}

impl View for Request {
    type V = RequestView;

    open spec fn view(&self) -> RequestView {
        RequestView {
            method: self.method@,
            url: self.url@,
            headers: self.headers.deep_view(),
            body: self.body@,
            log: self.log.deep_view(),
        }
    }
}

impl Request {
    /// A request for `url` with the given method, without headers or body,
    /// and with an empty log.
    pub fn new(method: Method, url: &str) -> (request: Request)
        ensures
            request@ == (RequestView {
                method: method@,
                url: url@,
                headers: Seq::empty(),
                body: Seq::empty(),
                log: Seq::empty(),
            }),
    {
        let request = Request {
            method,
            url: url.to_owned(),
            headers: Vec::new(),
            body: Vec::new(),
            log: Vec::new(),
        };
        assert(request.headers.deep_view() =~= Seq::empty());
        assert(request.log.deep_view() =~= Seq::empty());
        request
    }
}

} // verus!
