//! HTTP request methods.

use vstd::prelude::*;

verus! {

/// An HTTP request method.
#[derive(Debug)]
pub enum Method {
    Get,
    Head,
    Post,
    Put,
    Delete,
    Connect,
    Options,
    Trace,
    Patch,
    /// A method token outside the standard set.
    NonStandard(String),
}

/// The mathematical value of a [`Method`].
pub ghost enum MethodView {
    Get,
    Head,
    Post,
    Put,
    Delete,
    Connect,
    Options,
    Trace,
    Patch,
    NonStandard(Seq<char>),
}

impl View for Method {
    type V = MethodView;

    open spec fn view(&self) -> MethodView {
        match self {
            Method::Get => MethodView::Get,
            Method::Head => MethodView::Head,
            Method::Post => MethodView::Post,
            Method::Put => MethodView::Put,
            Method::Delete => MethodView::Delete,
            Method::Connect => MethodView::Connect,
            Method::Options => MethodView::Options,
            Method::Trace => MethodView::Trace,
            Method::Patch => MethodView::Patch,
            Method::NonStandard(token) => MethodView::NonStandard(token@),
        }
    }
}

impl MethodView {
    /// The token that stands for the method on the wire.
    pub open spec fn token(self) -> Seq<char> {
        match self {
            MethodView::Get => "GET"@,
            MethodView::Head => "HEAD"@,
            MethodView::Post => "POST"@,
            MethodView::Put => "PUT"@,
            MethodView::Delete => "DELETE"@,
            MethodView::Connect => "CONNECT"@,
            MethodView::Options => "OPTIONS"@,
            MethodView::Trace => "TRACE"@,
            MethodView::Patch => "PATCH"@,
            MethodView::NonStandard(token) => token,
        }
    }
}

impl Method {
    /// The token that stands for the method on the wire.
    pub fn as_str(&self) -> (token: &str)
        ensures
            token@ == self@.token(),
    {
        match self {
            Method::Get => "GET",
            Method::Head => "HEAD",
            Method::Post => "POST",
            Method::Put => "PUT",
            Method::Delete => "DELETE",
            Method::Connect => "CONNECT",
            Method::Options => "OPTIONS",
            Method::Trace => "TRACE",
            Method::Patch => "PATCH",
            Method::NonStandard(token) => token.as_str(),
        }
    }
}

impl Clone for Method {
    fn clone(&self) -> (copy: Method)
        ensures
            copy@ == self@,
    {
        match self {
            Method::Get => Method::Get,
            Method::Head => Method::Head,
            Method::Post => Method::Post,
            Method::Put => Method::Put,
            Method::Delete => Method::Delete,
            Method::Connect => Method::Connect,
            Method::Options => Method::Options,
            Method::Trace => Method::Trace,
            Method::Patch => Method::Patch,
            Method::NonStandard(token) => Method::NonStandard(token.clone()),
        }
    }
}

impl PartialEq for Method {
    /// Two methods are equal where they are the same standard method, or
    /// two non-standard methods with the same token.
    fn eq(&self, other: &Method) -> (equal: bool) {
        match self {
            Method::Get => matches!(other, Method::Get),
            Method::Head => matches!(other, Method::Head),
            Method::Post => matches!(other, Method::Post),
            Method::Put => matches!(other, Method::Put),
            Method::Delete => matches!(other, Method::Delete),
            Method::Connect => matches!(other, Method::Connect),
            Method::Options => matches!(other, Method::Options),
            Method::Trace => matches!(other, Method::Trace),
            Method::Patch => matches!(other, Method::Patch),
            Method::NonStandard(a) => match other {
                Method::NonStandard(b) => *a == *b,
                _ => false,
            },
        }
    }
}

impl vstd::std_specs::cmp::PartialEqSpecImpl for Method {
    open spec fn obeys_eq_spec() -> bool {
        true
    }

    open spec fn eq_spec(&self, other: &Method) -> bool {
        self@ == other@
    }
}

impl Eq for Method {}

} // verus!
