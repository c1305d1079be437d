//! A minimal synchronous HTTP serving layer.
//!
//! An [`App`] holds routes and global middleware. It answers a request in
//! two steps. First the global middleware run on the request and a fresh
//! [`Response`], in the order of their registration; one that returns
//! [`MiddlewareResult::NextRoute`] ends this step early. Then the request
//! goes to the handler of the route that is bound to its method and path,
//! or, where no route is, to a fallback that answers with status 404.
//!
//! The route is chosen by the method and the path with which the request
//! came. Both are compared exactly: nothing is split off a path and nothing
//! is normalised. Of two routes for the same method and path, the one that
//! was registered last is used: a later registration takes the place of an
//! earlier one. Header names are compared exactly too, case included, and a
//! header that is set again is overwritten.
//!
//! An application holds middleware of one type. [`middleware::Either`]
//! makes one type of two, so that an application can hold middleware of
//! several kinds, each with the contract of its own kind.
//!
//! The library works on plain values and leaves sockets, threads and files
//! to the program around it. For that program [`server::ServerLoop`] decides
//! what the server loop does next, and [`Response::into_outgoing`] makes of a
//! response what is handed to the transport, `tiny_http`.
//!
//! Every function carries a contract over the mathematical values of what
//! it takes and returns: [`request::RequestView`] for a request and
//! [`response::ResponseView`] for a response. What a middleware does is a
//! relation between the exchange before and after it,
//! [`Middleware::handles`]; what an application does with a request is built
//! from these relations, in [`app::dispatches`].
//!
//! [`MiddlewareResult::NextRoute`]: middleware::MiddlewareResult::NextRoute

pub mod app;
pub mod method;
pub mod middleware;
pub mod request;
pub mod response;
pub mod server;
pub mod text;
pub mod transport;
pub mod wire;

pub use crate::app::App;
pub use crate::app::AppConfig;
pub use crate::method::Method;
pub use crate::middleware::Middleware;
pub use crate::request::Request;
pub use crate::response::FileSource;
pub use crate::response::Response;
