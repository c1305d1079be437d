use feather::middleware::Cors;
use feather::middleware::Either;
use feather::middleware::Logger;
use feather::middleware::Middleware;
use feather::middleware::MiddlewareResult;
use feather::middleware::NotFound;
use feather::middleware::ALLOW_ORIGIN;
use feather::middleware::ANY_ORIGIN;
use feather::middleware::NOT_FOUND_BODY;
use feather::response::FileSource;
use feather::Method;
use feather::Request;
use feather::Response;

struct Tag(&'static str);

impl Middleware for Tag {
    fn handle(&self, request: &mut Request, _response: &mut Response) -> MiddlewareResult {
        request.log.push(String::from(self.0));
        MiddlewareResult::Next
    }
}

struct Skip(&'static str);

impl Middleware for Skip {
    fn handle(&self, request: &mut Request, _response: &mut Response) -> MiddlewareResult {
        request.log.push(String::from(self.0));
        MiddlewareResult::NextRoute
    }
}

enum Step {
    Tag(Tag),
    Skip(Skip),
}

impl Middleware for Step {
    fn handle(&self, request: &mut Request, response: &mut Response) -> MiddlewareResult {
        match self {
            Step::Tag(tag) => tag.handle(request, response),
            Step::Skip(skip) => skip.handle(request, response),
        }
    }
}

#[test]
fn logger_records_method_and_path() {
    let mut request = Request::new(Method::Get, "/");
    let mut response = Response::default();
    let result = Logger.handle(&mut request, &mut response);
    assert_eq!(result, MiddlewareResult::Next);
    assert_eq!(request.log, vec![String::from("Request: GET /")]);
    assert_eq!(response.status_code(), 200);
    assert_eq!(response.body(), None);
    assert!(response.headers().is_empty());
}

#[test]
fn logger_records_each_token() {
    let methods = vec![
        (Method::Get, "GET"),
        (Method::Head, "HEAD"),
        (Method::Post, "POST"),
        (Method::Put, "PUT"),
        (Method::Delete, "DELETE"),
        (Method::Connect, "CONNECT"),
        (Method::Options, "OPTIONS"),
        (Method::Trace, "TRACE"),
        (Method::Patch, "PATCH"),
        (Method::NonStandard(String::from("PURGE")), "PURGE"),
    ];
    for (method, token) in methods {
        assert_eq!(method.as_str(), token);
        let mut request = Request::new(method, "/a/b?c=d");
        let mut response = Response::default();
        Logger.handle(&mut request, &mut response);
        assert_eq!(request.log, vec![format!("Request: {} /a/b?c=d", token)]);
    }
}

#[test]
fn logger_appends_to_an_earlier_log() {
    let mut request = Request::new(Method::Post, "/items");
    request.log.push(String::from("earlier"));
    let mut response = Response::ok("kept");
    Logger.handle(&mut request, &mut response);
    assert_eq!(request.log, vec![String::from("earlier"), String::from("Request: POST /items")]);
    assert_eq!(response.body(), Some("kept"));
}

#[test]
fn cors_sets_the_configured_origin() {
    let cors = Cors::new(String::from("https://example.com")).unwrap();
    let mut request = Request::new(Method::Get, "/");
    let mut response = Response::ok("Hello");
    let result = cors.handle(&mut request, &mut response);
    assert_eq!(result, MiddlewareResult::Next);
    assert_eq!(response.header("Access-Control-Allow-Origin"), Some("https://example.com"));
    assert_eq!(response.status_code(), 200);
    assert_eq!(response.body(), Some("Hello"));
    assert!(request.log.is_empty());
}

#[test]
fn cors_default_allows_any_origin() {
    assert_eq!(ALLOW_ORIGIN, "Access-Control-Allow-Origin");
    assert_eq!(ANY_ORIGIN, "*");
    let mut request = Request::new(Method::Get, "/");
    let mut response = Response::default();
    Cors::default().handle(&mut request, &mut response);
    assert_eq!(response.header(ALLOW_ORIGIN), Some("*"));
}

#[test]
fn cors_overwrites_an_earlier_origin() {
    let mut request = Request::new(Method::Get, "/");
    let mut response = Response::default();
    response.with_header(ALLOW_ORIGIN, "https://old.example");
    Cors::new(String::from("https://new.example")).unwrap().handle(&mut request, &mut response);
    assert_eq!(response.header(ALLOW_ORIGIN), Some("https://new.example"));
    assert_eq!(response.headers().len(), 1);
}

#[test]
fn cors_refuses_an_origin_outside_ascii() {
    let error = Cors::new(String::from("https://exämple.com")).unwrap_err();
    assert_eq!(error.origin, "https://exämple.com");
}

#[test]
fn cors_accepts_the_empty_origin() {
    let cors = Cors::new(String::new()).unwrap();
    let mut request = Request::new(Method::Get, "/");
    let mut response = Response::default();
    cors.handle(&mut request, &mut response);
    assert_eq!(response.header(ALLOW_ORIGIN), Some(""));
}

#[test]
fn not_found_answers_404_and_keeps_headers() {
    let mut request = Request::new(Method::Get, "/missing");
    let mut response = Response::from_file(200, FileSource { path: String::from("a.txt") });
    response.with_header("X-Kept", "yes");
    let result = NotFound.handle(&mut request, &mut response);
    assert_eq!(result, MiddlewareResult::Next);
    assert_eq!(NOT_FOUND_BODY, "404 Not Found");
    assert_eq!(response.status_code(), 404);
    assert_eq!(response.body(), Some("404 Not Found"));
    assert!(!response.is_file());
    assert_eq!(response.header("X-Kept"), Some("yes"));
    assert!(request.log.is_empty());
}

#[test]
fn empty_chain_changes_nothing() {
    let chain: Vec<Step> = Vec::new();
    let mut request = Request::new(Method::Get, "/");
    let mut response = Response::ok("Hello");
    let result = chain.as_slice().handle(&mut request, &mut response);
    assert_eq!(result, MiddlewareResult::Next);
    assert!(request.log.is_empty());
    assert_eq!(response.body(), Some("Hello"));
}

#[test]
fn chain_runs_in_order() {
    let chain = vec![Step::Tag(Tag("A")), Step::Tag(Tag("B")), Step::Tag(Tag("C"))];
    let mut request = Request::new(Method::Get, "/");
    let mut response = Response::default();
    let result = chain.as_slice().handle(&mut request, &mut response);
    assert_eq!(result, MiddlewareResult::Next);
    assert_eq!(request.log, vec![String::from("A"), String::from("B"), String::from("C")]);
}

#[test]
fn chain_stops_at_next_route() {
    let chain = vec![Step::Tag(Tag("A")), Step::Skip(Skip("B")), Step::Tag(Tag("C"))];
    let mut request = Request::new(Method::Get, "/");
    let mut response = Response::default();
    let result = chain.as_slice().handle(&mut request, &mut response);
    assert_eq!(result, MiddlewareResult::NextRoute);
    assert_eq!(request.log, vec![String::from("A"), String::from("B")]);
}

#[test]
fn methods_compare_by_variant_and_token() {
    assert_eq!(Method::Get, Method::Get);
    assert_ne!(Method::Get, Method::Head);
    assert_ne!(Method::Post, Method::Put);
    let purge = Method::NonStandard(String::from("PURGE"));
    assert_eq!(purge, Method::NonStandard(String::from("PURGE")));
    assert_ne!(purge, Method::NonStandard(String::from("purge")));
    assert_ne!(Method::NonStandard(String::from("GET")), Method::Get);
    assert_eq!(purge.clone(), purge);
    assert_eq!(Method::Patch.clone(), Method::Patch);
}

#[test]
fn cors_clone_keeps_the_origin() {
    let cors = Cors::new(String::from("https://example.com")).unwrap();
    let copy = cors.clone();
    let mut request = Request::new(Method::Get, "/");
    let mut response = Response::default();
    copy.handle(&mut request, &mut response);
    assert_eq!(response.header(ALLOW_ORIGIN), Some("https://example.com"));
    let mut response = Response::default();
    Cors::default().clone().handle(&mut request, &mut response);
    assert_eq!(response.header(ALLOW_ORIGIN), Some("*"));
}

#[test]
fn new_request_is_bare() {
    let request = Request::new(Method::Put, "/things/1");
    assert_eq!(request.method, Method::Put);
    assert_eq!(request.url, "/things/1");
    assert!(request.headers.is_empty());
    assert!(request.body.is_empty());
    assert!(request.log.is_empty());
}

#[test]
fn either_does_what_its_kind_does() {
    let chain: Vec<Either<Logger, Either<Cors, Tag>>> = vec![
        Either::Left(Logger),
        Either::Right(Either::Left(Cors::default())),
        Either::Right(Either::Right(Tag("tag"))),
    ];
    let mut request = Request::new(Method::Get, "/");
    let mut response = Response::default();
    let result = chain.as_slice().handle(&mut request, &mut response);
    assert_eq!(result, MiddlewareResult::Next);
    assert_eq!(request.log, vec![String::from("Request: GET /"), String::from("tag")]);
    assert_eq!(response.header(ALLOW_ORIGIN), Some("*"));
    let skip: Either<Skip, Logger> = Either::Left(Skip("skip"));
    assert_eq!(skip.handle(&mut request, &mut response), MiddlewareResult::NextRoute);
    assert_eq!(request.log.len(), 3);
}
