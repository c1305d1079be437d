use feather::response::FileSource;
use feather::Response;

fn index_file() -> FileSource {
    FileSource { path: String::from("static/index.html") }
}

#[test]
fn default_response_is_empty_ok() {
    let response = Response::default();
    assert_eq!(response.status_code(), 200);
    assert_eq!(response.body(), None);
    assert!(response.file().is_none());
    assert!(!response.is_file());
    assert!(response.headers().is_empty());
}

#[test]
fn status_constants() {
    assert_eq!(Response::OK, 200);
    assert_eq!(Response::NOT_FOUND, 404);
}

#[test]
fn new_sets_status_and_body() {
    let response = Response::new(201, "created");
    assert_eq!(response.status_code(), 201);
    assert_eq!(response.body(), Some("created"));
    assert!(response.file().is_none());
    assert!(response.headers().is_empty());
}

#[test]
fn ok_is_status_200() {
    let response = Response::ok("Hello");
    assert_eq!(response.status_code(), 200);
    assert_eq!(response.body(), Some("Hello"));
}

#[test]
fn from_file_holds_the_file_only() {
    let response = Response::from_file(206, index_file());
    assert_eq!(response.status_code(), 206);
    assert_eq!(response.body(), None);
    assert!(response.is_file());
    assert_eq!(response.file().map(|file| file.path.as_str()), Some("static/index.html"));
}

#[test]
fn file_after_body_leaves_the_file_only() {
    let mut response = Response::default();
    response.with_body("text");
    response.with_file(index_file());
    assert_eq!(response.body(), None);
    assert!(response.is_file());
    assert_eq!(response.file().map(|file| file.path.as_str()), Some("static/index.html"));
}

#[test]
fn body_after_file_leaves_the_body_only() {
    let mut response = Response::from_file(200, index_file());
    response.with_body("text");
    assert_eq!(response.body(), Some("text"));
    assert!(!response.is_file());
    assert!(response.file().is_none());
}

#[test]
fn mutators_chain() {
    let mut response = Response::default();
    response.with_status(418).with_body("teapot").with_header("X-Kind", "pot");
    assert_eq!(response.status_code(), 418);
    assert_eq!(response.body(), Some("teapot"));
    assert_eq!(response.header("X-Kind"), Some("pot"));
}

#[test]
fn with_status_keeps_the_rest() {
    let mut response = Response::ok("Hello");
    response.with_header("A", "1");
    response.with_status(500);
    assert_eq!(response.status_code(), 500);
    assert_eq!(response.body(), Some("Hello"));
    assert_eq!(response.header("A"), Some("1"));
}

#[test]
fn header_last_write_wins() {
    let mut response = Response::default();
    response.with_header("Content-Language", "en");
    response.with_header("X-Other", "x");
    response.with_header("Content-Language", "fr");
    assert_eq!(response.header("Content-Language"), Some("fr"));
    assert_eq!(response.header("X-Other"), Some("x"));
    assert_eq!(
        response.headers(),
        &vec![
            (String::from("Content-Language"), String::from("fr")),
            (String::from("X-Other"), String::from("x")),
        ]
    );
}

#[test]
fn header_names_are_case_sensitive() {
    let mut response = Response::default();
    response.with_header("X-Token", "upper");
    response.with_header("x-token", "lower");
    assert_eq!(response.header("X-Token"), Some("upper"));
    assert_eq!(response.header("x-token"), Some("lower"));
    assert_eq!(response.header("X-TOKEN"), None);
    assert_eq!(response.headers().len(), 2);
}

#[test]
fn missing_header_is_none() {
    let response = Response::ok("Hello");
    assert_eq!(response.header("Content-Type"), None);
}

#[test]
fn empty_header_name_and_value_are_kept() {
    let mut response = Response::default();
    response.with_header("", "");
    assert_eq!(response.header(""), Some(""));
    assert_eq!(response.headers().len(), 1);
}
