use feather::response::FileSource;
use feather::text::same_text;
use feather::wire::find_non_ascii;
use feather::wire::Outgoing;
use feather::Response;

fn sent_headers<R: std::io::Read>(response: &tiny_http::Response<R>) -> Vec<(String, String)> {
    response
        .headers()
        .iter()
        .map(|header| (header.field.as_str().to_string(), header.value.to_string()))
        .collect()
}

fn pair(name: &str, value: &str) -> (String, String) {
    (String::from(name), String::from(value))
}

#[test]
fn text_response_carries_status_body_and_headers() {
    let mut response = Response::new(201, "héllo");
    response.with_header("X-First", "1").with_header("X-Second", "2");
    assert!(response.has_ascii_headers());
    let sent = response.into_tiny_http_cursor();
    assert_eq!(sent.status_code().0, 201);
    assert_eq!(sent.data_length(), Some(6));
    assert_eq!(
        sent_headers(&sent),
        vec![
            pair("Content-Type", "text/plain; charset=UTF-8"),
            pair("X-First", "1"),
            pair("X-Second", "2"),
        ]
    );
    assert_eq!(sent.into_reader().into_inner(), "héllo".as_bytes().to_vec());
}

#[test]
fn text_response_without_headers() {
    let sent = Response::ok("Hello").into_tiny_http_cursor();
    assert_eq!(sent.status_code().0, 200);
    assert_eq!(sent_headers(&sent), vec![pair("Content-Type", "text/plain; charset=UTF-8")]);
    assert_eq!(sent.into_reader().into_inner(), b"Hello".to_vec());
}

#[test]
fn content_type_overwrites_the_default() {
    let mut response = Response::ok("{}");
    response.with_header("content-type", "application/json");
    let sent = response.into_tiny_http_cursor();
    assert_eq!(sent_headers(&sent), vec![pair("Content-Type", "application/json")]);
}

#[test]
fn reserved_headers_are_not_sent() {
    let mut response = Response::ok("Hello");
    response
        .with_header("Connection", "close")
        .with_header("trailer", "x")
        .with_header("Transfer-Encoding", "chunked")
        .with_header("UPGRADE", "h2c")
        .with_header("Content-Length", "3")
        .with_header("X-Kept", "yes");
    let sent = response.into_tiny_http_cursor();
    assert_eq!(
        sent_headers(&sent),
        vec![pair("Content-Type", "text/plain; charset=UTF-8"), pair("X-Kept", "yes")]
    );
    assert_eq!(sent.into_reader().into_inner(), b"Hello".to_vec());
}

#[test]
fn empty_body_is_sent_as_no_bytes() {
    let sent = Response::new(204, "").into_tiny_http_cursor();
    assert_eq!(sent.status_code().0, 204);
    assert_eq!(sent.into_reader().into_inner(), Vec::<u8>::new());
}

#[test]
fn headers_outside_ascii_are_told_apart() {
    let mut response = Response::ok("Hello");
    assert!(response.has_ascii_headers());
    response.with_header("X-Name", "plain");
    assert!(response.has_ascii_headers());
    response.with_header("X-Name", "naïve");
    assert!(!response.has_ascii_headers());
    response.with_header("X-Name", "plain");
    assert!(response.has_ascii_headers());
    response.with_header("X-Ünit", "1");
    assert!(!response.has_ascii_headers());
}

#[test]
fn file_response_has_no_body() {
    let response = Response::from_file(200, FileSource { path: String::from("a.txt") });
    assert!(response.is_file());
    assert_eq!(response.body(), None);
    assert!(response.has_ascii_headers());
}

#[test]
fn same_text_compares_characters() {
    assert!(same_text("", ""));
    assert!(same_text("abc", "abc"));
    assert!(!same_text("abc", "abd"));
    assert!(!same_text("abc", "ab"));
    assert!(!same_text("", "a"));
    assert!(same_text("naïve", "naïve"));
    assert!(!same_text("naïve", "naive"));
    assert!(!same_text("A", "a"));
}

#[test]
fn body_goes_out_as_text() {
    let mut response = Response::new(202, "queued");
    response.with_header("X-Job", "7");
    match response.into_outgoing() {
        Ok(Outgoing::Text(sent)) => {
            assert_eq!(sent.status_code().0, 202);
            assert_eq!(
                sent_headers(&sent),
                vec![pair("Content-Type", "text/plain; charset=UTF-8"), pair("X-Job", "7")]
            );
            assert_eq!(sent.into_reader().into_inner(), b"queued".to_vec());
        }
        _ => panic!("a body is sent as text"),
    }
}

#[test]
fn file_goes_out_with_status_and_headers() {
    let mut response = Response::from_file(203, FileSource { path: String::from("a.txt") });
    response.with_header("Content-Type", "text/css");
    match response.into_outgoing() {
        Ok(Outgoing::File { status_code, headers, file }) => {
            assert_eq!(status_code, 203);
            assert_eq!(headers, vec![pair("Content-Type", "text/css")]);
            assert_eq!(file.path, "a.txt");
        }
        _ => panic!("a file is sent as a file"),
    }
}

#[test]
fn nothing_goes_out_without_body_or_file() {
    let mut response = Response::default();
    response.with_header("X-Ünit", "1");
    assert!(matches!(response.into_outgoing(), Ok(Outgoing::Nothing)));
    assert!(matches!(Response::default().into_outgoing(), Ok(Outgoing::Nothing)));
}

#[test]
fn first_header_outside_ascii_is_refused() {
    let mut response = Response::ok("Hello");
    response
        .with_header("X-Fine", "1")
        .with_header("X-Bad", "naïve")
        .with_header("X-Wörse", "2");
    match response.into_outgoing() {
        Err(error) => {
            assert_eq!(error.name, "X-Bad");
            assert_eq!(error.value, "naïve");
        }
        _ => panic!("a header outside ASCII is refused"),
    }
    let mut response = Response::from_file(200, FileSource { path: String::from("a.txt") });
    response.with_header("X-Wörse", "2");
    match response.into_outgoing() {
        Err(error) => {
            assert_eq!(error.name, "X-Wörse");
            assert_eq!(error.value, "2");
        }
        _ => panic!("a header outside ASCII is refused"),
    }
}

#[test]
fn find_non_ascii_gives_the_first() {
    assert_eq!(find_non_ascii(&Vec::new()), None);
    assert_eq!(find_non_ascii(&vec![pair("a", "b"), pair("", "")]), None);
    assert_eq!(find_non_ascii(&vec![pair("a", "b"), pair("é", "b"), pair("a", "é")]), Some(1));
    assert_eq!(find_non_ascii(&vec![pair("a", "\u{80}")]), Some(0));
    assert_eq!(find_non_ascii(&vec![pair("a", "\u{7f}")]), None);
}

#[test]
fn parts_are_those_of_the_response() {
    let mut response = Response::new(201, "made");
    response.with_header("A", "1");
    let parts = response.into_parts();
    assert_eq!(parts.status_code, 201);
    assert_eq!(parts.body, Some(String::from("made")));
    assert!(parts.file.is_none());
    assert_eq!(parts.headers, vec![pair("A", "1")]);
    let parts = Response::from_file(200, FileSource { path: String::from("a.txt") }).into_parts();
    assert_eq!(parts.body, None);
    assert_eq!(parts.file.map(|file| file.path), Some(String::from("a.txt")));
    let parts = Response::default().into_parts();
    assert_eq!(parts.status_code, 200);
    assert!(parts.body.is_none() && parts.file.is_none() && parts.headers.is_empty());
}

#[test]
fn ordinary_names_of_any_length_are_sent() {
    let mut response = Response::ok("Hello");
    response
        .with_header("Upgrade", "dropped")
        .with_header("Upgraded", "kept")
        .with_header("Trailed", "kept")
        .with_header("X Name", "with space")
        .with_header("", "no name");
    let sent = response.into_tiny_http_cursor();
    assert_eq!(
        sent_headers(&sent),
        vec![
            pair("Content-Type", "text/plain; charset=UTF-8"),
            pair("Upgraded", "kept"),
            pair("Trailed", "kept"),
            pair("X Name", "with space"),
            pair("", "no name"),
        ]
    );
}

#[test]
fn second_content_type_overwrites_in_place() {
    let mut response = Response::ok("<p>");
    response
        .with_header("X-Before", "1")
        .with_header("Content-Type", "text/html")
        .with_header("CONTENT-TYPE", "text/xml");
    let sent = response.into_tiny_http_cursor();
    assert_eq!(
        sent_headers(&sent),
        vec![pair("Content-Type", "text/xml"), pair("X-Before", "1")]
    );
}
