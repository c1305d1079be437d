//! The hand-over of a response to the transport.

use vstd::prelude::*;
use vstd::utf8::encode_utf8;
use vstd::utf8::is_ascii_chars;
use crate::response::distinct_keys;
use crate::response::Entries;
use crate::response::FileSource;
use crate::response::Response;
use crate::response::ResponseView;
use crate::transport::add_header;
use crate::transport::ascii_entries;
use crate::transport::headers_after_all;
use crate::transport::text_headers;
use crate::transport::text_response;
use crate::transport::TextResponse;
use crate::transport::wire_data;
use crate::transport::wire_headers;
use crate::transport::wire_status;
use crate::transport::with_status_code;

verus! {

/// What is handed to the transport for one response.
pub enum Outgoing {
    /// A response of the transport with a text body, ready to be sent.
    Text(TextResponse),
    /// A file, to be opened and sent with this status code and these
    /// headers.
    File { status_code: u16, headers: Vec<(String, String)>, file: FileSource },
    /// Nothing: the response holds neither a body nor a file.
    Nothing,
}

/// A header that the transport does not take, because its name or its
/// value holds a character outside ASCII.
#[derive(Debug)]
pub struct HeaderError {
    pub name: String,
    pub value: String,
}

/// Whether the entry of `entries` at `i` is the first of which a part is
/// not ASCII.
pub open spec fn first_non_ascii_at(entries: Entries, i: int) -> bool {
    &&& 0 <= i < entries.len()
    &&& !(is_ascii_chars(entries[i].0) && is_ascii_chars(entries[i].1))
    &&& ascii_entries(entries.take(i))
}

/// Whether `response` holds something to send.
pub open spec fn has_payload(response: ResponseView) -> bool {
    response.body.is_some() || response.file.is_some()
}

/// The index of the first of `entries` of which a part is not ASCII, where
/// there is one.
pub fn find_non_ascii(entries: &Vec<(String, String)>) -> (found: Option<usize>)
    ensures
        match found {
            Some(i) => first_non_ascii_at(entries.deep_view(), i as int),
            None => ascii_entries(entries.deep_view()),
        },
{
    let ghost view = entries.deep_view();
    let mut i: usize = 0;
    while i < entries.len()
        invariant
            0 <= i <= entries.len(),
            view == entries.deep_view(),
            forall|j: int|
                0 <= j < i ==> is_ascii_chars((#[trigger] view[j]).0) && is_ascii_chars(view[j].1),
        decreases entries.len() - i,
    {
        if !entries[i].0.as_str().is_ascii() || !entries[i].1.as_str().is_ascii() {
            return Some(i);
        }
        i = i + 1;
    }
    None
}

impl Response {
    /// Whether the name and the value of every header are ASCII.
    pub fn has_ascii_headers(&self) -> (ascii: bool)
        ensures
            ascii == ascii_entries(self@.headers),
    {
        find_non_ascii(self.headers()).is_none()
    }

    /// The response of the transport for a response with a text body: the
    /// status code and the body are those of the response, and the headers
    /// are added in order to those that the transport gives a text.
    pub fn into_tiny_http_cursor(self) -> (response: TextResponse)
        requires
            self@.body.is_some(),
            ascii_entries(self@.headers),
        ensures
            wire_status(response) == self@.status_code,
            wire_data(response) == encode_utf8(self@.body.unwrap()),
            wire_headers(response) == headers_after_all(text_headers(), self@.headers),
    {
        let body = self.body().unwrap().to_owned();
        let mut response = with_status_code(text_response(body), self.status_code());
        let entries = self.headers();
        let mut i: usize = 0;
        while i < entries.len()
            invariant
                0 <= i <= entries.len(),
                entries.deep_view() == self@.headers,
                ascii_entries(self@.headers),
                wire_status(response) == self@.status_code,
                wire_data(response) == encode_utf8(self@.body.unwrap()),
                wire_headers(response) == headers_after_all(
                    text_headers(),
                    self@.headers.take(i as int),
                ),
            decreases entries.len() - i,
        {
            assert(self@.headers[i as int] == (entries[i as int].0@, entries[i as int].1@));
            add_header(&mut response, entries[i].0.as_str(), entries[i].1.as_str());
            assert(self@.headers.take(i + 1).drop_last() =~= self@.headers.take(i as int));
            i = i + 1;
        }
        assert(self@.headers.take(i as int) =~= self@.headers);
        response
    }

    /// What is handed to the transport for the response: the file where it
    /// holds one, the text where it holds a body, and nothing where it
    /// holds neither. A response that holds something to send and a header
    /// that the transport does not take is refused, with the first such
    /// header.
    pub fn into_outgoing(self) -> (result: Result<Outgoing, HeaderError>)
        ensures
            match result {
                Ok(Outgoing::Text(response)) => {
                    &&& self@.body.is_some()
                    &&& ascii_entries(self@.headers)
                    &&& wire_status(response) == self@.status_code
                    &&& wire_data(response) == encode_utf8(self@.body.unwrap())
                    &&& wire_headers(response) == headers_after_all(text_headers(), self@.headers)
                },
                Ok(Outgoing::File { status_code, headers, file }) => {
                    &&& self@.file == Some(file.path@)
                    &&& ascii_entries(self@.headers)
                    &&& status_code == self@.status_code
                    &&& headers.deep_view() == self@.headers
                    &&& distinct_keys(self@.headers)
                },
                Ok(Outgoing::Nothing) => !has_payload(self@),
                Err(error) => {
                    &&& has_payload(self@)
                    &&& exists|i: int|
                        first_non_ascii_at(self@.headers, i) && #[trigger] self@.headers[i] == (
                            error.name@,
                            error.value@,
                        )
                },
            },
    {
        if self.body().is_none() && !self.is_file() {
            return Ok(Outgoing::Nothing);
        }
        match find_non_ascii(self.headers()) {
            Some(i) => {
                let entry = &self.headers()[i];
                Err(HeaderError { name: entry.0.clone(), value: entry.1.clone() })
            },
            None => {
                if self.is_file() {
                    let parts = self.into_parts();
                    Ok(
                        Outgoing::File {
                            status_code: parts.status_code,
                            headers: parts.headers,
                            file: parts.file.unwrap(),
                        },
                    )
                } else {
                    Ok(Outgoing::Text(self.into_tiny_http_cursor()))
                }
            },
        }
    }
}

} // verus!
