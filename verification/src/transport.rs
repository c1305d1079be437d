//! The responses of the transport, `tiny_http`, as far as the library
//! builds them: what such a response holds, and the calls that make and
//! change one.

use vstd::prelude::*;
use vstd::utf8::encode_utf8;
use vstd::utf8::is_ascii_chars;
use std::io::Cursor;
use tiny_http::Header;
use tiny_http::Response as TransportResponse;

verus! {

/// `std::io::Cursor`, as a type that is carried through.
#[verifier::external_type_specification]
#[verifier::external_body]
#[verifier::reject_recursive_types(T)]
pub struct ExCursor<T>(Cursor<T>);

/// `tiny_http::Response`. What the library reads of such a value, it reads
/// through [`wire_status`], [`wire_headers`] and [`wire_data`].
#[verifier::external_type_specification]
#[verifier::external_body]
#[verifier::reject_recursive_types(R)]
pub struct ExTransportResponse<R>(TransportResponse<R>);

/// A response of the transport whose data are bytes in memory.
pub type TextResponse = TransportResponse<Cursor<Vec<u8>>>;

/// The status code that a response of the transport holds.
pub uninterp spec fn wire_status(response: TextResponse) -> u16;

/// The headers that a response of the transport holds, each a name and a
/// value, in their order.
pub uninterp spec fn wire_headers(response: TextResponse) -> Seq<
    (Seq<char>, Seq<char>),
>;

/// The data that a response of the transport holds: the bytes that its
/// reader yields.
pub uninterp spec fn wire_data(response: TextResponse) -> Seq<u8>;

/// The lower-case form of an ASCII letter; any other character is itself.
pub open spec fn ascii_lower(c: char) -> char {
    if 'A' <= c <= 'Z' {
        ((c as u8) + 32) as char
    } else {
        c
    }
}

/// Whether two header names are the same to the transport, which ignores
/// the case of ASCII letters.
pub open spec fn same_name(a: Seq<char>, b: Seq<char>) -> bool {
    a.len() == b.len() && forall|i: int| 0 <= i < a.len() ==> ascii_lower(a[i]) == ascii_lower(b[i])
}

/// Whether the transport keeps a header of this name out of its list: the
/// names that it sets itself, and `Content-Length`, which sets the length
/// of the data instead.
pub open spec fn is_reserved_name(name: Seq<char>) -> bool {
    ||| same_name(name, "Connection"@)
    ||| same_name(name, "Trailer"@)
    ||| same_name(name, "Transfer-Encoding"@)
    ||| same_name(name, "Upgrade"@)
    ||| same_name(name, "Content-Length"@)
}

/// Whether the first header named `Content-Type` in `headers` is at `i`.
pub open spec fn first_content_type_at(headers: Seq<(Seq<char>, Seq<char>)>, i: int) -> bool {
    &&& 0 <= i < headers.len()
    &&& same_name(headers[i].0, "Content-Type"@)
    &&& forall|j: int| 0 <= j < i ==> !same_name((#[trigger] headers[j]).0, "Content-Type"@)
}

/// The headers of a response of the transport after a header is added to
/// it. A reserved name changes nothing. `Content-Type` overwrites the value
/// of the first header of that name, where there is one. Any other header
/// goes to the end of the list.
pub open spec fn headers_after_add(
    headers: Seq<(Seq<char>, Seq<char>)>,
    name: Seq<char>,
    value: Seq<char>,
) -> Seq<(Seq<char>, Seq<char>)> {
    if is_reserved_name(name) {
        headers
    } else if same_name(name, "Content-Type"@) && exists|i: int| first_content_type_at(headers, i) {
        let i = choose|i: int| first_content_type_at(headers, i);
        headers.update(i, (headers[i].0, value))
    } else {
        headers.push((name, value))
    }
}

/// The headers of a response of the transport after `entries` are added to
/// it in order.
pub open spec fn headers_after_all(
    headers: Seq<(Seq<char>, Seq<char>)>,
    entries: Seq<(Seq<char>, Seq<char>)>,
) -> Seq<(Seq<char>, Seq<char>)>
    decreases entries.len(),
{
    if entries.len() == 0 {
        headers
    } else {
        headers_after_add(
            headers_after_all(headers, entries.drop_last()),
            entries.last().0,
            entries.last().1,
        )
    }
}

/// A header whose name is as long as none of the names that the transport
/// treats specially goes to the end of the list.
pub proof fn lemma_other_length_is_added(
    headers: Seq<(Seq<char>, Seq<char>)>,
    name: Seq<char>,
    value: Seq<char>,
)
    requires
        name.len() != 7,
        name.len() != 10,
        name.len() != 12,
        name.len() != 14,
        name.len() != 17,
    ensures
        headers_after_add(headers, name, value) == headers.push((name, value)),
{
    reveal_strlit("Connection");
    reveal_strlit("Trailer");
    reveal_strlit("Transfer-Encoding");
    reveal_strlit("Upgrade");
    reveal_strlit("Content-Length");
    reveal_strlit("Content-Type");
}

/// The headers that the transport gives a response made from text.
pub open spec fn text_headers() -> Seq<(Seq<char>, Seq<char>)> {
    seq![("Content-Type"@, "text/plain; charset=UTF-8"@)]
}

/// Whether both parts of every entry are ASCII, as the transport asks of a
/// header.
pub open spec fn ascii_entries(entries: Seq<(Seq<char>, Seq<char>)>) -> bool {
    forall|i: int|
        0 <= i < entries.len() ==> is_ascii_chars((#[trigger] entries[i]).0) && is_ascii_chars(
            entries[i].1,
        )
}

/// `tiny_http::Response::from_string`: a response of the transport with
/// status 200, the one header that names the content as UTF-8 text, and the
/// bytes of `body` as its data.
#[verifier::external_body]
pub(crate) fn text_response(body: String) -> (response: TextResponse)
    ensures
        wire_status(response) == 200,
        wire_headers(response) == text_headers(),
        wire_data(response) == encode_utf8(body@),
{
    TransportResponse::from_string(body)
}

/// `tiny_http::Response::with_status_code`: the same response with another
/// status code.
#[verifier::external_body]
pub(crate) fn with_status_code(response: TextResponse, status_code: u16) -> (changed:
    TextResponse)
    ensures
        wire_status(changed) == status_code,
        wire_headers(changed) == wire_headers(response),
        wire_data(changed) == wire_data(response),
{
    response.with_status_code(status_code)
}

/// `tiny_http::Response::add_header`, with the header made by
/// `tiny_http::Header::from_bytes`, which takes ASCII only. The header list
/// changes as the transport documents it for the names that it treats
/// specially, and grows by the header at its end for any other name; the
/// status code and the data stay.
#[verifier::external_body]
pub(crate) fn add_header(response: &mut TextResponse, name: &str, value: &str)
    requires
        is_ascii_chars(name@),
        is_ascii_chars(value@),
    ensures
        wire_headers(*final(response)) == headers_after_add(
            wire_headers(*old(response)),
            name@,
            value@,
        ),
        wire_status(*final(response)) == wire_status(*old(response)),
        wire_data(*final(response)) == wire_data(*old(response)),
{
    response.add_header(Header::from_bytes(name.as_bytes(), value.as_bytes()).unwrap());
}

} // verus!
