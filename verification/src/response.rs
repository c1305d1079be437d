//! The response that the middleware chain builds.

use vstd::prelude::*;
use crate::text::same_text;

verus! {

/// A file whose bytes are the payload of a response, named by its path.
#[derive(Debug)]
pub struct FileSource {
    pub path: String,
}

#[derive(Debug)]
enum Content {
    Empty,
    Text(String),
    File(FileSource),
}

/// A response: a status code, headers, and at most one of a text body and a
/// file.
#[derive(Debug)]
pub struct Response {
    status_code: u16,
    content: Content,
    headers: Vec<(String, String)>,
}

/// A response taken apart.
#[derive(Debug)]
pub struct ResponseParts {
    pub status_code: u16,
    pub body: Option<String>,
    pub file: Option<FileSource>,
    pub headers: Vec<(String, String)>,
}

impl View for ResponseParts {
    type V = ResponseView;

    open spec fn view(&self) -> ResponseView {
        ResponseView {
            status_code: self.status_code,
            body: match self.body {
                Some(text) => Some(text@),
                None => None,
            },
            file: match self.file {
                Some(source) => Some(source.path@),
                None => None,
            },
            headers: self.headers.deep_view(),
        }
    }
}

/// The mathematical value of a [`Response`].
pub ghost struct ResponseView {
    pub status_code: u16,
    pub body: Option<Seq<char>>,
    /// The path of the file, where the payload is a file.
    pub file: Option<Seq<char>>,
    /// The headers as a list of entries, each a name and a value, in the
    /// order in which they are handed to the transport.
    pub headers: Entries,
}

/// A list of entries, each a name and a value.
pub type Entries = Seq<(Seq<char>, Seq<char>)>;

/// Whether `entries` holds an entry for `key` at `i`.
pub open spec fn entry_at(entries: Entries, key: Seq<char>, i: int) -> bool {
    0 <= i < entries.len() && entries[i].0 == key
}

/// Whether `entries` holds an entry for `key`.
pub open spec fn has_entry(entries: Entries, key: Seq<char>) -> bool {
    exists|i: int| entry_at(entries, key, i)
}

/// Whether the first entry for `key` in `entries` is at `i`.
pub open spec fn first_entry_at(
    entries: Entries,
    key: Seq<char>,
    i: int,
) -> bool {
    entry_at(entries, key, i) && forall|j: int| 0 <= j < i ==> !entry_at(entries, key, j)
}

/// The index of the first entry for `key` in `entries`.
pub open spec fn first_entry(entries: Entries, key: Seq<char>) -> int {
    choose|i: int| first_entry_at(entries, key, i)
}

/// Whether no key occurs twice in `entries`.
pub open spec fn distinct_keys(entries: Entries) -> bool {
    forall|i: int, j: int|
        0 <= i < j < entries.len() ==> (#[trigger] entries[i]).0 != (#[trigger] entries[j]).0
}

/// The mapping from name to value that a list of entries stands for: each
/// key that occurs, with the value of its first entry.
pub open spec fn entries_map(entries: Entries) -> Map<Seq<char>, Seq<char>> {
    Map::new(
        |key: Seq<char>| has_entry(entries, key),
        |key: Seq<char>| entries[first_entry(entries, key)].1,
    )
}

/// The entries after `key` is set to `value`: the first entry for `key` is
/// overwritten in place where there is one, and a new entry is added at the
/// end where there is none.
pub open spec fn entries_set(
    entries: Entries,
    key: Seq<char>,
    value: Seq<char>,
) -> Entries {
    if has_entry(entries, key) {
        entries.update(first_entry(entries, key), (key, value))
    } else {
        entries.push((key, value))
    }
}

impl View for Response {
    type V = ResponseView;

    closed spec fn view(&self) -> ResponseView {
        ResponseView {
            status_code: self.status_code,
            body: match self.content {
                Content::Text(text) => Some(text@),
                _ => None,
            },
            file: match self.content {
                Content::File(source) => Some(source.path@),
                _ => None,
            },
            headers: self.headers.deep_view(),
        }
    }
}

impl ResponseView {
    /// The value of a response that nothing has touched: status 200, no
    /// body, no file, no headers.
    pub open spec fn initial() -> ResponseView {
        ResponseView { status_code: 200, body: None, file: None, headers: Seq::empty() }
    }

    /// The headers as a mapping from name to value.
    pub open spec fn header_map(self) -> Map<Seq<char>, Seq<char>> {
        entries_map(self.headers)
    }

    /// Whether the response holds at most one of a body and a file, and no
    /// header name twice.
    pub open spec fn well_formed(self) -> bool {
        !(self.body.is_some() && self.file.is_some()) && distinct_keys(self.headers)
    }

    /// The response with another status code.
    pub open spec fn with_status(self, status_code: u16) -> ResponseView {
        ResponseView { status_code, ..self }
    }

    /// The response with `body` for its payload, in place of any other.
    pub open spec fn with_body(self, body: Seq<char>) -> ResponseView {
        ResponseView { body: Some(body), file: None, ..self }
    }

    /// The response with the file at `path` for its payload, in place of
    /// any other.
    pub open spec fn with_file(self, path: Seq<char>) -> ResponseView {
        ResponseView { body: None, file: Some(path), ..self }
    }

    /// The response with the header `key` set to `value`.
    pub open spec fn with_header(self, key: Seq<char>, value: Seq<char>) -> ResponseView {
        ResponseView { headers: entries_set(self.headers, key, value), ..self }
    }
}

impl Default for Response {
    /// A response that nothing has touched: status 200, no body, no file,
    /// no headers.
    fn default() -> (response: Response)
        ensures
            response@ == ResponseView::initial(),
    {
        let response = Response { status_code: 200, content: Content::Empty, headers: Vec::new() };
        proof {
            lemma_no_entries(response.headers.deep_view());
        }
        response
    }
}

impl Response {
    #[verifier::type_invariant]
    spec fn holds_each_name_once(&self) -> bool {
        distinct_keys(self.headers.deep_view())
    }

    /// The status code of a response to a request that was served.
    pub const OK: u16 = 200;

    /// The status code of a response to a request that no route matches.
    pub const NOT_FOUND: u16 = 404;

    /// Create a new response with the given status code and body.
    pub fn new(status_code: u16, body: &str) -> (response: Response)
        ensures
            response@ == ResponseView::initial().with_status(status_code).with_body(body@),
    {
        let response = Response {
            status_code,
            content: Content::Text(body.to_owned()),
            headers: Vec::new(),
        };
        proof {
            lemma_no_entries(response.headers.deep_view());
        }
        response
    }

    /// Create a new response with a status code of 200 (OK) and the given body.
    pub fn ok(body: &str) -> (response: Response)
        ensures
            response@ == ResponseView::initial().with_body(body@),
    {
        Response::new(Response::OK, body)
    }

    /// Create a new response with the given status code and file.
    #[must_use]
    pub fn from_file(status_code: u16, file: FileSource) -> (response: Response)
        ensures
            response@ == ResponseView::initial().with_status(status_code).with_file(file.path@),
    {
        let response = Response { status_code, content: Content::File(file), headers: Vec::new() };
        proof {
            lemma_no_entries(response.headers.deep_view());
        }
        response
    }

    /// Add a header to the response. A header of the same name is
    /// overwritten; names are compared exactly, case included.
    pub fn with_header(&mut self, key: &str, value: &str) -> (this: &mut Response)
        ensures
            this@ == old(self)@.with_header(key@, value@),
            this@.header_map() == old(self)@.header_map().insert(key@, value@),
            *final(self) == *final(this),
    {
        let ghost before = self.headers.deep_view();
        proof {
            use_type_invariant(&*self);
            lemma_entries_set_map(before, key@, value@);
            lemma_entries_set_distinct(before, key@, value@);
        }
        let found = find_entry(&self.headers, key);
        let mut entries: Vec<(String, String)> = Vec::new();
        core::mem::swap(&mut entries, &mut self.headers);
        match found {
            Some(i) => {
                entries[i].1 = value.to_owned();
                assert(entries.deep_view() =~= before.update(i as int, (key@, value@)));
            },
            None => {
                entries.push((key.to_owned(), value.to_owned()));
                assert(entries.deep_view() =~= before.push((key@, value@)));
            },
        }
        self.headers = entries;
        self
    }

    /// Set the status code.
    pub fn with_status(&mut self, status_code: u16) -> (this: &mut Response)
        ensures
            this@ == old(self)@.with_status(status_code),
            *final(self) == *final(this),
    {
        proof {
            use_type_invariant(&*self);
        }
        self.status_code = status_code;
        self
    }

    /// Set the body. A file that was set before is dropped.
    pub fn with_body(&mut self, body: &str) -> (this: &mut Response)
        ensures
            this@ == old(self)@.with_body(body@),
            *final(self) == *final(this),
    {
        proof {
            use_type_invariant(&*self);
        }
        self.content = Content::Text(body.to_owned());
        self
    }

    /// Set the file. A body that was set before is dropped.
    pub fn with_file(&mut self, file: FileSource) -> (this: &mut Response)
        ensures
            this@ == old(self)@.with_file(file.path@),
            *final(self) == *final(this),
    {
        proof {
            use_type_invariant(&*self);
        }
        self.content = Content::File(file);
        self
    }

    /// The status code.
    pub fn status_code(&self) -> (status_code: u16)
        ensures
            status_code == self@.status_code,
    {
        self.status_code
    }

    /// The body, where one is set.
    pub fn body(&self) -> (body: Option<&str>)
        ensures
            match body {
                Some(text) => self@.body == Some(text@),
                None => self@.body.is_none(),
            },
    {
        match &self.content {
            Content::Text(text) => Some(text.as_str()),
            _ => None,
        }
    }

    /// The file, where one is set.
    pub fn file(&self) -> (file: Option<&FileSource>)
        ensures
            match file {
                Some(source) => self@.file == Some(source.path@),
                None => self@.file.is_none(),
            },
    {
        match &self.content {
            Content::File(source) => Some(source),
            _ => None,
        }
    }

    /// Whether the payload is a file.
    pub fn is_file(&self) -> (is_file: bool)
        ensures
            is_file == self@.file.is_some(),
    {
        match &self.content {
            Content::File(_) => true,
            _ => false,
        }
    }

    /// The value of the header `key`, where it is set.
    pub fn header(&self, key: &str) -> (value: Option<&str>)
        ensures
            match value {
                Some(text) => self@.header_map().contains_key(key@) && self@.header_map()[key@]
                    == text@,
                None => !self@.header_map().contains_key(key@),
            },
    {
        match find_entry(&self.headers, key) {
            Some(i) => Some(self.headers[i].1.as_str()),
            None => None,
        }
    }

    /// Take the response apart.
    pub fn into_parts(self) -> (parts: ResponseParts)
        ensures
            parts@ == self@,
            parts@.well_formed(),
    {
        proof {
            use_type_invariant(&self);
        }
        let Response { status_code, content, headers } = self;
        match content {
            Content::Empty => ResponseParts { status_code, body: None, file: None, headers },
            Content::Text(text) => ResponseParts {
                status_code,
                body: Some(text),
                file: None,
                headers,
            },
            Content::File(source) => ResponseParts {
                status_code,
                body: None,
                file: Some(source),
                headers,
            },
        }
    }

    /// The headers as a list of entries, in the order in which they are
    /// handed to the transport.
    pub fn headers(&self) -> (entries: &Vec<(String, String)>)
        ensures
            entries.deep_view() == self@.headers,
            distinct_keys(entries.deep_view()),
    {
        proof {
            use_type_invariant(self);
        }
        &self.headers
    }
}

/// The index of the first of `entries` that is an entry for `key`, where
/// there is one.
fn find_entry(entries: &Vec<(String, String)>, key: &str) -> (found: Option<usize>)
    ensures
        match found {
            Some(i) => first_entry_at(entries.deep_view(), key@, i as int) && first_entry(
                entries.deep_view(),
                key@,
            ) == i,
            None => !has_entry(entries.deep_view(), key@),
        },
{
    let ghost view = entries.deep_view();
    let mut i: usize = 0;
    while i < entries.len()
        invariant
            0 <= i <= entries.len(),
            view == entries.deep_view(),
            forall|j: int| 0 <= j < i ==> !entry_at(view, key@, j),
        decreases entries.len() - i,
    {
        if same_text(entries[i].0.as_str(), key) {
            proof {
                lemma_first_entry(view, key@, i as int);
            }
            return Some(i);
        }
        i = i + 1;
    }
    None
}

/// No response holds both a body and a file.
pub proof fn lemma_body_or_file(response: Response)
    ensures
        !(response@.body.is_some() && response@.file.is_some()),
{
}

/// A response that nothing has touched is well formed, and so is a well
/// formed response after its status, its body, its file or a header is set.
pub proof fn lemma_well_formed(
    response: ResponseView,
    status_code: u16,
    text: Seq<char>,
    key: Seq<char>,
    value: Seq<char>,
)
    requires
        response.well_formed(),
    ensures
        ResponseView::initial().well_formed(),
        response.with_status(status_code).well_formed(),
        response.with_body(text).well_formed(),
        response.with_file(text).well_formed(),
        response.with_header(key, value).well_formed(),
{
    lemma_entries_set_distinct(response.headers, key, value);
}

/// A response whose body is set and whose file is set after it holds the
/// file only.
pub proof fn lemma_file_replaces_body(response: ResponseView, body: Seq<char>, path: Seq<char>)
    ensures
        response.with_body(body).with_file(path).body.is_none(),
        response.with_body(body).with_file(path).file == Some(path),
        response.with_body(body).with_file(path) == response.with_file(path),
{
}

/// A response whose file is set and whose body is set after it holds the
/// body only.
pub proof fn lemma_body_replaces_file(response: ResponseView, path: Seq<char>, body: Seq<char>)
    ensures
        response.with_file(path).with_body(body).file.is_none(),
        response.with_file(path).with_body(body).body == Some(body),
        response.with_file(path).with_body(body) == response.with_body(body),
{
}

/// A header that is set twice holds the value that was set last, in the
/// place where it was set first.
pub proof fn lemma_header_last_write_wins(
    response: ResponseView,
    key: Seq<char>,
    first: Seq<char>,
    last: Seq<char>,
)
    ensures
        response.with_header(key, first).with_header(key, last) == response.with_header(key, last),
        response.with_header(key, last).header_map()[key] == last,
{
    let entries = response.headers;
    let once = entries_set(entries, key, first);
    lemma_set_at(entries, key, first);
    lemma_first_entry(once, key, set_at(entries, key));
    assert(entries_set(once, key, last) == once.update(set_at(entries, key), (key, last)));
    assert(entries_set(once, key, last) =~= entries_set(entries, key, last));
    lemma_entries_set_map(entries, key, last);
}

proof fn lemma_no_entries(entries: Entries)
    requires
        entries.len() == 0,
    ensures
        entries == Entries::empty(),
{
}

/// The first entry for a key is the one before which there is none.
pub proof fn lemma_first_entry(entries: Entries, key: Seq<char>, i: int)
    requires
        first_entry_at(entries, key, i),
    ensures
        has_entry(entries, key),
        first_entry(entries, key) == i,
{
    // The choice falls on a first entry, and of two first entries neither
    // is before the other.
    assert(first_entry_at(entries, key, first_entry(entries, key)));
}

/// A key that has an entry has a first one.
pub proof fn lemma_has_first_entry(entries: Entries, key: Seq<char>)
    requires
        has_entry(entries, key),
    ensures
        first_entry_at(entries, key, first_entry(entries, key)),
{
    lemma_first_below(entries, key, choose|i: int| entry_at(entries, key, i));
}

proof fn lemma_first_below(entries: Entries, key: Seq<char>, bound: int)
    requires
        entry_at(entries, key, bound),
    ensures
        exists|i: int| first_entry_at(entries, key, i),
    decreases bound,
{
    if exists|j: int| 0 <= j < bound && entry_at(entries, key, j) {
        lemma_first_below(entries, key, choose|j: int| 0 <= j < bound && entry_at(entries, key, j));
    } else {
        assert(first_entry_at(entries, key, bound));
    }
}

/// The place where [`entries_set`] puts the entry for `key`: that of the
/// first entry for `key`, or the end.
pub open spec fn set_at(entries: Entries, key: Seq<char>) -> int {
    if has_entry(entries, key) {
        first_entry(entries, key)
    } else {
        entries.len() as int
    }
}

/// After a key is set, its first entry is the one that was set, and every
/// other entry is where it was.
pub proof fn lemma_set_at(entries: Entries, key: Seq<char>, value: Seq<char>)
    ensures
        first_entry_at(entries_set(entries, key, value), key, set_at(entries, key)),
        entries_set(entries, key, value) == if has_entry(entries, key) {
            entries.update(set_at(entries, key), (key, value))
        } else {
            entries.push((key, value))
        },
        has_entry(entries, key) ==> 0 <= set_at(entries, key) < entries.len(),
        forall|other: Seq<char>, i: int|
            #![trigger entry_at(entries_set(entries, key, value), other, i)]
            #![trigger entry_at(entries, other, i)]
            other != key ==> (entry_at(entries_set(entries, key, value), other, i) <==> entry_at(
                entries,
                other,
                i,
            )),
{
    let after = entries_set(entries, key, value);
    let at = set_at(entries, key);
    if has_entry(entries, key) {
        lemma_has_first_entry(entries, key);
    }
    assert forall|j: int| 0 <= j < at implies !entry_at(after, key, j) by {
        assert(!entry_at(entries, key, j));
    }
}

/// Setting a key sets it in the mapping that the entries stand for, and
/// leaves every other key as it was.
pub proof fn lemma_entries_set_map(entries: Entries, key: Seq<char>, value: Seq<char>)
    ensures
        entries_map(entries_set(entries, key, value)) == entries_map(entries).insert(key, value),
{
    let after = entries_set(entries, key, value);
    let expected = entries_map(entries).insert(key, value);
    lemma_set_at(entries, key, value);
    lemma_first_entry(after, key, set_at(entries, key));
    assert forall|other: Seq<char>| #[trigger]
        entries_map(after).dom().contains(other) == expected.dom().contains(other) by {
        if other != key && has_entry(after, other) {
            assert(entry_at(entries, other, choose|i: int| entry_at(after, other, i)));
        }
        if other != key && has_entry(entries, other) {
            assert(entry_at(after, other, choose|i: int| entry_at(entries, other, i)));
        }
    }
    assert forall|other: Seq<char>| #[trigger]
        entries_map(after).dom().contains(other) implies entries_map(after)[other]
        == expected[other] by {
        if other != key {
            lemma_has_first_entry(after, other);
            let i = first_entry(after, other);
            assert(first_entry_at(entries, other, i)) by {
                assert forall|j: int| 0 <= j < i implies !entry_at(entries, other, j) by {
                    assert(!entry_at(after, other, j));
                }
            }
            lemma_first_entry(entries, other, i);
            assert(after[i] == entries[i]);
        }
    }
    assert(entries_map(after) =~= expected);
}

/// Setting a key leaves no key twice in entries that held none twice.
pub proof fn lemma_entries_set_distinct(entries: Entries, key: Seq<char>, value: Seq<char>)
    requires
        distinct_keys(entries),
    ensures
        distinct_keys(entries_set(entries, key, value)),
{
    let after = entries_set(entries, key, value);
    if has_entry(entries, key) {
        lemma_has_first_entry(entries, key);
    } else {
        assert forall|i: int, j: int| 0 <= i < j < after.len() implies (#[trigger] after[i]).0 != (
        #[trigger] after[j]).0 by {
            if j == entries.len() {
                assert(!entry_at(entries, key, i));
            }
        }
    }
}

} // verus!
