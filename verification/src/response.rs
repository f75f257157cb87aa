//! The response half of the message codec: building a response and writing
//! it out as the bytes that go to the socket.
//!
//! A response goes out as a status line, one line for each header, an empty
//! line, and the body as it is. Text goes out as UTF-8.

use crate::decimal::{decimal, to_decimal};
use crate::file::{DynamicFiles, StaticFiles};
use crate::headers::{put, Entry, Headers};
use crate::request::{parse_bytes, parse_request, Request};
use crate::text::{chars_of, replace, replaced, rfind_char, rscan_char, same_text};
use vstd::prelude::*;
use vstd::string::*;
use vstd::utf8::*;

verus! {

/// A status: its number and its name, e.g. 404 and `Not Found`.
#[derive(Debug, PartialEq, Eq)]
pub struct ResponseType {
    name: String,
    pub id: u32,
}

/// Status and protocol version of a response. The version is what follows
/// `HTTP/`, e.g. `1.1`.
#[derive(Debug, PartialEq, Eq)]
pub struct ResponseIdentifiers {
    pub method: ResponseType,
    pub version: String,
}

/// A response under construction.
#[derive(Debug)]
pub struct Response {
    pub response_identifiers: ResponseIdentifiers,
    pub headers: Headers,
    pub body: Vec<u8>,
}

/// [`ResponseType`] as the contracts see it.
pub struct Status {
    pub id: u32,
    pub name: Seq<char>,
}

/// [`ResponseIdentifiers`] as the contracts see them.
pub struct StatusLine {
    pub method: Status,
    pub version: Seq<char>,
}

/// [`Response`] as the contracts see it. The headers stand in the order
/// in which they are written out.
pub struct ResponseView {
    pub response_identifiers: StatusLine,
    pub headers: Seq<Entry>,
    pub body: Seq<u8>,
}

impl View for ResponseType {
    type V = Status;

    closed spec fn view(&self) -> Status {
        Status { id: self.id, name: self.name@ }
    }
}

impl View for ResponseIdentifiers {
    type V = StatusLine;

    open spec fn view(&self) -> StatusLine {
        StatusLine { method: self.method@, version: self.version@ }
    }
}

impl View for Response {
    type V = ResponseView;

    open spec fn view(&self) -> ResponseView {
        ResponseView {
            response_identifiers: self.response_identifiers@,
            headers: self.headers.entries(),
            body: self.body@,
        }
    }
}

/// The status line of a response, with its line terminator.
pub open spec fn status_text(line: StatusLine) -> Seq<char> {
    seq!['H', 'T', 'T', 'P', '/'] + line.version + seq![' '] + decimal(line.method.id as nat)
        + seq![' '] + line.method.name + seq!['\r', '\n']
}

/// One header as a line, with its line terminator.
pub open spec fn header_line(entry: Entry) -> Seq<char> {
    entry.0 + seq![':', ' '] + entry.1 + seq!['\r', '\n']
}

/// The lines of all headers, in order.
pub open spec fn header_text(entries: Seq<Entry>) -> Seq<char>
    decreases entries.len(),
{
    if entries.len() == 0 {
        Seq::empty()
    } else {
        header_text(entries.drop_last()) + header_line(entries.last())
    }
}

/// The bytes that a response goes out as.
pub open spec fn sendable(response: ResponseView) -> Seq<u8> {
    encode_utf8(status_text(response.response_identifiers)) + encode_utf8(
        header_text(response.headers),
    ) + encode_utf8(seq!['\r', '\n']) + response.body
}

/// The status 200.
pub open spec fn status_ok() -> StatusLine {
    StatusLine { method: Status { id: 200, name: "OK"@ }, version: "1.1"@ }
}

/// The status 404.
pub open spec fn status_not_found() -> StatusLine {
    StatusLine { method: Status { id: 404, name: "Not Found"@ }, version: "1.1"@ }
}

/// The status 400.
pub open spec fn status_bad_request() -> StatusLine {
    StatusLine { method: Status { id: 400, name: "Bad Request"@ }, version: "1.1"@ }
}

/// A response that holds a status and nothing else.
pub open spec fn bare(line: StatusLine) -> ResponseView {
    ResponseView { response_identifiers: line, headers: Seq::empty(), body: Seq::empty() }
}

/// The last segment of a path: what follows its last slash.
pub open spec fn file_name_of(path: Seq<char>) -> Seq<char> {
    path.subrange(rfind_char(path, '/') + 1, path.len() as int)
}

/// The extension of a path: what follows the last dot of its last segment.
/// A segment without a dot has none, and neither has one whose only dot
/// stands at its start.
pub open spec fn extension_of(path: Seq<char>) -> Option<Seq<char>> {
    let name = file_name_of(path);
    let dot = rfind_char(name, '.');
    if dot <= 0 {
        None
    } else {
        Some(name.subrange(dot + 1, name.len() as int))
    }
}

/// The content type that goes with a path, by its extension. A path without
/// an extension, or with one that is not in the table, is plain text.
pub open spec fn content_type_for(path: Seq<char>) -> Seq<char> {
    match extension_of(path) {
        None => "text/plain"@,
        Some(extension) => if extension == "json"@ {
            "text/json"@
        } else if extension == "js"@ {
            "application/javascript"@
        } else if extension == "png"@ {
            "img/png"@
        } else if extension == "jpeg"@ {
            "img/jpeg"@
        } else if extension == "html"@ {
            "text/html"@
        } else if extension == "txt"@ {
            "text/plain"@
        } else if extension == "css"@ {
            "text/css"@
        } else {
            "text/plain"@
        },
    }
}

/// The page that reports an error: `template` with the status and the
/// message filled in.
pub open spec fn error_page(status: Status, template: Seq<char>, message: Seq<char>) -> Seq<char> {
    replaced(
        replaced(template, "{{ErrorCode}}"@, decimal(status.id as nat) + seq![' '] + status.name),
        "{{ErrorMessage}}"@,
        message,
    )
}

/// The response to the request that `path` names: the stored content with
/// its content type where `files` holds the path, and the bare status 404
/// where it does not.
pub open spec fn lookup(path: Seq<char>, files: Map<Seq<char>, Seq<u8>>) -> ResponseView {
    if files.contains_key(path) {
        ResponseView {
            response_identifiers: status_ok(),
            headers: seq![("content-type"@, content_type_for(path))],
            body: files[path],
        }
    } else {
        bare(status_not_found())
    }
}

/// The response to the request that `buffer` holds: the bare status 400
/// where it holds none, and else what [`lookup`] gives for its path.
pub open spec fn answer(buffer: Seq<u8>, files: Map<Seq<char>, Seq<u8>>) -> ResponseView {
    match parse_bytes(buffer) {
        Err(_) => bare(status_bad_request()),
        Ok(request) => lookup(request.request_identifiers.path, files),
    }
}

/// The extension of `path`, if it has one.
fn extension<'a>(path: &'a str) -> (found: Option<&'a str>)
    ensures
        match found {
            Some(text) => extension_of(path@) == Some(text@),
            None => extension_of(path@) is None,
        },
{
    let chars = chars_of(path);
    let n: usize = chars.len();
    assert(chars@.take(n as int) =~= chars@);
    let start: usize = match rscan_char(&chars, '/', n) {
        Some(slash) => slash + 1,
        None => 0,
    };
    let name = path.substring_char(start, n);
    let name_chars = chars_of(name);
    let m: usize = name_chars.len();
    assert(name_chars@.take(m as int) =~= name_chars@);
    match rscan_char(&name_chars, '.', m) {
        Some(dot) => {
            if dot == 0 {
                None
            } else {
                Some(name.substring_char(dot + 1, m))
            }
        },
        None => None,
    }
}

/// The content type that goes with `path`.
pub fn content_type(path: &str) -> (kind: &'static str)
    ensures
        kind@ == content_type_for(path@),
{
    match extension(path) {
        None => "text/plain",
        Some(found) => {
            if same_text(found, "json") {
                "text/json"
            } else if same_text(found, "js") {
                "application/javascript"
            } else if same_text(found, "png") {
                "img/png"
            } else if same_text(found, "jpeg") {
                "img/jpeg"
            } else if same_text(found, "html") {
                "text/html"
            } else if same_text(found, "txt") {
                "text/plain"
            } else if same_text(found, "css") {
                "text/css"
            } else {
                "text/plain"
            }
        },
    }
}

impl ResponseType {
    /// The status 200, `OK`.
    pub fn ok() -> (status: ResponseType)
        ensures
            status@ == status_ok().method,
    {
        ResponseType { name: String::from_str("OK"), id: 200 }
    }

    /// The status 404, `Not Found`.
    pub fn not_found() -> (status: ResponseType)
        ensures
            status@ == status_not_found().method,
    {
        ResponseType { name: String::from_str("Not Found"), id: 404 }
    }

    /// The status 400, `Bad Request`.
    pub fn bad_request() -> (status: ResponseType)
        ensures
            status@ == status_bad_request().method,
    {
        ResponseType { name: String::from_str("Bad Request"), id: 400 }
    }

    /// The number of the status.
    pub fn id(&self) -> (id: u32)
        ensures
            id == self@.id,
    {
        self.id
    }

    /// The name of the status.
    pub fn name(&self) -> (name: &str)
        ensures
            name@ == self@.name,
    {
        self.name.as_str()
    }
}

impl ResponseIdentifiers {
    /// The status line as text.
    fn text(&self) -> (text: String)
        ensures
            text@ == status_text(self@),
    {
        proof {
            reveal_strlit("HTTP/");
            reveal_strlit(" ");
            reveal_strlit("\r\n");
        }
        let mut text = String::from_str("HTTP/");
        text.append(self.version.as_str());
        text.append(" ");
        let number = to_decimal(self.method.id as u128);
        text.append(number.as_str());
        text.append(" ");
        text.append(self.method.name.as_str());
        text.append("\r\n");
        assert(text@ =~= status_text(self@));
        text
    }

    /// The status line as it goes out.
    pub fn make_sendable(&self) -> (bytes: Vec<u8>)
        ensures
            bytes@ == encode_utf8(status_text(self@)),
    {
        let text = self.text();
        text.as_str().as_bytes_vec()
    }
}

impl Response {
    /// A response with the status 200, no header and an empty body.
    pub fn default_ok() -> (response: Response)
        ensures
            response@ == bare(status_ok()),
    {
        Response {
            response_identifiers: ResponseIdentifiers {
                method: ResponseType::ok(),
                version: String::from_str("1.1"),
            },
            headers: Headers::new(),
            body: Vec::new(),
        }
    }

    /// A response with the status 404, no header and an empty body.
    pub fn default_not_found() -> (response: Response)
        ensures
            response@ == bare(status_not_found()),
    {
        Response {
            response_identifiers: ResponseIdentifiers {
                method: ResponseType::not_found(),
                version: String::from_str("1.1"),
            },
            headers: Headers::new(),
            body: Vec::new(),
        }
    }

    /// A response with the status 400, no header and an empty body.
    pub fn default_bad_request() -> (response: Response)
        ensures
            response@ == bare(status_bad_request()),
    {
        Response {
            response_identifiers: ResponseIdentifiers {
                method: ResponseType::bad_request(),
                version: String::from_str("1.1"),
            },
            headers: Headers::new(),
            body: Vec::new(),
        }
    }

    /// Turns the response into an error page, where `files` holds the
    /// template `/error_page.html`: the body becomes the template with the
    /// status and `error_message` filled in, and the content type that of
    /// a page. Without the template the response stays as it is.
    pub fn dynamic_error_response(&mut self, error_message: String, files: &DynamicFiles)
        ensures
            final(self)@.response_identifiers == old(self)@.response_identifiers,
            files@.contains_key("/error_page.html"@) ==> final(self)@.headers == put(
                old(self)@.headers,
                "content-type"@,
                content_type_for("_.html"@),
            ) && final(self)@.body == encode_utf8(
                error_page(
                    old(self)@.response_identifiers.method,
                    files@["/error_page.html"@],
                    error_message@,
                ),
            ),
            !files@.contains_key("/error_page.html"@) ==> final(self)@ == old(self)@,
    {
        match files.get("/error_page.html") {
            Some(resource) => {
                self.add_content_type(String::from_str("_.html"));
                let page = build_error_html(self, resource.clone(), error_message);
                self.body = page;
            },
            None => {},
        }
    }

    /// Writes the response out. The body moves into the result, so the
    /// response is left with an empty body.
    pub fn make_sendable(&mut self) -> (bytes: Vec<u8>)
        ensures
            bytes@ == sendable(old(self)@),
            final(self)@ == (ResponseView { body: Seq::empty(), ..old(self)@ }),
    {
        let mut identifiers = self.response_identifiers.make_sendable();
        let mut headers = self.make_headers_sendable();
        let mut separator = "\r\n".as_bytes_vec();
        proof {
            reveal_strlit("\r\n");
            assert("\r\n"@ =~= seq!['\r', '\n']);
        }
        let mut bytes: Vec<u8> = Vec::new();
        bytes.append(&mut identifiers);
        bytes.append(&mut headers);
        bytes.append(&mut separator);
        bytes.append(&mut self.body);
        assert(bytes@ =~= sendable(old(self)@));
        bytes
    }

    /// Gives the header `header_key` the value `header_value`.
    pub fn add_header(&mut self, header_key: &str, header_value: &str)
        ensures
            final(self)@ == (ResponseView {
                headers: put(old(self)@.headers, header_key@, header_value@),
                ..old(self)@
            }),
            final(self).headers@ == old(self).headers@.insert(header_key@, header_value@),
    {
        self.headers.insert(header_key.to_owned(), header_value.to_owned());
    }

    /// Gives the header `content-type` the value that goes with the
    /// extension of `file`.
    pub fn add_content_type(&mut self, file: String)
        ensures
            final(self)@ == (ResponseView {
                headers: put(old(self)@.headers, "content-type"@, content_type_for(file@)),
                ..old(self)@
            }),
            final(self).headers@ == old(self).headers@.insert(
                "content-type"@,
                content_type_for(file@),
            ),
    {
        let kind = content_type(file.as_str());
        self.add_header("content-type", kind);
    }

    /// The header lines as they go out.
    pub fn make_headers_sendable(&self) -> (bytes: Vec<u8>)
        ensures
            bytes@ == encode_utf8(header_text(self@.headers)),
    {
        let n: usize = self.headers.len();
        let mut text = String::new();
        let mut i: usize = 0;
        assert(self@.headers.take(0) =~= Seq::<Entry>::empty());
        while i < n
            invariant
                n == self@.headers.len(),
                i <= n,
                text@ == header_text(self@.headers.take(i as int)),
            decreases n - i,
        {
            let ghost upto = self@.headers.take(i + 1);
            assert(upto.drop_last() =~= self@.headers.take(i as int));
            assert(upto.last() == self@.headers[i as int]);
            match self.headers.entry(i) {
                Some((key, value)) => {
                    let ghost before = text@;
                    proof {
                        reveal_strlit(": ");
                        reveal_strlit("\r\n");
                    }
                    text.append(key.as_str());
                    text.append(": ");
                    text.append(value.as_str());
                    text.append("\r\n");
                    assert(text@ =~= before + header_line(upto.last()));
                },
                None => {},
            }
            i = i + 1;
        }
        assert(self@.headers.take(n as int) =~= self@.headers);
        text.as_str().as_bytes_vec()
    }
}

/// The response to `request`: the stored content with its content type
/// where `files` holds the path of the request, and the bare status 404
/// where it does not.
pub fn respond(request: &Request, files: &StaticFiles) -> (response: Response)
    ensures
        response@ == lookup(request@.request_identifiers.path, files@),
{
    match files.get(request.request_identifiers.path.as_str()) {
        Some(content) => {
            let mut response = Response::default_ok();
            response.add_content_type(request.request_identifiers.path.clone());
            response.body = content.clone();
            assert(response@.headers =~= seq![
                ("content-type"@, content_type_for(request@.request_identifiers.path)),
            ]);
            response
        },
        None => Response::default_not_found(),
    }
}

/// Answers the request that `buffer` holds, as the bytes that go out: 400
/// where the buffer holds no request, 404 where `files` does not hold the
/// requested path, and else 200 with the stored content.
pub fn create_response(buffer: Vec<u8>, files: &StaticFiles) -> (bytes: Vec<u8>)
    ensures
        bytes@ == sendable(answer(buffer@, files@)),
{
    let request = match parse_request(buffer) {
        Ok(request) => request,
        Err(_) => {
            return Response::default_bad_request().make_sendable();
        },
    };
    let mut response = respond(&request, files);
    response.make_sendable()
}

/// Fills the template `resource` in: each `{{ErrorCode}}` becomes the status
/// of `response`, number and name, and each `{{ErrorMessage}}` becomes
/// `error_message`. The page comes back as bytes; the response stays as it
/// is.
pub fn build_error_html(response: &mut Response, resource: String, error_message: String) -> (page:
    Vec<u8>)
    ensures
        *final(response) == *old(response),
        page@ == encode_utf8(
            error_page(old(response)@.response_identifiers.method, resource@, error_message@),
        ),
{
    proof {
        reveal_strlit(" ");
    }
    let mut status = to_decimal(response.response_identifiers.method.id as u128);
    status.append(" ");
    status.append(response.response_identifiers.method.name.as_str());
    assert(status@ =~= decimal(response@.response_identifiers.method.id as nat) + seq![' ']
        + response@.response_identifiers.method.name);
    let coded = replace(resource.as_str(), "{{ErrorCode}}", status.as_str());
    let page = replace(coded.as_str(), "{{ErrorMessage}}", error_message.as_str());
    page.as_str().as_bytes_vec()
}

} // verus!
