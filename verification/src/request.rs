//! The request half of the message codec: from the bytes that came off a
//! socket to a structured request.
//!
//! A request is text. Its lines end in a carriage return and a line feed.
//! The first line holds method, path and protocol version, separated by
//! whitespace; each following line that holds a colon and a space is a
//! header.

use crate::headers::{entries_map, put, Entry, Headers};
use crate::text::{
    chars_of, find_char, find_pair, lines_of, same_text, scan_char, scan_pair, split_lines,
    split_whitespace, tokens, views,
};
use vstd::prelude::*;
use vstd::string::*;
use vstd::utf8::*;

verus! {

/// The HTTP method of a request.
#[derive(Debug, PartialEq, Eq, Clone, Copy, Structural)]
pub enum RequestType {
    Get,
    Post,
}

/// What is wrong with the first line of a request.
#[derive(Debug, PartialEq, Eq, Clone, Copy, Structural)]
pub enum StartLineFault {
    /// There is no first line at all.
    NoLine,
    /// The line holds no word.
    NoMethod,
    /// The line ends after the method.
    NoPath,
    /// The line ends after the path.
    NoVersion,
    /// The line goes on after the version.
    Surplus,
}

/// Why a buffer is no request.
#[derive(Debug, PartialEq, Eq, Clone, Copy, Structural)]
pub enum ParseError {
    /// The bytes are not UTF-8.
    NotText,
    /// The first line is not made of exactly method, path and version.
    MalformedStartLine(StartLineFault),
}

/// Method, path and protocol version of a request, e.g. `GET`,
/// `/example.html`, `HTTP/1.1`. The path holds no query string.
#[derive(Debug, PartialEq, Eq)]
pub struct RequestIdentifiers {
    pub method: RequestType,
    pub path: String,
    pub version: String,
}

/// A parsed request.
#[derive(Debug)]
pub struct Request {
    pub request_identifiers: RequestIdentifiers,
    pub headers: Headers,
    pub body: String,
}

/// [`RequestIdentifiers`] as the contracts see them.
pub struct RequestLine {
    pub method: RequestType,
    pub path: Seq<char>,
    pub version: Seq<char>,
}

/// [`Request`] as the contracts see it.
pub struct RequestView {
    pub request_identifiers: RequestLine,
    pub headers: Map<Seq<char>, Seq<char>>,
    pub body: Seq<char>,
}

impl View for RequestIdentifiers {
    type V = RequestLine;

    open spec fn view(&self) -> RequestLine {
        RequestLine { method: self.method, path: self.path@, version: self.version@ }
    }
}

impl View for Request {
    type V = RequestView;

    open spec fn view(&self) -> RequestView {
        RequestView {
            request_identifiers: self.request_identifiers@,
            headers: self.headers@,
            body: self.body@,
        }
    }
}

impl ParseError {
    /// What the error says after its fixed opening words.
    pub open spec fn detail(self) -> Seq<char> {
        match self {
            ParseError::NotText => "Request could not be interpreted as string."@,
            ParseError::MalformedStartLine(StartLineFault::NoLine) => "First line does not confirm HTTP protocol."@,
            ParseError::MalformedStartLine(StartLineFault::NoMethod) => "HTTP Type not specified"@,
            ParseError::MalformedStartLine(StartLineFault::NoPath) => "path not provided"@,
            ParseError::MalformedStartLine(StartLineFault::NoVersion) => "http version not specified."@,
            ParseError::MalformedStartLine(StartLineFault::Surplus) => "First line goes on after the http version."@,
        }
    }

    /// The error as a sentence for a log or a terminal.
    pub fn to_string(&self) -> (text: String)
        ensures
            text@ == "Could not parse request."@ + self.detail(),
    {
        let mut text = String::from_str("Could not parse request.");
        match self {
            ParseError::NotText => text.append("Request could not be interpreted as string."),
            ParseError::MalformedStartLine(StartLineFault::NoLine) => text.append(
                "First line does not confirm HTTP protocol.",
            ),
            ParseError::MalformedStartLine(StartLineFault::NoMethod) => text.append(
                "HTTP Type not specified",
            ),
            ParseError::MalformedStartLine(StartLineFault::NoPath) => text.append(
                "path not provided",
            ),
            ParseError::MalformedStartLine(StartLineFault::NoVersion) => text.append(
                "http version not specified.",
            ),
            ParseError::MalformedStartLine(StartLineFault::Surplus) => text.append(
                "First line goes on after the http version.",
            ),
        }
        text
    }
}

/// The method that a word names: `POST` is `Post`, and every other word,
/// `GET` among them, is `Get`.
pub open spec fn method_of(word: Seq<char>) -> RequestType {
    if word == seq!['P', 'O', 'S', 'T'] {
        RequestType::Post
    } else {
        RequestType::Get
    }
}

/// `path` up to its first question mark: the path without its query string.
pub open spec fn before_query(path: Seq<char>) -> Seq<char> {
    path.subrange(0, find_char(path, '?', 0))
}

/// What the first of `lines` says: it must be made of exactly three words,
/// which are method, path and version.
pub open spec fn request_line(lines: Seq<Seq<char>>) -> Result<RequestLine, ParseError> {
    if lines.len() == 0 {
        Err(ParseError::MalformedStartLine(StartLineFault::NoLine))
    } else {
        let words = tokens(lines[0]);
        if words.len() == 0 {
            Err(ParseError::MalformedStartLine(StartLineFault::NoMethod))
        } else if words.len() == 1 {
            Err(ParseError::MalformedStartLine(StartLineFault::NoPath))
        } else if words.len() == 2 {
            Err(ParseError::MalformedStartLine(StartLineFault::NoVersion))
        } else if words.len() > 3 {
            Err(ParseError::MalformedStartLine(StartLineFault::Surplus))
        } else {
            Ok(
                RequestLine {
                    method: method_of(words[0]),
                    path: before_query(words[1]),
                    version: words[2],
                },
            )
        }
    }
}

/// The header that `line` holds: what stands before its first colon
/// directly followed by a space is the key, what stands after those two is
/// the value. A line without that separator holds no header.
pub open spec fn header_of(line: Seq<char>) -> Option<Entry> {
    let i = find_pair(line, ':', ' ', 0);
    if i < line.len() {
        Some((line.subrange(0, i), line.subrange(i + 2, line.len() as int)))
    } else {
        None
    }
}

/// The headers that `lines` hold, taken line by line; a key that comes again
/// takes the later value.
pub open spec fn collect_headers(lines: Seq<Seq<char>>) -> Seq<Entry>
    decreases lines.len(),
{
    if lines.len() == 0 {
        Seq::empty()
    } else {
        let front = collect_headers(lines.drop_last());
        match header_of(lines.last()) {
            Some((key, value)) => put(front, key, value),
            None => front,
        }
    }
}

/// All of `lines` but the first.
pub open spec fn after_first(lines: Seq<Seq<char>>) -> Seq<Seq<char>> {
    if lines.len() == 0 {
        lines
    } else {
        lines.subrange(1, lines.len() as int)
    }
}

/// The mapping of the headers that stand in `lines` after the first line.
pub open spec fn header_map(lines: Seq<Seq<char>>) -> Map<Seq<char>, Seq<char>> {
    entries_map(collect_headers(after_first(lines)))
}

/// The request that `text` holds.
pub open spec fn parse_text(text: Seq<char>) -> Result<RequestView, ParseError> {
    let lines = lines_of(text);
    match request_line(lines) {
        Err(error) => Err(error),
        Ok(line) => Ok(
            RequestView { request_identifiers: line, headers: header_map(lines), body: Seq::empty() },
        ),
    }
}

/// The request that `bytes` hold.
pub open spec fn parse_bytes(bytes: Seq<u8>) -> Result<RequestView, ParseError> {
    if valid_utf8(bytes) {
        parse_text(decode_utf8(bytes))
    } else {
        Err(ParseError::NotText)
    }
}

/// `String::from_utf8` of std. It hands back the text exactly if the bytes
/// are well-formed UTF-8, and then the text is those bytes decoded.
#[verifier::external_body]
fn text_of(bytes: Vec<u8>) -> (text: Option<String>)
    ensures
        text is Some <==> valid_utf8(bytes@),
        text matches Some(t) ==> t@ == decode_utf8(bytes@),
{
    match String::from_utf8(bytes) {
        Ok(text) => Some(text),
        Err(_) => None,
    }
}

fn method_from(word: &str) -> (method: RequestType)
    ensures
        method == method_of(word@),
{
    proof {
        reveal_strlit("POST");
        assert("POST"@ =~= seq!['P', 'O', 'S', 'T']);
    }
    if same_text(word, "POST") {
        RequestType::Post
    } else {
        RequestType::Get
    }
}

fn strip_query(path: &str) -> (stripped: String)
    ensures
        stripped@ == before_query(path@),
{
    let chars = chars_of(path);
    let end = scan_char(&chars, '?', 0);
    path.substring_char(0, end).to_owned()
}

/// Reads method, path and version off the first of `lines`.
///
/// The path is cut at its first question mark. A method other than `POST`
/// is taken for `GET`.
pub fn get_request_identifiers(lines: &Vec<&str>) -> (result: Result<
    RequestIdentifiers,
    ParseError,
>)
    ensures
        match result {
            Ok(identifiers) => request_line(views(lines@)) == Ok::<RequestLine, ParseError>(
                identifiers@,
            ),
            Err(error) => request_line(views(lines@)) == Err::<RequestLine, ParseError>(error),
        },
{
    if lines.len() == 0 {
        return Err(ParseError::MalformedStartLine(StartLineFault::NoLine));
    }
    assert(views(lines@)[0] == lines@[0]@);
    let words = split_whitespace(lines[0]);
    if words.len() == 0 {
        return Err(ParseError::MalformedStartLine(StartLineFault::NoMethod));
    }
    if words.len() == 1 {
        return Err(ParseError::MalformedStartLine(StartLineFault::NoPath));
    }
    if words.len() == 2 {
        return Err(ParseError::MalformedStartLine(StartLineFault::NoVersion));
    }
    if words.len() > 3 {
        return Err(ParseError::MalformedStartLine(StartLineFault::Surplus));
    }
    assert(views(words@)[0] == words@[0]@);
    assert(views(words@)[1] == words@[1]@);
    assert(views(words@)[2] == words@[2]@);
    let method = method_from(words[0]);
    let path = strip_query(words[1]);
    let version = words[2].to_owned();
    Ok(RequestIdentifiers { method, path, version })
}

fn split_header<'a>(line: &'a str) -> (pair: Option<(&'a str, &'a str)>)
    ensures
        match pair {
            Some((key, value)) => header_of(line@) == Some((key@, value@)),
            None => header_of(line@) is None,
        },
{
    let chars = chars_of(line);
    let n: usize = chars.len();
    let i: usize = scan_pair(&chars, ':', ' ', 0);
    if i < n {
        Some((line.substring_char(0, i), line.substring_char(i + 2, n)))
    } else {
        None
    }
}

/// Reads the headers off `lines`, of which the first is the start line and
/// is passed over. A line without a colon and a space is left out. This
/// never fails.
pub fn get_headers(lines: &Vec<&str>) -> (result: Result<Headers, ParseError>)
    ensures
        result is Ok,
        result->Ok_0.entries() == collect_headers(after_first(views(lines@))),
        result->Ok_0@ == header_map(views(lines@)),
{
    let mut headers = Headers::new();
    if lines.len() == 0 {
        return Ok(headers);
    }
    let ghost all = views(lines@);
    let mut i: usize = 1;
    assert(all.subrange(1, 1) =~= Seq::<Seq<char>>::empty());
    while i < lines.len()
        invariant
            all == views(lines@),
            1 <= i <= lines.len(),
            headers.entries() == collect_headers(all.subrange(1, i as int)),
        decreases lines.len() - i,
    {
        let ghost upto = all.subrange(1, i + 1);
        assert(upto.drop_last() =~= all.subrange(1, i as int));
        assert(upto.last() == lines@[i as int]@);
        match split_header(lines[i]) {
            Some((key, value)) => {
                headers.insert(key.to_owned(), value.to_owned());
            },
            None => {},
        }
        i = i + 1;
    }
    assert(all.subrange(1, lines.len() as int) =~= after_first(all));
    Ok(headers)
}

/// Parses the text of a request.
///
/// Fails exactly if the first line is not made of method, path and version;
/// no header line makes it fail. The body is left empty.
pub fn read_request(buffer: &str) -> (result: Result<Request, ParseError>)
    ensures
        match result {
            Ok(request) => parse_text(buffer@) == Ok::<RequestView, ParseError>(request@),
            Err(error) => parse_text(buffer@) == Err::<RequestView, ParseError>(error),
        },
{
    let lines = split_lines(buffer);
    let request_identifiers = match get_request_identifiers(&lines) {
        Ok(identifiers) => identifiers,
        Err(error) => {
            return Err(error);
        },
    };
    let headers = match get_headers(&lines) {
        Ok(headers) => headers,
        Err(error) => {
            return Err(error);
        },
    };
    let request = Request { request_identifiers, headers, body: String::new() };
    assert(request@ == RequestView {
        request_identifiers: request.request_identifiers@,
        headers: header_map(lines_of(buffer@)),
        body: Seq::<char>::empty(),
    });
    Ok(request)
}

/// The first line of a request, under its other name.
pub type StartLine = RequestIdentifiers;

impl Request {
    /// Parses the text of a request, as [`read_request`] does.
    pub fn read_request(buffer: &str) -> (result: Result<Request, ParseError>)
        ensures
            match result {
                Ok(request) => parse_text(buffer@) == Ok::<RequestView, ParseError>(request@),
                Err(error) => parse_text(buffer@) == Err::<RequestView, ParseError>(error),
            },
    {
        read_request(buffer)
    }
}

/// Parses the bytes of a request.
///
/// Fails with [`ParseError::NotText`] exactly if the bytes are not UTF-8,
/// and otherwise as [`read_request`] does on the decoded text.
pub fn parse_request(buffer: Vec<u8>) -> (result: Result<Request, ParseError>)
    ensures
        match result {
            Ok(request) => parse_bytes(buffer@) == Ok::<RequestView, ParseError>(request@),
            Err(error) => parse_bytes(buffer@) == Err::<RequestView, ParseError>(error),
        },
{
    match text_of(buffer) {
        Some(text) => read_request(text.as_str()),
        None => Err(ParseError::NotText),
    }
}

} // verus!
