//! Parsing one request off a stream, line by line, and the parsed request.
use vstd::prelude::*;
use crate::bytes::{
    ascii, ascii_bytes, bytes_eq, contains, contains_exec, index_of, index_of_exec, occurs_at,
    occurs_at_exec, parse_usize, parse_usize_exec, slice_copy, trim, trim_exec, SPACE, COLON,
};
use crate::headers::{Headers, lookup, opt_view};

verus! {

/// What ends the reading of a connection without a response.
#[derive(PartialEq, Eq, Structural, Clone, Copy, Debug)]
pub enum RequestError {
    ConnectionClosed,
    /// No method on the start line; a line that is not blank after trimming always
    /// begins with one, so the parser never gives this.
    MissingMethod,
    MissingPath,
    MissingVersion,
    InvalidHeader,
}

pub open spec fn error_message(e: RequestError) -> Seq<char> {
    match e {
        RequestError::ConnectionClosed => "Connection closed by the client"@,
        RequestError::MissingMethod => "Missing method"@,
        RequestError::MissingPath => "Missing path"@,
        RequestError::MissingVersion => "Missing version"@,
        RequestError::InvalidHeader => "Invalid header"@,
    }
}

impl RequestError {
    /// A human-readable description of the error.
    pub fn message(&self) -> (r: &'static str)
        ensures
            r@ == error_message(*self),
    {
        match self {
            RequestError::ConnectionClosed => "Connection closed by the client",
            RequestError::MissingMethod => "Missing method",
            RequestError::MissingPath => "Missing path",
            RequestError::MissingVersion => "Missing version",
            RequestError::InvalidHeader => "Invalid header",
        }
    }
}

/// The separator between a header's name and its value.
pub open spec fn header_sep() -> Seq<u8> {
    seq![COLON, SPACE]
}

/// First index at or after `i` where the header separator starts, or the length.
pub open spec fn sep_index(s: Seq<u8>, i: int) -> int
    decreases s.len() - i,
{
    if i >= s.len() {
        s.len() as int
    } else if occurs_at(s, header_sep(), i) {
        i
    } else {
        sep_index(s, i + 1)
    }
}

/// Method, path and version of a non-blank trimmed start line: its first three
/// space-separated pieces.
pub open spec fn start_line_of(t: Seq<u8>) -> Result<(Seq<u8>, Seq<u8>, Seq<u8>), RequestError> {
    let a = index_of(t, SPACE, 0);
    let b = index_of(t, SPACE, a + 1);
    let c = index_of(t, SPACE, b + 1);
    if a >= t.len() {
        Err(RequestError::MissingPath)
    } else if b >= t.len() {
        Err(RequestError::MissingVersion)
    } else {
        Ok((t.subrange(0, a), t.subrange(a + 1, b), t.subrange(b + 1, c)))
    }
}

/// Name and value of a non-blank trimmed header line: the pieces before and after
/// the first separator, the value running to the next separator if there is one.
pub open spec fn header_of(t: Seq<u8>) -> Result<(Seq<u8>, Seq<u8>), RequestError> {
    let a = sep_index(t, 0);
    if a >= t.len() {
        Err(RequestError::InvalidHeader)
    } else {
        let b = sep_index(t, a + 2);
        Ok((t.subrange(0, a), t.subrange(a + 2, b)))
    }
}

/// The body length that the headers declare; absent or unreadable means none.
pub open spec fn content_length(h: Seq<(Seq<u8>, Seq<u8>)>) -> usize {
    match lookup(h, ascii("content-length"@)) {
        Some(v) => match parse_usize(v) {
            Some(n) => n,
            None => 0,
        },
        None => 0,
    }
}

/// A connection stays open after the response when the version speaks HTTP/1.1
/// and the client did not ask to close it.
pub open spec fn persistent_for(version: Seq<u8>, h: Seq<(Seq<u8>, Seq<u8>)>) -> bool {
    contains(version, ascii("1.1"@)) && lookup(h, ascii("connection"@)) != Some(ascii("close"@))
}

/// A parsed request.
pub struct Request {
    pub method: Vec<u8>,
    pub path: Vec<u8>,
    pub version: Vec<u8>,
    pub headers: Headers,
    pub body: Vec<u8>,
    pub persistent: bool,
}

impl Request {
    pub fn new(
        method: &[u8],
        path: &[u8],
        version: &[u8],
        headers: Headers,
        body: Vec<u8>,
        persistent: bool,
    ) -> (r: Request)
        ensures
            r.method@ == method@,
            r.path@ == path@,
            r.version@ == version@,
            r.headers == headers,
            r.body == body,
            r.persistent == persistent,
    {
        Request {
            method: slice_copy(method, 0, method.len()),
            path: slice_copy(path, 0, path.len()),
            version: slice_copy(version, 0, version.len()),
            headers,
            body,
            persistent,
        }
    }

    pub fn is_persistent(&self) -> (r: bool)
        ensures
            r == self.persistent,
    {
        self.persistent
    }

    /// The value of the header `name`, in any case.
    pub fn header(&self, name: &[u8]) -> (r: Option<Vec<u8>>)
        ensures
            opt_view(r) == lookup(self.headers@, name@),
    {
        self.headers.get(name)
    }
}

/// What the reader of the stream does next.
#[derive(PartialEq, Eq, Structural, Clone, Copy, Debug)]
pub enum ParseStep {
    /// The line was blank and no request had begun: read a start line again.
    Blank,
    /// Read the next line.
    NeedLine,
    /// The headers are complete: read exactly this many body bytes.
    NeedBody(usize),
}

/// The start line and the headers read so far.
pub struct RequestParser {
    pub start: Option<(Vec<u8>, Vec<u8>, Vec<u8>)>,
    pub headers: Headers,
}

pub open spec fn start_view(s: Option<(Vec<u8>, Vec<u8>, Vec<u8>)>) -> Option<(Seq<u8>, Seq<u8>, Seq<u8>)> {
    match s {
        Some(t) => Some((t.0@, t.1@, t.2@)),
        None => None,
    }
}

fn sep_index_exec(s: &[u8], from: usize) -> (r: usize)
    requires
        from <= s@.len(),
    ensures
        r as int == sep_index(s@, from as int),
        from <= r <= s@.len(),
        r < s@.len() ==> occurs_at(s@, header_sep(), r as int),
{
    let sep: Vec<u8> = vec![COLON, SPACE];
    assert(sep@ =~= header_sep());
    let mut i: usize = from;
    while i < s.len()
        invariant
            from <= i <= s@.len(),
            sep@ == header_sep(),
            sep_index(s@, from as int) == sep_index(s@, i as int),
        decreases s@.len() - i,
    {
        if occurs_at_exec(s, sep.as_slice(), i) {
            return i;
        }
        i = i + 1;
    }
    i
}

fn parse_start_line(t: &[u8]) -> (r: Result<(Vec<u8>, Vec<u8>, Vec<u8>), RequestError>)
    ensures
        match (r, start_line_of(t@)) {
            (Ok(x), Ok(y)) => x.0@ == y.0 && x.1@ == y.1 && x.2@ == y.2,
            (Err(e), Err(f)) => e == f,
            _ => false,
        },
{
    let a = index_of_exec(t, SPACE, 0);
    if a >= t.len() {
        return Err(RequestError::MissingPath);
    }
    let b = index_of_exec(t, SPACE, a + 1);
    if b >= t.len() {
        return Err(RequestError::MissingVersion);
    }
    let c = index_of_exec(t, SPACE, b + 1);
    Ok((slice_copy(t, 0, a), slice_copy(t, a + 1, b), slice_copy(t, b + 1, c)))
}

impl RequestParser {
    /// The parser before the start line.
    pub fn new() -> (r: RequestParser)
        ensures
            r.start is None,
            r.headers@ == Seq::<(Seq<u8>, Seq<u8>)>::empty(),
            r.headers.wf(),
    {
        RequestParser { start: None, headers: Headers::new() }
    }

    /// Takes one line as read from the stream, its line feed included; an empty
    /// `line` means that the stream has ended.
    pub fn feed_line(&mut self, line: &[u8]) -> (r: Result<ParseStep, RequestError>)
        requires
            old(self).headers.wf(),
        ensures
            final(self).headers.wf(),
            old(self).start is None ==> {
                if line@.len() == 0 {
                    r == Err::<ParseStep, RequestError>(RequestError::ConnectionClosed)
                } else if trim(line@).len() == 0 {
                    r == Ok::<ParseStep, RequestError>(ParseStep::Blank)
                        && final(self).start is None
                } else {
                    match start_line_of(trim(line@)) {
                        Ok(t) => r == Ok::<ParseStep, RequestError>(ParseStep::NeedLine)
                            && start_view(final(self).start) == Some(t),
                        Err(e) => r == Err::<ParseStep, RequestError>(e),
                    }
                }
            } && final(self).headers@ == old(self).headers@,
            old(self).start is Some ==> final(self).start == old(self).start && {
                if trim(line@).len() == 0 {
                    r == Ok::<ParseStep, RequestError>(
                        ParseStep::NeedBody(content_length(old(self).headers@)),
                    ) && final(self).headers@ == old(self).headers@
                } else {
                    match header_of(trim(line@)) {
                        Ok(h) => r == Ok::<ParseStep, RequestError>(ParseStep::NeedLine)
                            && final(self).headers@ == old(self).headers@.push(
                            (crate::bytes::lower(h.0), h.1),
                        ),
                        Err(e) => r == Err::<ParseStep, RequestError>(e)
                            && final(self).headers@ == old(self).headers@,
                    }
                }
            },
    {
        let t = trim_exec(line);
        if self.start.is_none() {
            if line.len() == 0 {
                return Err(RequestError::ConnectionClosed);
            }
            if t.len() == 0 {
                return Ok(ParseStep::Blank);
            }
            match parse_start_line(t.as_slice()) {
                Ok(parts) => {
                    self.start = Some(parts);
                    Ok(ParseStep::NeedLine)
                },
                Err(e) => Err(e),
            }
        } else {
            if t.len() == 0 {
                return Ok(ParseStep::NeedBody(declared_length(&self.headers)));
            }
            let a = sep_index_exec(t.as_slice(), 0);
            if a >= t.len() {
                return Err(RequestError::InvalidHeader);
            }
            let b = sep_index_exec(t.as_slice(), a + 2);
            let name = slice_copy(t.as_slice(), 0, a);
            let value = slice_copy(t.as_slice(), a + 2, b);
            self.headers.insert(name.as_slice(), value);
            Ok(ParseStep::NeedLine)
        }
    }

    /// The request, once the start line, the headers and the body are read.
    pub fn finish(self, body: Vec<u8>) -> (r: Request)
        requires
            self.start is Some,
            self.headers.wf(),
            body@.len() == content_length(self.headers@),
        ensures
            start_view(self.start) == Some((r.method@, r.path@, r.version@)),
            r.headers == self.headers,
            r.body == body,
            r.persistent == persistent_for(r.version@, r.headers@),
    {
        let persistent = persistence(&self.start.as_ref().unwrap().2, &self.headers);
        let RequestParser { start, headers } = self;
        let (method, path, version) = start.unwrap();
        Request { method, path, version, headers, body, persistent }
    }
}

/// The body length that `h` declares.
pub fn declared_length(h: &Headers) -> (r: usize)
    ensures
        r == content_length(h@),
{
    proof {
        reveal_strlit("content-length");
    }
    let name = ascii_bytes("content-length");
    match h.get(name.as_slice()) {
        Some(v) => match parse_usize_exec(v.as_slice()) {
            Some(n) => n,
            None => 0,
        },
        None => 0,
    }
}

/// Whether a request of `version` with headers `h` keeps its connection open.
pub fn persistence(version: &Vec<u8>, h: &Headers) -> (r: bool)
    ensures
        r == persistent_for(version@, h@),
{
    proof {
        reveal_strlit("1.1");
        reveal_strlit("connection");
        reveal_strlit("close");
    }
    let one_one = ascii_bytes("1.1");
    let conn = ascii_bytes("connection");
    let close = ascii_bytes("close");
    let close_asked = match h.get(conn.as_slice()) {
        Some(v) => bytes_eq(v.as_slice(), close.as_slice()),
        None => false,
    };
    contains_exec(version.as_slice(), one_one.as_slice()) && !close_asked
}

} // verus!
