//! The response model, its wire form, and content compression.
use vstd::prelude::*;
use crate::bytes::{
    all_digits, ascii, ascii_bytes, contains, contains_exec, digits_value, parse_usize, push_all,
    slice_copy, unsigned_digits, SPACE,
};
use flate2::write::{DeflateEncoder, GzEncoder};
use flate2::Compression;
use std::io::Write;

verus! {

/// The status codes this server answers with.
#[derive(PartialEq, Eq, Structural, Clone, Copy, Debug)]
pub enum HttpCode {
    Okay,
    NotFound,
    InternalServerError,
    BadRequest,
    Created,
}

/// The text that follows the version on the status line.
pub open spec fn status_text(c: HttpCode) -> Seq<u8> {
    ascii(
        match c {
            HttpCode::Okay => "200 OK"@,
            HttpCode::BadRequest => "400 Bad Request"@,
            HttpCode::NotFound => "404 Not Found"@,
            HttpCode::InternalServerError => "500 Internal Server Error"@,
            HttpCode::Created => "201 Created"@,
        },
    )
}

/// A response on its way to the wire.
pub struct Response {
    pub status: HttpCode,
    pub version: Vec<u8>,
    pub content_type: Vec<u8>,
    pub content_encoding: Option<Vec<u8>>,
    pub connection: Option<Vec<u8>>,
    pub content: Vec<u8>,
}

/// The values a response holds.
pub struct ResponseView {
    pub status: HttpCode,
    pub version: Seq<u8>,
    pub content_type: Seq<u8>,
    pub content_encoding: Option<Seq<u8>>,
    pub connection: Option<Seq<u8>>,
    pub content: Seq<u8>,
}

pub open spec fn opt_bytes(o: Option<Vec<u8>>) -> Option<Seq<u8>> {
    match o {
        Some(v) => Some(v@),
        None => None,
    }
}

impl View for Response {
    type V = ResponseView;

    open spec fn view(&self) -> ResponseView {
        ResponseView {
            status: self.status,
            version: self.version@,
            content_type: self.content_type@,
            content_encoding: opt_bytes(self.content_encoding),
            connection: opt_bytes(self.connection),
            content: self.content@,
        }
    }
}

/// A plain-text `200 OK` response for HTTP/1.1 with no content.
pub open spec fn default_response() -> ResponseView {
    ResponseView {
        status: HttpCode::Okay,
        version: ascii("HTTP/1.1"@),
        content_type: ascii("text/plain"@),
        content_encoding: None,
        connection: None,
        content: Seq::empty(),
    }
}

impl Default for Response {
    fn default() -> (r: Response)
        ensures
            r@ == default_response(),
    {
        proof {
            reveal_strlit("HTTP/1.1");
            reveal_strlit("text/plain");
        }
        Response {
            status: HttpCode::Okay,
            version: ascii_bytes("HTTP/1.1"),
            content_type: ascii_bytes("text/plain"),
            content_encoding: None,
            connection: None,
            content: Vec::new(),
        }
    }
}

pub open spec fn crlf() -> Seq<u8> {
    seq![13u8, 10u8]
}

/// `n` in decimal digits.
pub open spec fn decimal(n: nat) -> Seq<u8>
    decreases n,
{
    if n < 10 {
        seq![(48 + n) as u8]
    } else {
        decimal(n / 10).push((48 + n % 10) as u8)
    }
}

/// The status line and the connection directive.
pub open spec fn head_lines(r: ResponseView) -> Seq<u8> {
    r.version + seq![SPACE] + status_text(r.status) + crlf() + match r.connection {
        Some(c) => ascii("Connection: "@) + c + crlf(),
        None => Seq::empty(),
    }
}

/// The headers that describe non-empty content.
pub open spec fn content_lines(r: ResponseView) -> Seq<u8> {
    ascii("Content-Type: "@) + r.content_type + crlf() + ascii("Content-Length: "@) + decimal(
        r.content.len(),
    ) + crlf() + match r.content_encoding {
        Some(e) => ascii("Content-Encoding: "@) + e + crlf(),
        None => Seq::empty(),
    }
}

/// The bytes that go on the wire for `r`.
pub open spec fn wire(r: ResponseView) -> Seq<u8> {
    if r.content.len() == 0 {
        head_lines(r) + crlf()
    } else {
        head_lines(r) + content_lines(r) + crlf() + r.content
    }
}

/// The status text of `code`.
pub fn status_line(code: HttpCode) -> (r: Vec<u8>)
    ensures
        r@ == status_text(code),
{
    proof {
        reveal_strlit("200 OK");
        reveal_strlit("400 Bad Request");
        reveal_strlit("404 Not Found");
        reveal_strlit("500 Internal Server Error");
        reveal_strlit("201 Created");
    }
    match code {
        HttpCode::Okay => ascii_bytes("200 OK"),
        HttpCode::BadRequest => ascii_bytes("400 Bad Request"),
        HttpCode::NotFound => ascii_bytes("404 Not Found"),
        HttpCode::InternalServerError => ascii_bytes("500 Internal Server Error"),
        HttpCode::Created => ascii_bytes("201 Created"),
    }
}

/// `n` in decimal digits.
pub fn decimal_exec(n: usize) -> (r: Vec<u8>)
    ensures
        r@ == decimal(n as nat),
    decreases n,
{
    if n < 10 {
        let r: Vec<u8> = vec![(48 + n) as u8];
        assert(r@ =~= decimal(n as nat));
        r
    } else {
        let mut r = decimal_exec(n / 10);
        r.push((48 + n % 10) as u8);
        r
    }
}

/// Serializes a response to the bytes that go on the wire.
pub fn handle_response(response: Response) -> (r: Vec<u8>)
    ensures
        r@ == wire(response@),
{
    proof {
        reveal_strlit("Connection: ");
        reveal_strlit("Content-Type: ");
        reveal_strlit("Content-Length: ");
        reveal_strlit("Content-Encoding: ");
    }
    let ghost v = response@;
    let crlf_bytes: Vec<u8> = vec![13u8, 10u8];
    assert(crlf_bytes@ =~= crlf());
    let mut out: Vec<u8> = Vec::new();
    push_all(&mut out, response.version.as_slice());
    out.push(SPACE);
    let head = status_line(response.status);
    push_all(&mut out, head.as_slice());
    push_all(&mut out, crlf_bytes.as_slice());
    match &response.connection {
        Some(c) => {
            let label = ascii_bytes("Connection: ");
            push_all(&mut out, label.as_slice());
            push_all(&mut out, c.as_slice());
            push_all(&mut out, crlf_bytes.as_slice());
        },
        None => {},
    }
    assert(out@ =~= head_lines(v));
    if response.content.len() == 0 {
        push_all(&mut out, crlf_bytes.as_slice());
        assert(out@ =~= wire(v));
        return out;
    }
    let ghost before = out@;
    let label = ascii_bytes("Content-Type: ");
    push_all(&mut out, label.as_slice());
    push_all(&mut out, response.content_type.as_slice());
    push_all(&mut out, crlf_bytes.as_slice());
    let label = ascii_bytes("Content-Length: ");
    push_all(&mut out, label.as_slice());
    let n = decimal_exec(response.content.len());
    push_all(&mut out, n.as_slice());
    push_all(&mut out, crlf_bytes.as_slice());
    match &response.content_encoding {
        Some(e) => {
            let label = ascii_bytes("Content-Encoding: ");
            push_all(&mut out, label.as_slice());
            push_all(&mut out, e.as_slice());
            push_all(&mut out, crlf_bytes.as_slice());
        },
        None => {},
    }
    assert(out@ =~= before + content_lines(v));
    push_all(&mut out, crlf_bytes.as_slice());
    push_all(&mut out, response.content.as_slice());
    assert(out@ =~= wire(v));
    out
}

/// The content encodings this server can apply.
#[derive(PartialEq, Eq, Structural, Clone, Copy, Debug)]
pub enum Encoding {
    Gzip,
    Deflate,
}

pub open spec fn encoding_name(e: Encoding) -> Seq<u8> {
    match e {
        Encoding::Gzip => ascii("gzip"@),
        Encoding::Deflate => ascii("deflate"@),
    }
}

/// The encoding picked for an `accept-encoding` value: gzip if it is named
/// anywhere, else deflate if that is named, else none.
pub open spec fn choose_encoding(accept: Seq<u8>) -> Option<Encoding> {
    if contains(accept, ascii("gzip"@)) {
        Some(Encoding::Gzip)
    } else if contains(accept, ascii("deflate"@)) {
        Some(Encoding::Deflate)
    } else {
        None
    }
}

/// The gzip stream that flate2 writes for `data` at the default level.
pub uninterp spec fn gzip_of(data: Seq<u8>) -> Seq<u8>;

/// The raw deflate stream that flate2 writes for `data` at the default level.
pub uninterp spec fn deflate_of(data: Seq<u8>) -> Seq<u8>;

pub open spec fn encoded(e: Encoding, data: Seq<u8>) -> Seq<u8> {
    match e {
        Encoding::Gzip => gzip_of(data),
        Encoding::Deflate => deflate_of(data),
    }
}

pub open spec fn compression_error_prefix() -> Seq<u8> {
    ascii("Error compressing content: "@)
}

/// `r` after an attempt to encode its content with `e` (none: content kept),
/// given what the encoder gave back: the encoded bytes, or an error message.
pub open spec fn with_compression(
    r: ResponseView,
    e: Option<Encoding>,
    outcome: Result<Seq<u8>, Seq<u8>>,
) -> ResponseView {
    match outcome {
        Ok(c) => ResponseView {
            content_encoding: match e {
                Some(x) => Some(encoding_name(x)),
                None => None,
            },
            content: c,
            ..r
        },
        Err(m) => ResponseView {
            status: HttpCode::InternalServerError,
            content_encoding: None,
            content: compression_error_prefix() + m,
            ..r
        },
    }
}

pub open spec fn outcome_view(o: Result<Vec<u8>, Vec<u8>>) -> Result<Seq<u8>, Seq<u8>> {
    match o {
        Ok(v) => Ok(v@),
        Err(m) => Err(m@),
    }
}

/// Relies on flate2's `GzEncoder` (new, write_all, finish) over a `Vec`: the gzip
/// stream of `content`. Writing into a `Vec` does not fail, and the encoder reports
/// an error only on a flush after finishing, which this call sequence never makes.
#[verifier::external_body]
fn compress_gzip(content: &[u8]) -> (r: Result<Vec<u8>, Vec<u8>>)
    ensures
        r is Ok,
        r->Ok_0@ == gzip_of(content@),
{
    let mut encoder = GzEncoder::new(Vec::new(), Compression::default());
    match encoder.write_all(content) {
        Ok(()) => {},
        Err(e) => return Err(e.to_string().into_bytes()),
    }
    match encoder.finish() {
        Ok(v) => Ok(v),
        Err(e) => Err(e.to_string().into_bytes()),
    }
}

/// Relies on flate2's `DeflateEncoder` (new, write_all, finish) over a `Vec`: the raw
/// deflate stream of `content`, with no error, as for `compress_gzip`.
#[verifier::external_body]
fn compress_deflate(content: &[u8]) -> (r: Result<Vec<u8>, Vec<u8>>)
    ensures
        r is Ok,
        r->Ok_0@ == deflate_of(content@),
{
    let mut encoder = DeflateEncoder::new(Vec::new(), Compression::default());
    match encoder.write_all(content) {
        Ok(()) => {},
        Err(e) => return Err(e.to_string().into_bytes()),
    }
    match encoder.finish() {
        Ok(v) => Ok(v),
        Err(e) => Err(e.to_string().into_bytes()),
    }
}

/// Picks the encoding for an `accept-encoding` value.
pub fn select_encoding(accept: &[u8]) -> (r: Option<Encoding>)
    ensures
        r == choose_encoding(accept@),
{
    proof {
        reveal_strlit("gzip");
        reveal_strlit("deflate");
    }
    let gzip = ascii_bytes("gzip");
    let deflate = ascii_bytes("deflate");
    if contains_exec(accept, gzip.as_slice()) {
        Some(Encoding::Gzip)
    } else if contains_exec(accept, deflate.as_slice()) {
        Some(Encoding::Deflate)
    } else {
        None
    }
}

/// `after` is what compressing `before` for the `accept-encoding` value `accept`
/// gives: unchanged when there is no value; the content kept and no encoding named
/// when the value names no known encoding; else the encoded content under the
/// encoding's name.
pub open spec fn compressed_as(before: ResponseView, accept: Option<Seq<u8>>, after: ResponseView) -> bool {
    match accept {
        None => after == before,
        Some(a) => match choose_encoding(a) {
            None => after == with_compression(before, None, Ok(before.content)),
            Some(e) => after == with_compression(before, Some(e), Ok(encoded(e, before.content))),
        },
    }
}

impl Response {
    /// Takes the encoder's outcome for `encoding` into the response: the encoded
    /// content and its encoding name, or, where the encoder failed, an internal-error
    /// status with the message as plain content and no encoding.
    pub fn apply_compression(self, encoding: Option<Encoding>, outcome: Result<Vec<u8>, Vec<u8>>) -> (r: Response)
        ensures
            r@ == with_compression(self@, encoding, outcome_view(outcome)),
    {
        proof {
            reveal_strlit("gzip");
            reveal_strlit("deflate");
            reveal_strlit("Error compressing content: ");
        }
        match outcome {
            Ok(content) => {
                let content_encoding = match encoding {
                    Some(Encoding::Gzip) => Some(ascii_bytes("gzip")),
                    Some(Encoding::Deflate) => Some(ascii_bytes("deflate")),
                    None => None,
                };
                Response { content_encoding, content, ..self }
            },
            Err(message) => {
                let mut content = ascii_bytes("Error compressing content: ");
                push_all(&mut content, message.as_slice());
                Response {
                    status: HttpCode::InternalServerError,
                    content_encoding: None,
                    content,
                    ..self
                }
            },
        }
    }

    /// Compresses the content as the client's `accept-encoding` value allows.
    pub fn compress(self, compression: Option<&[u8]>) -> (r: Response)
        ensures
            compressed_as(
                self@,
                match compression {
                    Some(a) => Some(a@),
                    None => None,
                },
                r@,
            ),
    {
        match compression {
            None => self,
            Some(accept) => {
                let encoding = select_encoding(accept);
                let outcome = match encoding {
                    Some(Encoding::Gzip) => compress_gzip(self.content.as_slice()),
                    Some(Encoding::Deflate) => compress_deflate(self.content.as_slice()),
                    None => {
                        let kept = slice_copy(self.content.as_slice(), 0, self.content.len());
                        assert(kept@ =~= self.content@);
                        Ok(kept)
                    },
                };
                let ghost o = outcome_view(outcome);
                let r = self.apply_compression(encoding, outcome);
                proof {
                    match encoding {
                        Some(e) => assert(o == Ok::<Seq<u8>, Seq<u8>>(encoded(e, self@.content))),
                        None => assert(o == Ok::<Seq<u8>, Seq<u8>>(self@.content)),
                    }
                }
                r
            },
        }
    }
}

proof fn lemma_decimal_digits(n: nat)
    ensures
        decimal(n).len() > 0,
        all_digits(decimal(n)),
        digits_value(decimal(n)) == n,
    decreases n,
{
    if n >= 10 {
        lemma_decimal_digits(n / 10);
        let d = decimal(n);
        assert(d.drop_last() =~= decimal(n / 10));
        assert(d.last() == (48 + n % 10) as u8);
        assert((n / 10) * 10 + n % 10 == n) by (nonlinear_arith);
        assert((d.last() - 48) as nat == n % 10);
        assert(digits_value(d) == digits_value(d.drop_last()) * 10 + (d.last() - 48) as nat);
        assert(all_digits(d)) by {
            assert forall|i: int| 0 <= i < d.len() implies crate::bytes::is_digit(#[trigger] d[i]) by {
                if i < d.len() - 1 {
                    assert(d[i] == decimal(n / 10)[i]);
                }
            }
        }
    } else {
        let d = decimal(n);
        assert(d.drop_last() =~= Seq::<u8>::empty());
        assert(digits_value(d.drop_last()) == 0);
        assert((d.last() - 48) as nat == n);
    }
}

/// The Content-Length that the wire form gives, read back as a decimal, is the
/// length of the content.
pub proof fn lemma_decimal_round_trip(n: usize)
    ensures
        parse_usize(decimal(n as nat)) == Some(n),
{
    lemma_decimal_digits(n as nat);
    let d = decimal(n as nat);
    assert(unsigned_digits(d) == d);
}

/// A response without content goes out as its status line, its connection
/// directive and a blank line, with no content headers; one with content carries
/// its content type and a Content-Length that reads back as the exact length of the
/// (possibly encoded) content, then a blank line and the content.
pub proof fn lemma_wire_content_headers(r: ResponseView)
    ensures
        r.content.len() == 0 ==> wire(r) == head_lines(r) + crlf(),
        r.content.len() > 0 ==> wire(r) == head_lines(r) + content_lines(r) + crlf() + r.content,
        r.content.len() > 0 && r.content.len() <= usize::MAX ==> parse_usize(
            decimal(r.content.len()),
        ) == Some(r.content.len() as usize),
{
    if r.content.len() > 0 && r.content.len() <= usize::MAX {
        lemma_decimal_round_trip(r.content.len() as usize);
    }
}

/// gzip is chosen whenever the `accept-encoding` value names it, wherever deflate
/// stands in it.
pub proof fn lemma_gzip_preferred(accept: Seq<u8>)
    requires
        contains(accept, ascii("gzip"@)),
    ensures
        choose_encoding(accept) == Some(Encoding::Gzip),
{
}

} // verus!
