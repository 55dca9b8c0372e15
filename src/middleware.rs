//! The fixed chain of steps between a handler's response and the wire.
use vstd::prelude::*;
use crate::bytes::{ascii, ascii_bytes};
use crate::headers::lookup;
use crate::request::Request;
use crate::response::{compressed_as, Response, ResponseView};

verus! {

/// `r` with the request's version and connection directive taken over.
pub open spec fn stamped(req_version: Seq<u8>, req_headers: Seq<(Seq<u8>, Seq<u8>)>, r: ResponseView) -> ResponseView {
    ResponseView {
        version: req_version,
        connection: lookup(req_headers, ascii("connection"@)),
        ..r
    }
}

/// Runs the chain in its order: version, connection directive, compression.
pub fn handle_middlewares(request: &Request, response: Response) -> (r: Response)
    ensures
        compressed_as(
            stamped(request.version@, request.headers@, response@),
            lookup(request.headers@, ascii("accept-encoding"@)),
            r@,
        ),
{
    let response = mw_version(request, response);
    let response = mw_close_connection(request, response);
    mw_compress(request, response)
}

/// Echoes the client's `connection` header, if any, as the response's directive.
pub fn mw_close_connection(request: &Request, response: Response) -> (r: Response)
    ensures
        r@ == (ResponseView { connection: lookup(request.headers@, ascii("connection"@)), ..response@ }),
{
    proof {
        reveal_strlit("connection");
    }
    let name = ascii_bytes("connection");
    Response { connection: request.header(name.as_slice()), ..response }
}

/// Gives the response the request's protocol version.
pub fn mw_version(request: &Request, response: Response) -> (r: Response)
    ensures
        r@ == (ResponseView { version: request.version@, ..response@ }),
{
    let version = crate::bytes::slice_copy(request.version.as_slice(), 0, request.version.len());
    assert(version@ =~= request.version@);
    Response { version, ..response }
}

/// Compresses the content as the client's `accept-encoding` header allows.
pub fn mw_compress(request: &Request, response: Response) -> (r: Response)
    ensures
        compressed_as(response@, lookup(request.headers@, ascii("accept-encoding"@)), r@),
{
    proof {
        reveal_strlit("accept-encoding");
    }
    let name = ascii_bytes("accept-encoding");
    match request.header(name.as_slice()) {
        Some(accept) => response.compress(Some(accept.as_slice())),
        None => response.compress(None),
    }
}

} // verus!
