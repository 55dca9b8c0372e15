//! Maps a request to a handler's response, or to the file work that produces one.
use vstd::prelude::*;
use crate::bytes::{ascii, ascii_bytes, bytes_eq, occurs_at, occurs_at_exec, slice_copy};
use crate::headers::lookup;
use crate::request::Request;
use crate::response::{default_response, HttpCode, Response, ResponseView};

verus! {

/// What serving a request takes: a response at once, or reading or writing the
/// named file under the storage directory first.
pub enum Dispatch {
    Respond(Response),
    ReadFile(Vec<u8>),
    WriteFile(Vec<u8>),
}

/// How an upload ended.
#[derive(PartialEq, Eq, Structural, Clone, Copy, Debug)]
pub enum UploadOutcome {
    Written,
    WriteFailed,
    CreateFailed,
}

pub open spec fn starts_with(s: Seq<u8>, p: Seq<u8>) -> bool {
    occurs_at(s, p, 0)
}

/// The default response carrying `content` with `status`.
pub open spec fn plain(status: HttpCode, content: Seq<u8>) -> ResponseView {
    ResponseView { status, content, ..default_response() }
}

pub open spec fn user_agent_response(ua: Option<Seq<u8>>) -> ResponseView {
    match ua {
        Some(v) => plain(HttpCode::Okay, v),
        None => plain(HttpCode::BadRequest, ascii("Missing User-Agent header"@)),
    }
}

pub open spec fn file_content_view(content: Option<Seq<u8>>) -> ResponseView {
    match content {
        Some(c) => ResponseView {
            content_type: ascii("application/octet-stream"@),
            ..plain(HttpCode::Okay, c)
        },
        None => plain(HttpCode::NotFound, ascii("File not found"@)),
    }
}

pub open spec fn upload_view(o: UploadOutcome) -> ResponseView {
    match o {
        UploadOutcome::Written => plain(HttpCode::Created, Seq::empty()),
        UploadOutcome::WriteFailed => plain(HttpCode::InternalServerError, ascii("Failed to write file"@)),
        UploadOutcome::CreateFailed => plain(HttpCode::InternalServerError, ascii("Failed to create file"@)),
    }
}

/// The routing table: `/`, `/user-agent`, `/echo/<text>`, and `/files/<name>`
/// for GET (read) and POST (write); anything else is not found.
pub open spec fn routed(method: Seq<u8>, path: Seq<u8>, headers: Seq<(Seq<u8>, Seq<u8>)>, version: Seq<u8>, d: Dispatch) -> bool {
    if path == ascii("/"@) {
        d matches Dispatch::Respond(r) && r@ == default_response()
    } else if path == ascii("/user-agent"@) {
        d matches Dispatch::Respond(r) && r@ == user_agent_response(lookup(headers, ascii("user-agent"@)))
    } else if starts_with(path, ascii("/echo/"@)) {
        d matches Dispatch::Respond(r) && r@ == plain(HttpCode::Okay, path.subrange(6, path.len() as int))
    } else if method == ascii("GET"@) && starts_with(path, ascii("/files/"@)) {
        d matches Dispatch::ReadFile(name) && name@ == path.subrange(7, path.len() as int)
    } else if method == ascii("POST"@) && starts_with(path, ascii("/files/"@)) {
        d matches Dispatch::WriteFile(name) && name@ == path.subrange(7, path.len() as int)
    } else {
        d matches Dispatch::Respond(r) && r@ == (ResponseView {
            version,
            ..plain(HttpCode::NotFound, Seq::empty())
        })
    }
}

/// Routes a request.
pub fn handle_request(request: &Request) -> (r: Dispatch)
    ensures
        routed(request.method@, request.path@, request.headers@, request.version@, r),
{
    proof {
        reveal_strlit("/");
        reveal_strlit("/user-agent");
        reveal_strlit("/echo/");
        reveal_strlit("/files/");
        reveal_strlit("GET");
        reveal_strlit("POST");
    }
    let path = request.path.as_slice();
    let root = ascii_bytes("/");
    let user_agent = ascii_bytes("/user-agent");
    let echo = ascii_bytes("/echo/");
    let files = ascii_bytes("/files/");
    let get = ascii_bytes("GET");
    let post = ascii_bytes("POST");
    if bytes_eq(path, root.as_slice()) {
        Dispatch::Respond(Response::default())
    } else if bytes_eq(path, user_agent.as_slice()) {
        Dispatch::Respond(handle_user_agent(request))
    } else if occurs_at_exec(path, echo.as_slice(), 0) {
        Dispatch::Respond(handle_echo(request, &slice_copy(path, 6, path.len())))
    } else if bytes_eq(request.method.as_slice(), get.as_slice()) && occurs_at_exec(path, files.as_slice(), 0) {
        Dispatch::ReadFile(slice_copy(path, 7, path.len()))
    } else if bytes_eq(request.method.as_slice(), post.as_slice()) && occurs_at_exec(path, files.as_slice(), 0) {
        Dispatch::WriteFile(slice_copy(path, 7, path.len()))
    } else {
        let version = slice_copy(request.version.as_slice(), 0, request.version.len());
        assert(version@ =~= request.version@);
        Dispatch::Respond(Response { version, status: HttpCode::NotFound, ..Response::default() })
    }
}

/// Answers with the text that followed `/echo/`.
pub fn handle_echo(_request: &Request, repeat: &Vec<u8>) -> (r: Response)
    ensures
        r@ == plain(HttpCode::Okay, repeat@),
{
    let content = slice_copy(repeat.as_slice(), 0, repeat.len());
    assert(content@ =~= repeat@);
    Response { content, ..Response::default() }
}

/// Answers with the client's `user-agent` header, or a bad request without it.
pub fn handle_user_agent(request: &Request) -> (r: Response)
    ensures
        r@ == user_agent_response(lookup(request.headers@, ascii("user-agent"@))),
{
    proof {
        reveal_strlit("user-agent");
        reveal_strlit("Missing User-Agent header");
    }
    let name = ascii_bytes("user-agent");
    match request.header(name.as_slice()) {
        Some(ua) => Response { content: ua, ..Response::default() },
        None => Response {
            status: HttpCode::BadRequest,
            content: ascii_bytes("Missing User-Agent header"),
            ..Response::default()
        },
    }
}

/// The response to a file read: its content, or not found where it could not be read.
pub fn handle_file_content(content: Option<Vec<u8>>) -> (r: Response)
    ensures
        r@ == file_content_view(match content {
            Some(c) => Some(c@),
            None => None,
        }),
{
    proof {
        reveal_strlit("application/octet-stream");
        reveal_strlit("File not found");
    }
    match content {
        Some(c) => Response {
            content_type: ascii_bytes("application/octet-stream"),
            content: c,
            ..Response::default()
        },
        None => Response {
            status: HttpCode::NotFound,
            content: ascii_bytes("File not found"),
            ..Response::default()
        },
    }
}

/// The response to a file upload.
pub fn handle_file_upload(outcome: UploadOutcome) -> (r: Response)
    ensures
        r@ == upload_view(outcome),
{
    proof {
        reveal_strlit("Failed to write file");
        reveal_strlit("Failed to create file");
    }
    match outcome {
        UploadOutcome::Written => Response { status: HttpCode::Created, ..Response::default() },
        UploadOutcome::WriteFailed => Response {
            status: HttpCode::InternalServerError,
            content: ascii_bytes("Failed to write file"),
            ..Response::default()
        },
        UploadOutcome::CreateFailed => Response {
            status: HttpCode::InternalServerError,
            content: ascii_bytes("Failed to create file"),
            ..Response::default()
        },
    }
}

} // verus!
