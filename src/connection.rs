//! One connection's life: the decisions between reading, answering and closing.
use vstd::prelude::*;
use crate::bytes::ascii;
use crate::headers::lookup;
use crate::middleware::{handle_middlewares, stamped};
use crate::request::Request;
use crate::response::{compressed_as, handle_response, wire, Response, ResponseView};

verus! {

/// Where a connection stands.
#[derive(PartialEq, Eq, Structural, Clone, Copy, Debug)]
pub enum ConnState {
    AwaitingRequest,
    Processing { persistent: bool },
    Writing { persistent: bool },
    Closing,
}

/// What just happened on a connection.
#[derive(PartialEq, Eq, Structural, Clone, Copy, Debug)]
pub enum ConnEvent {
    /// A blank line came where a request should start.
    Blank,
    /// A request was read; `persistent` is its persistence flag.
    Parsed { persistent: bool },
    /// Reading a request failed.
    ParseFailed,
    /// The response bytes are ready.
    Responded,
    /// The response was written.
    Wrote,
}

pub open spec fn transition(s: ConnState, e: ConnEvent) -> ConnState {
    match (s, e) {
        (ConnState::AwaitingRequest, ConnEvent::Blank) => ConnState::AwaitingRequest,
        (ConnState::AwaitingRequest, ConnEvent::Parsed { persistent }) => ConnState::Processing {
            persistent,
        },
        (ConnState::AwaitingRequest, ConnEvent::ParseFailed) => ConnState::Closing,
        (ConnState::Processing { persistent }, ConnEvent::Responded) => ConnState::Writing {
            persistent,
        },
        (ConnState::Writing { persistent }, ConnEvent::Wrote) => if persistent {
            ConnState::AwaitingRequest
        } else {
            ConnState::Closing
        },
        _ => ConnState::Closing,
    }
}

/// The state that follows `s` on `e`; an event out of place closes the connection.
pub fn next_state(s: ConnState, e: ConnEvent) -> (r: ConnState)
    ensures
        r == transition(s, e),
{
    match (s, e) {
        (ConnState::AwaitingRequest, ConnEvent::Blank) => ConnState::AwaitingRequest,
        (ConnState::AwaitingRequest, ConnEvent::Parsed { persistent }) => ConnState::Processing {
            persistent,
        },
        (ConnState::AwaitingRequest, ConnEvent::ParseFailed) => ConnState::Closing,
        (ConnState::Processing { persistent }, ConnEvent::Responded) => ConnState::Writing {
            persistent,
        },
        (ConnState::Writing { persistent }, ConnEvent::Wrote) => if persistent {
            ConnState::AwaitingRequest
        } else {
            ConnState::Closing
        },
        _ => ConnState::Closing,
    }
}

/// Runs a handler's response through the middleware chain and serializes it.
pub fn handle_http_message(request: &Request, response: Response) -> (r: Vec<u8>)
    ensures
        exists|v: ResponseView|
            compressed_as(
                stamped(request.version@, request.headers@, response@),
                lookup(request.headers@, ascii("accept-encoding"@)),
                v,
            ) && r@ == wire(v),
{
    let response = handle_middlewares(request, response);
    let ghost v = response@;
    let r = handle_response(response);
    assert(r@ == wire(v));
    r
}

/// After a request is answered, a persistent connection awaits the next one and
/// any other closes.
pub proof fn lemma_persistence_decides(persistent: bool)
    ensures
        transition(
            transition(
                transition(ConnState::AwaitingRequest, ConnEvent::Parsed { persistent }),
                ConnEvent::Responded,
            ),
            ConnEvent::Wrote,
        ) == if persistent {
            ConnState::AwaitingRequest
        } else {
            ConnState::Closing
        },
{
}

} // verus!
