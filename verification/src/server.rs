//! The decision logic of the single-connection server loop: one routing
//! table, one request/response cycle at a time, and the connection state
//! machine that survives partial input, malformed input and socket errors.
//!
//! The embedding program owns the sockets and buffers; it feeds each
//! received buffer to [`HttpServer::respond_to`] and drives
//! [`next_state`] with the outcomes of its accept, read and write calls.

use vstd::prelude::*;

use crate::request::{spec_parse_request, HttpRequest, Method};
use crate::response::{HttpResponse, ResponseModel, StatusCode};
use crate::router::{spec_dispatch, RequestHandler, Router, MAX_ROUTES};

verus! {

/// Where a connection stands between two I/O outcomes.
#[derive(Clone, Copy, Debug, PartialEq, Eq, Structural)]
pub enum ConnectionState {
    /// Blocked on accepting the next connection.
    Listening,
    /// A connection is accepted; the idle timeout is not armed yet.
    Accepted,
    /// The idle timeout is armed and a read is pending.
    AwaitingRequest,
    /// A parsed request is being dispatched through the routing table.
    Dispatching,
    /// A response is being written to the socket.
    Sending,
    /// The connection is torn down for good; reached only by explicit
    /// shutdown, never as a response to a valid request.
    Closed,
}

/// What the embedding program observed at its last suspension point.
#[derive(Clone, Copy, Debug, PartialEq, Eq, Structural)]
pub enum ConnectionEvent {
    /// An accept call returned a connection.
    AcceptOk,
    /// An accept call failed; the listener retries.
    AcceptErr,
    /// The idle timeout was armed and a read was issued.
    ReadIssued,
    /// A read returned zero bytes: the peer closed the connection.
    ReadEof,
    /// A read failed, the idle timeout included.
    ReadErr,
    /// A read returned bytes and they parsed into a request.
    ParseOk,
    /// A read returned bytes and parsing them failed; an error response is
    /// synthesized and dispatch is skipped.
    ParseErr,
    /// The routing table produced a response.
    Dispatched,
    /// The whole response was written.
    WriteOk,
    /// Writing the response failed.
    WriteErr,
    /// The deployment tears the server down.
    Shutdown,
}

/// The connection state after `event` is observed in `state`: transport
/// failures close the connection and return to listening; a completed write
/// keeps the connection open for the next request; only an explicit
/// shutdown reaches `Closed`.
pub open spec fn spec_next_state(state: ConnectionState, event: ConnectionEvent) -> ConnectionState {
    match (state, event) {
        (_, ConnectionEvent::Shutdown) => ConnectionState::Closed,
        (ConnectionState::Listening, ConnectionEvent::AcceptOk) => ConnectionState::Accepted,
        (ConnectionState::Listening, ConnectionEvent::AcceptErr) => ConnectionState::Listening,
        (ConnectionState::Accepted, ConnectionEvent::ReadIssued) => ConnectionState::AwaitingRequest,
        (ConnectionState::AwaitingRequest, ConnectionEvent::ReadEof) => ConnectionState::Listening,
        (ConnectionState::AwaitingRequest, ConnectionEvent::ReadErr) => ConnectionState::Listening,
        (ConnectionState::AwaitingRequest, ConnectionEvent::ParseOk) => ConnectionState::Dispatching,
        (ConnectionState::AwaitingRequest, ConnectionEvent::ParseErr) => ConnectionState::Sending,
        (ConnectionState::Dispatching, ConnectionEvent::Dispatched) => ConnectionState::Sending,
        (ConnectionState::Sending, ConnectionEvent::WriteOk) => ConnectionState::AwaitingRequest,
        (ConnectionState::Sending, ConnectionEvent::WriteErr) => ConnectionState::Listening,
        (s, _) => s,
    }
}

/// Advances the connection state machine by one observed event.
pub fn next_state(state: ConnectionState, event: ConnectionEvent) -> (r: ConnectionState)
    ensures
        r == spec_next_state(state, event),
{
    match (state, event) {
        (_, ConnectionEvent::Shutdown) => ConnectionState::Closed,
        (ConnectionState::Listening, ConnectionEvent::AcceptOk) => ConnectionState::Accepted,
        (ConnectionState::Listening, ConnectionEvent::AcceptErr) => ConnectionState::Listening,
        (ConnectionState::Accepted, ConnectionEvent::ReadIssued) => ConnectionState::AwaitingRequest,
        (ConnectionState::AwaitingRequest, ConnectionEvent::ReadEof) => ConnectionState::Listening,
        (ConnectionState::AwaitingRequest, ConnectionEvent::ReadErr) => ConnectionState::Listening,
        (ConnectionState::AwaitingRequest, ConnectionEvent::ParseOk) => ConnectionState::Dispatching,
        (ConnectionState::AwaitingRequest, ConnectionEvent::ParseErr) => ConnectionState::Sending,
        (ConnectionState::Dispatching, ConnectionEvent::Dispatched) => ConnectionState::Sending,
        (ConnectionState::Sending, ConnectionEvent::WriteOk) => ConnectionState::AwaitingRequest,
        (ConnectionState::Sending, ConnectionEvent::WriteErr) => ConnectionState::Listening,
        (s, _) => s,
    }
}

/// The closed state is reached only by an explicit shutdown, never by an
/// I/O outcome or a request.
pub proof fn lemma_closed_only_by_shutdown(state: ConnectionState, event: ConnectionEvent)
    requires
        state != ConnectionState::Closed,
        spec_next_state(state, event) == ConnectionState::Closed,
    ensures
        event == ConnectionEvent::Shutdown,
{
}

/// The server core: a routing table and the request/response cycle, without
/// the sockets. `RESPONSE_CAPACITY` bounds each response body.
pub struct HttpServer<H, const RESPONSE_CAPACITY: usize> {
    router: Router<H>,
}

/// The response the server produces for a received buffer: the parsed
/// request dispatched through the table, or, when parsing fails, an empty
/// response carrying the failing status.
pub open spec fn spec_respond<H: RequestHandler<RESPONSE_CAPACITY>, const RESPONSE_CAPACITY: usize>(
    server: HttpServer<H, RESPONSE_CAPACITY>,
    buffer: Seq<u8>,
) -> ResponseModel {
    match spec_parse_request(buffer) {
        Ok(req) => spec_dispatch(server.spec_router(), req),
        Err(code) => ResponseModel { status: code, content: Seq::empty() },
    }
}

impl<H, const RESPONSE_CAPACITY: usize> HttpServer<H, RESPONSE_CAPACITY> {
    /// The routing table the server dispatches through.
    pub closed spec fn spec_router(self) -> Router<H> {
        self.router
    }

    /// The table is within its bounds.
    pub open spec fn wf(self) -> bool {
        self.spec_router().wf()
    }

    /// Creates a server with no routes.
    pub fn new() -> (r: HttpServer<H, RESPONSE_CAPACITY>)
        ensures
            r.wf(),
            r.spec_router()@ == Map::<(Seq<u8>, Method), H>::empty(),
    {
        HttpServer { router: Router::empty() }
    }

    /// Adds a route. Fails exactly when the key is already registered or
    /// the table is full — fatal at startup, never a silently dropped
    /// route.
    pub fn route(self, path: &[u8], method: Method, handler: H) -> (r: Result<
        HttpServer<H, RESPONSE_CAPACITY>,
        (),
    >)
        requires
            self.wf(),
        ensures
            r is Ok <==> (!self.spec_router()@.dom().contains((path@, method))
                && self.spec_router()@.dom().len() < MAX_ROUTES),
            match r {
                Ok(r2) => r2.wf() && r2.spec_router()@ == self.spec_router()@.insert(
                    (path@, method),
                    handler,
                ),
                Err(()) => true,
            },
    {
        match self.router.route(path, method, handler) {
            Ok(router) => Ok(HttpServer { router }),
            Err(()) => Err(()),
        }
    }
}

impl<H, const RESPONSE_CAPACITY: usize> HttpServer<H, RESPONSE_CAPACITY> where
    H: RequestHandler<RESPONSE_CAPACITY>,
 {
    /// Produces the response for one received buffer: parses it, dispatches
    /// a successful parse through the table, and synthesizes an empty
    /// response from the failing status otherwise.
    pub fn respond_to(&self, buffer: &[u8]) -> (r: HttpResponse<RESPONSE_CAPACITY>)
        requires
            self.wf(),
        ensures
            r.wf(),
            r.model() == spec_respond(*self, buffer@),
    {
        match HttpRequest::parse(buffer) {
            Ok(req) => self.router.handle(req),
            Err(code) => HttpResponse::empty(code),
        }
    }
}

/// The responses the server draws for a sequence of received buffers on one
/// open connection, in order. The routing table is read-only during the
/// loop, so every cycle consults the same table.
pub open spec fn spec_cycle_responses<
    H: RequestHandler<RESPONSE_CAPACITY>,
    const RESPONSE_CAPACITY: usize,
>(server: HttpServer<H, RESPONSE_CAPACITY>, buffers: Seq<Seq<u8>>) -> Seq<ResponseModel> {
    Seq::new(buffers.len(), |k: int| spec_respond(server, buffers[k]))
}

/// Repeating a request on the same open connection draws byte-identical
/// responses: two equal buffers in one connection's cycle sequence are
/// answered by responses with equal wire bytes, the collaborator state
/// held in the handlers being unchanged.
pub proof fn lemma_repeated_request_identical_response<
    H: RequestHandler<RESPONSE_CAPACITY>,
    const RESPONSE_CAPACITY: usize,
>(
    server: HttpServer<H, RESPONSE_CAPACITY>,
    buffers: Seq<Seq<u8>>,
    i: int,
    j: int,
)
    requires
        0 <= i < buffers.len(),
        0 <= j < buffers.len(),
        buffers[i] == buffers[j],
    ensures
        spec_cycle_responses(server, buffers)[i] == spec_cycle_responses(server, buffers)[j],
        HttpResponse::<RESPONSE_CAPACITY>::spec_wire_bytes(spec_cycle_responses(server, buffers)[i])
            == HttpResponse::<RESPONSE_CAPACITY>::spec_wire_bytes(
            spec_cycle_responses(server, buffers)[j],
        ),
{
}

} // verus!
