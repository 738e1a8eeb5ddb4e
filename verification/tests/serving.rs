use pico_http::handlers::StaticPageHandler;
use pico_http::request::Method;
use pico_http::response::StatusCode;
use pico_http::server::{next_state, ConnectionEvent, ConnectionState, HttpServer};

fn demo_server() -> HttpServer<StaticPageHandler, 4096> {
    HttpServer::new()
        .route(b"/", Method::GET, StaticPageHandler { page: b"<html>hi</html>".to_vec() })
        .unwrap()
}

#[test]
fn respond_to_serves_registered_page() {
    let server = demo_server();
    let resp = server.respond_to(b"GET / HTTP/1.1\r\nHost: h\r\n\r\n");
    assert_eq!(resp.header.status(), StatusCode::Okay);
    assert_eq!(resp.content.as_slice(), b"<html>hi</html>");
}

#[test]
fn repeated_request_is_byte_identical() {
    // the same request on the same open connection draws byte-identical
    // responses cycle after cycle
    let server = demo_server();
    let request = b"GET / HTTP/1.1\r\nHost: h\r\n\r\n";
    let first = server.respond_to(request).to_bytes();
    let second = server.respond_to(request).to_bytes();
    let third = server.respond_to(request).to_bytes();
    assert_eq!(first, second);
    assert_eq!(second, third);
}

#[test]
fn parse_failure_synthesizes_error_response() {
    let server = demo_server();
    let resp = server.respond_to(b"NONSENSE");
    assert_eq!(resp.header.status(), StatusCode::BadRequest);
    assert!(resp.content.is_empty());
}

#[test]
fn unroutable_request_is_not_found() {
    let server = demo_server();
    let resp = server.respond_to(b"GET /absent HTTP/1.1\r\nHost: h\r\n\r\n");
    assert_eq!(resp.header.status(), StatusCode::NotFound);
    assert!(resp.content.is_empty());
}

#[test]
fn registering_a_duplicate_route_fails() {
    let server = demo_server();
    let r = server.route(b"/", Method::GET, StaticPageHandler { page: Vec::new() });
    assert!(r.is_err());
}

#[test]
fn connection_cycle_follows_the_state_machine() {
    let mut state = ConnectionState::Listening;
    state = next_state(state, ConnectionEvent::AcceptOk);
    assert_eq!(state, ConnectionState::Accepted);
    state = next_state(state, ConnectionEvent::ReadIssued);
    assert_eq!(state, ConnectionState::AwaitingRequest);
    state = next_state(state, ConnectionEvent::ParseOk);
    assert_eq!(state, ConnectionState::Dispatching);
    state = next_state(state, ConnectionEvent::Dispatched);
    assert_eq!(state, ConnectionState::Sending);
    state = next_state(state, ConnectionEvent::WriteOk);
    assert_eq!(state, ConnectionState::AwaitingRequest);
}

#[test]
fn transport_failures_return_to_listening() {
    assert_eq!(
        next_state(ConnectionState::AwaitingRequest, ConnectionEvent::ReadEof),
        ConnectionState::Listening
    );
    assert_eq!(
        next_state(ConnectionState::AwaitingRequest, ConnectionEvent::ReadErr),
        ConnectionState::Listening
    );
    assert_eq!(
        next_state(ConnectionState::Sending, ConnectionEvent::WriteErr),
        ConnectionState::Listening
    );
    assert_eq!(
        next_state(ConnectionState::Listening, ConnectionEvent::AcceptErr),
        ConnectionState::Listening
    );
}

#[test]
fn parse_failure_skips_dispatch_and_sends() {
    assert_eq!(
        next_state(ConnectionState::AwaitingRequest, ConnectionEvent::ParseErr),
        ConnectionState::Sending
    );
}

#[test]
fn only_shutdown_reaches_closed() {
    let states = [
        ConnectionState::Listening,
        ConnectionState::Accepted,
        ConnectionState::AwaitingRequest,
        ConnectionState::Dispatching,
        ConnectionState::Sending,
    ];
    let events = [
        ConnectionEvent::AcceptOk,
        ConnectionEvent::AcceptErr,
        ConnectionEvent::ReadIssued,
        ConnectionEvent::ReadEof,
        ConnectionEvent::ReadErr,
        ConnectionEvent::ParseOk,
        ConnectionEvent::ParseErr,
        ConnectionEvent::Dispatched,
        ConnectionEvent::WriteOk,
        ConnectionEvent::WriteErr,
    ];
    for s in states {
        for e in events {
            assert_ne!(next_state(s, e), ConnectionState::Closed);
        }
        assert_eq!(next_state(s, ConnectionEvent::Shutdown), ConnectionState::Closed);
    }
}
