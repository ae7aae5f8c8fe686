use mercutio::io::http::{
    handle_get, session_action, tool_reply, ExchangeAction, HttpResponse, McpRouter, McpService,
    OptionalSessionId, ResponseBody, SessionHeader, SessionIdRejection,
};
use mercutio::io::http::{access_failure, creation_failure, deletion_response, read_body};
use mercutio::io::sessions::Sessions;
use mercutio::io::storage::{
    InMemoryStorage, InMemoryStorageError, DEFAULT_CAPACITY, DEFAULT_MIN_EVICTION_AGE,
};
use mercutio::io::{McpSessionId, HTTP_SESSION_ID_HEADER};
use mercutio::{
    parse_line, McpServer, McpServerBuilder, MessageId, NoTools, Output, Responder,
};

const INITIALIZE: &str = r#"{"jsonrpc":"2.0","id":1,"method":"initialize","params":{"protocolVersion":"2025-06-18","capabilities":{},"clientInfo":{"name":"test","version":"1.0"}}}"#;
const INITIALIZED: &str = r#"{"jsonrpc":"2.0","method":"notifications/initialized"}"#;

fn test_builder() -> McpServerBuilder<NoTools> {
    let mut builder = McpServer::builder();
    builder.name("test").version("1.0");
    builder
}

fn test_service() -> McpService<NoTools> {
    McpRouter::builder(test_builder()).build()
}

/// Posts a body and returns the response.
fn post(
    service: &mut McpService<NoTools>,
    header: SessionHeader,
    body: &str,
    now: u128,
) -> HttpResponse {
    match service.handle_post(&header, body.as_bytes(), McpSessionId::random(), now) {
        ExchangeAction::Respond { response, .. } => response,
        ExchangeAction::Call { .. } => unreachable!("no tools"),
    }
}

fn named(id: McpSessionId) -> SessionHeader {
    SessionHeader::Text(id.to_string())
}

#[test]
fn initialize_creates_session() {
    let mut service = test_service();
    let response = post(&mut service, SessionHeader::Absent, INITIALIZE, 1);
    assert_eq!(response.status, 200);
    let session_id = response.session.expect("session header").to_string();
    assert!(!session_id.is_empty());
    let ResponseBody::Json(body) = response.body else {
        panic!("expected JSON");
    };
    assert!(body.contains("\"protocolVersion\":\"2025-11-25\""));
    assert_eq!(HTTP_SESSION_ID_HEADER, "mcp-session-id");
}

#[test]
fn subsequent_request_requires_session() {
    let mut service = test_service();
    let session = post(&mut service, SessionHeader::Absent, INITIALIZE, 1)
        .session
        .expect("session header");

    let response = post(&mut service, named(session), INITIALIZED, 2);
    assert_eq!(response.status, 202);

    let ping_body = r#"{"jsonrpc":"2.0","id":2,"method":"ping"}"#;
    let response = post(&mut service, named(session), ping_body, 3);
    assert_eq!(response.status, 200);
    assert_eq!(response.session, Some(session));
}

#[test]
fn invalid_session_returns_404() {
    let mut service = test_service();
    let body = r#"{"jsonrpc":"2.0","id":1,"method":"ping"}"#;
    let response = post(
        &mut service,
        SessionHeader::Text("00000000000000000000000000000000".into()),
        body,
        1,
    );
    assert_eq!(response.status, 404);
}

#[test]
fn delete_removes_session() {
    let mut service = test_service();
    let session = post(&mut service, SessionHeader::Absent, INITIALIZE, 1)
        .session
        .expect("session header");

    assert_eq!(service.handle_delete(&named(session)).status, 204);

    let ping_body = r#"{"jsonrpc":"2.0","id":2,"method":"ping"}"#;
    let response = post(&mut service, named(session), ping_body, 2);
    assert_eq!(response.status, 404);
    assert_eq!(service.handle_delete(&named(session)).status, 404);
}

#[test]
fn get_returns_405() {
    assert_eq!(handle_get().status, 405);
}

#[test]
fn protocol_errors_end_the_session() {
    let mut service = test_service();
    let session = post(&mut service, SessionHeader::Absent, INITIALIZE, 1)
        .session
        .expect("session header");
    let response = post(&mut service, named(session), INITIALIZE, 2);
    assert_eq!(response.status, 400);
    let ResponseBody::Text(text) = response.body else {
        panic!("expected text");
    };
    assert_eq!(
        text,
        "protocol error: unexpected message: expected notifications/initialized, got request:initialize"
    );
    let response = post(&mut service, named(session), INITIALIZED, 3);
    assert_eq!(response.status, 404);
}

#[test]
fn bad_requests_change_nothing() {
    let mut service = test_service();
    let fresh = McpSessionId::from_raw(7);
    let ExchangeAction::Respond { response, remove } =
        service.handle_post(&SessionHeader::Absent, b"{\"a\":\"\xff\"}", fresh, 1)
    else {
        panic!("expected a response");
    };
    assert!(!remove);
    assert_eq!(response.status, 400);
    assert!(matches!(response.body, ResponseBody::Text(text) if text == "invalid UTF-8"));

    let response = post(&mut service, SessionHeader::Absent, "{", 1);
    assert_eq!(response.status, 400);
    assert!(matches!(response.body, ResponseBody::Text(text)
        if text.starts_with("invalid JSON-RPC: failed to parse JSON-RPC message: ")));

    let response = post(
        &mut service,
        SessionHeader::Text("not-hex".into()),
        INITIALIZE,
        1,
    );
    assert_eq!(response.status, 400);
    assert!(matches!(response.body, ResponseBody::Text(text) if text == "invalid session ID"));

    let response = post(&mut service, SessionHeader::NotText, INITIALIZE, 1);
    assert_eq!(response.status, 400);

    let response = service.handle_delete(&SessionHeader::Absent);
    assert_eq!(response.status, 400);
    assert!(matches!(response.body, ResponseBody::Text(text)
        if text == "missing session ID header `mcp-session-id`"));
    assert_eq!(service.handle_delete(&named(fresh)).status, 404);
}

#[test]
fn full_storage_is_unavailable() {
    let mut service = McpRouter::builder(test_builder())
        .storage(InMemoryStorage::new(1, 100))
        .build();
    assert_eq!(
        post(&mut service, SessionHeader::Absent, INITIALIZE, 1000).status,
        200
    );
    let response = post(&mut service, SessionHeader::Absent, INITIALIZE, 1100);
    assert_eq!(response.status, 503);
    assert!(matches!(response.body, ResponseBody::Text(text)
        if text == "storage error: session storage at capacity"));
    assert_eq!(
        post(&mut service, SessionHeader::Absent, INITIALIZE, 1101).status,
        200
    );
}

#[test]
fn headers_are_extracted() {
    let absent = SessionHeader::Absent;
    assert!(matches!(
        McpSessionId::from_header(&absent),
        Err(SessionIdRejection::Missing)
    ));
    assert!(matches!(
        OptionalSessionId::from_header(&absent),
        Ok(OptionalSessionId(None))
    ));
    let id = McpSessionId::from_header(&SessionHeader::Text("ff".into())).expect("identifier");
    assert_eq!(id.as_raw(), 255);
    let rejection = McpSessionId::from_header(&SessionHeader::NotText).expect_err("not text");
    assert_eq!(rejection.to_string(), "session ID header not valid UTF-8");
    let rejection = OptionalSessionId::from_header(&SessionHeader::Text("zz".into()))
        .expect_err("not hexadecimal");
    assert_eq!(rejection.to_string(), "invalid session ID");
    assert_eq!(rejection.into_response().status, 400);
}

#[test]
fn actions_follow_the_output() {
    let id = McpSessionId::from_raw(9);
    let none: Option<Output<NoTools>> = None;
    let ExchangeAction::Respond { response, remove } = session_action(none, id) else {
        panic!("expected a response");
    };
    assert_eq!(response.status, 404);
    assert!(!remove);
    let response = tool_reply(id, Responder::new(MessageId::Integer(2)), "sunny");
    assert_eq!(response.session, Some(id));
    assert!(matches!(response.body, ResponseBody::Json(text)
        if text == r#"{"id":2,"jsonrpc":"2.0","result":{"content":[{"text":"sunny","type":"text"}],"isError":false}}"#));
    assert_eq!(creation_failure("x").status, 503);
    let failure = access_failure("gone");
    assert_eq!(failure.status, 500);
    assert!(matches!(failure.body, ResponseBody::Text(text) if text == "storage error: gone"));
    assert_eq!(deletion_response(true).status, 204);
    assert!(read_body(INITIALIZED.as_bytes()).is_ok());
}

/// Whether a session answers.
fn reached(storage: &mut InMemoryStorage<NoTools>, id: McpSessionId, now: u128) -> bool {
    let ping = parse_line(r#"{"jsonrpc":"2.0","id":2,"method":"ping"}"#).expect("ping");
    storage.handle(id, ping, now).is_some()
}

#[test]
fn create_and_access_session() {
    let mut storage = InMemoryStorage::new(10, 0);
    let server = test_builder().build();
    let id = storage
        .create(McpSessionId::random(), server, 1)
        .expect("room");
    assert!(reached(&mut storage, id, 2));
    assert_eq!(storage.len(), 1);
}

#[test]
fn missing_session_returns_none() {
    let mut storage: InMemoryStorage<NoTools> = InMemoryStorage::new(10, 0);
    assert!(!reached(&mut storage, McpSessionId::from_raw(12345), 1));
    assert!(storage.is_empty());
}

#[test]
fn remove_session() {
    let mut storage = InMemoryStorage::new(10, 0);
    let id = storage
        .create(McpSessionId::random(), test_builder().build(), 1)
        .expect("room");
    assert!(storage.remove(id));
    assert!(!storage.remove(id));
}

#[test]
fn evicts_oldest_when_at_capacity() {
    let mut storage = InMemoryStorage::new(2, 0);

    let id1 = storage
        .create(McpSessionId::from_raw(1), test_builder().build(), 1)
        .expect("room");
    let id2 = storage
        .create(McpSessionId::from_raw(2), test_builder().build(), 2)
        .expect("room");
    let id3 = storage
        .create(McpSessionId::from_raw(3), test_builder().build(), 3)
        .expect("room after eviction");

    assert!(!reached(&mut storage, id1, 4), "oldest session should be evicted");
    assert!(reached(&mut storage, id2, 4));
    assert!(reached(&mut storage, id3, 4));
}

#[test]
fn at_capacity_when_sessions_too_young() {
    let mut storage = InMemoryStorage::new(2, 60_000_000_000);

    storage
        .create(McpSessionId::from_raw(1), test_builder().build(), 1)
        .expect("room");
    storage
        .create(McpSessionId::from_raw(2), test_builder().build(), 2)
        .expect("room");

    let result = storage.create(McpSessionId::from_raw(3), test_builder().build(), 3);
    assert!(matches!(result, Err(InMemoryStorageError::AtCapacity)));
    assert_eq!(
        InMemoryStorageError::AtCapacity.to_string(),
        "session storage at capacity"
    );
}

#[test]
fn access_keeps_a_session_from_eviction() {
    let mut storage = InMemoryStorage::new(2, 0);
    let id1 = McpSessionId::from_raw(1);
    let id2 = McpSessionId::from_raw(2);
    storage.create(id1, test_builder().build(), 1).expect("room");
    storage.create(id2, test_builder().build(), 2).expect("room");
    assert!(reached(&mut storage, id1, 3));
    storage
        .create(McpSessionId::from_raw(3), test_builder().build(), 4)
        .expect("room after eviction");
    assert!(reached(&mut storage, id1, 5));
    assert!(!reached(&mut storage, id2, 5));
}

#[test]
fn storage_without_capacity_holds_nothing() {
    let mut storage = InMemoryStorage::new(0, 0);
    assert!(storage
        .create(McpSessionId::from_raw(1), test_builder().build(), 1)
        .is_err());
    assert_eq!(DEFAULT_CAPACITY, 10_000);
    assert_eq!(DEFAULT_MIN_EVICTION_AGE, 120_000_000_000);
}

#[test]
fn sessions_are_taken_out_and_put_back() {
    let mut storage = InMemoryStorage::new(1, 0);
    let id = McpSessionId::from_raw(4);
    storage.create(id, test_builder().build(), 1).expect("room");
    let server = storage.take_out(id).expect("session");
    assert!(storage.take_out(id).is_none());
    assert!(storage.put_back(id, server, 2));
    assert!(!storage.put_back(McpSessionId::from_raw(5), test_builder().build(), 3));
    assert_eq!(storage.len(), 1);
}

#[test]
fn session_sets_track_membership() {
    let mut sessions = Sessions::new(test_builder());
    let id = McpSessionId::from_raw(4);
    assert!(sessions.is_empty());
    sessions.insert(id);
    sessions.insert(id);
    assert_eq!(sessions.len(), 1);
    assert!(sessions.remove(id));
    assert!(!sessions.remove(id));
}
