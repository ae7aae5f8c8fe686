use mercutio::message::{Notification, Request};
use mercutio::server::refuse_call;
use mercutio::{
    parse_line, Json, JsonRpcError, McpServer, Message, MessageId, NoTools, OutgoingMessage,
    Output, Responder, ToolDefinitions, ToolOutput, ToolRegistry,
};

/// Minimal tool registry for testing builder behavior.
enum TestTools {}

impl ToolRegistry for TestTools {
    fn parse(name: &str, _arguments: Json) -> Result<Self, JsonRpcError> {
        Err(JsonRpcError::MethodNotFound {
            msg: format!("unknown tool: {name}"),
        })
    }

    fn definitions() -> ToolDefinitions {
        ToolDefinitions::new(vec![])
    }
}

#[test]
fn default_values() {
    let server = McpServer::<TestTools>::builder().build();
    assert!(!server.is_ready());
    assert!(server.client().is_none());
}

#[test]
fn tools_disabled_for_no_tools() {
    let server = McpServer::<NoTools>::builder().build();
    assert!(server.config().capabilities.tools.is_none());
}

#[test]
fn tools_enabled_for_registry_with_tools() {
    let server = McpServer::<TestTools>::builder().build();
    assert!(server.config().capabilities.tools.is_some());
    let tools = server
        .config()
        .capabilities
        .tools
        .as_ref()
        .expect("tools capability");
    assert_eq!(tools.list_changed, Some(false));
}

#[test]
fn builder_sets_fields() {
    let server = McpServer::<TestTools>::builder()
        .name("test-server")
        .version("1.2.3")
        .title("Test Server")
        .instructions("Use this server for testing.")
        .build();

    assert_eq!(server.config().info.name, "test-server");
    assert_eq!(server.config().info.version, "1.2.3");
    assert_eq!(server.config().info.title.as_deref(), Some("Test Server"));
    assert_eq!(
        server.config().instructions.as_deref(),
        Some("Use this server for testing.")
    );
}

fn test_server() -> McpServer<NoTools> {
    McpServer::<NoTools>::builder()
        .name("test")
        .version("1.0")
        .build()
}

fn initialize_params() -> Json {
    Json::parse(
        r#"{
            "protocolVersion": "2025-06-18",
            "capabilities": {},
            "clientInfo": { "name": "test-client", "version": "1.0" }
        }"#,
    )
    .expect("valid JSON")
}

fn request(id: &str, method: &str, params: Option<Json>) -> Message {
    Message::Request(Request::new(
        MessageId::String(id.into()),
        method.into(),
        params,
    ))
}

fn notification(method: &str) -> Message {
    Message::Notification(Notification::new(method.into(), None))
}

fn initialize_server(server: &mut McpServer<NoTools>) {
    server.handle(request("1", "initialize", Some(initialize_params())));
    server.handle(notification("notifications/initialized"));
}

/// The JSON of what a server sends.
fn sent<R: ToolRegistry>(output: Output<R>) -> serde_json::Value {
    match output {
        Output::Send(message) => Json::parse(&message.into_inner().to_text())
            .expect("valid JSON")
            .to_value(),
        _ => panic!("expected a message to send"),
    }
}

#[test]
fn ping_during_init() {
    let mut server = test_server();
    let output = server.handle(request("1", "ping", None));
    assert!(matches!(output, Output::Send(_)));
    assert!(!server.is_ready());
}

#[test]
fn full_initialization() {
    let mut server = test_server();

    let output = server.handle(request("1", "initialize", Some(initialize_params())));
    assert!(matches!(output, Output::Send(_)));
    assert!(!server.is_ready());

    let output = server.handle(notification("notifications/initialized"));
    assert!(matches!(output, Output::Nothing));
    assert!(server.is_ready());
    assert_eq!(
        server.client().expect("client").info.name,
        "test-client"
    );
}

#[test]
fn tool_list_returns_error_for_no_tools() {
    let mut server = test_server();
    initialize_server(&mut server);

    let output = server.handle(request("2", "tools/list", None));
    match output {
        Output::Send(msg) => {
            assert!(matches!(msg.as_inner(), Message::ErrorResponse(_)));
            assert_eq!(
                msg.as_inner().to_text(),
                r#"{"error":{"code":-32601,"message":"method not found: tools/list"},"id":"2","jsonrpc":"2.0"}"#
            );
        }
        _ => panic!("expected Send with error"),
    }
    assert!(server.is_ready());
}

#[test]
fn tool_call_returns_error_for_no_tools() {
    let mut server = test_server();
    initialize_server(&mut server);

    let call_params =
        Json::parse(r#"{ "name": "test_tool", "arguments": { "arg1": "value1" } }"#)
            .expect("valid JSON");
    let output = server.handle(request("3", "tools/call", Some(call_params)));
    match output {
        Output::Send(msg) => {
            assert!(matches!(msg.as_inner(), Message::ErrorResponse(_)));
        }
        _ => panic!("expected Send with error"),
    }
}

#[test]
fn initialize_introduces_the_server() {
    let mut builder = McpServer::<TestTools>::builder();
    builder
        .name("weather")
        .version("1.2.3")
        .title("Weather")
        .instructions("Ask away.");
    let mut server = builder.build();
    let reply = sent(server.handle(request("7", "initialize", Some(initialize_params()))));
    assert_eq!(
        Json::from_value(reply).to_text(),
        r#"{"id":"7","jsonrpc":"2.0","result":{"capabilities":{"tools":{"listChanged":false}},"instructions":"Ask away.","protocolVersion":"2025-11-25","serverInfo":{"name":"weather","title":"Weather","version":"1.2.3"}}}"#
    );

    let mut plain = test_server();
    let reply = sent(plain.handle(request("8", "initialize", Some(initialize_params()))));
    assert_eq!(
        Json::from_value(reply).to_text(),
        r#"{"id":"8","jsonrpc":"2.0","result":{"capabilities":{},"protocolVersion":"2025-11-25","serverInfo":{"name":"test","version":"1.0"}}}"#
    );
}

#[test]
fn initialize_without_parameters_is_refused() {
    let mut server = test_server();
    let reply = sent(server.handle(request("1", "initialize", None)));
    assert_eq!(reply["error"]["code"], -32602);
    assert_eq!(reply["id"], "1");
    let message = reply["error"]["message"].as_str().expect("message");
    assert!(message.starts_with("invalid params: initialize: "));
    assert!(!server.is_ready());

    let reply = sent(server.handle(request("2", "initialize", Some(initialize_params()))));
    assert!(reply.get("result").is_some());
}

#[test]
fn ping_is_answered_with_an_empty_result() {
    let mut server = test_server();
    let reply = sent(server.handle(request("p", "ping", None)));
    assert_eq!(
        Json::from_value(reply).to_text(),
        r#"{"id":"p","jsonrpc":"2.0","result":{}}"#
    );
    initialize_server(&mut server);
    let number = parse_line(r#"{"jsonrpc":"2.0","id":5,"method":"ping"}"#).expect("ping");
    assert_eq!(
        Json::from_value(sent(server.handle(number))).to_text(),
        r#"{"id":5,"jsonrpc":"2.0","result":{}}"#
    );
}

#[test]
fn unknown_methods_are_refused_once_ready() {
    let mut server = test_server();
    initialize_server(&mut server);
    let reply = sent(server.handle(request("9", "resources/list", None)));
    assert_eq!(reply["error"]["code"], -32601);
    assert_eq!(reply["error"]["message"], "method not found: resources/list");
    assert_eq!(reply["id"], "9");
    assert!(matches!(
        server.handle(notification("notifications/other")),
        Output::Nothing
    ));
    assert!(server.is_ready());
}

/// What a message that closes the connection is reported as.
fn reported(output: Output<NoTools>) -> String {
    match output {
        Output::ProtocolError(error) => error.to_string(),
        _ => panic!("expected a protocol error"),
    }
}

#[test]
fn unexpected_messages_close_the_connection() {
    let mut server = test_server();
    assert_eq!(
        reported(server.handle(request("1", "tools/list", None))),
        "unexpected message: expected initialize, got request:tools/list"
    );
    assert_eq!(
        reported(server.handle(notification("notifications/initialized"))),
        "unexpected message: expected initialize, got notification:notifications/initialized"
    );
    server.handle(request("1", "initialize", Some(initialize_params())));
    assert_eq!(
        reported(server.handle(request("2", "initialize", Some(initialize_params())))),
        "unexpected message: expected notifications/initialized, got request:initialize"
    );
    assert!(!server.is_ready());
    server.handle(notification("notifications/initialized"));
    assert!(server.is_ready());
    let response = parse_line(r#"{"jsonrpc":"2.0","id":1,"result":{}}"#).expect("response");
    assert_eq!(
        reported(server.handle(response)),
        "unexpected message: expected anything, really, got response"
    );
    let error =
        parse_line(r#"{"jsonrpc":"2.0","id":1,"error":{"code":-32600,"message":"bad"}}"#)
            .expect("error");
    assert_eq!(
        reported(server.handle(error)),
        "unexpected message: expected anything, really, got error"
    );
    assert!(server.is_ready());
}

#[test]
fn responders_answer_with_the_request_id() {
    let reply = Responder::new(MessageId::Integer(4)).respond("done");
    assert_eq!(
        reply.as_inner().to_text(),
        r#"{"id":4,"jsonrpc":"2.0","result":{"content":[{"text":"done","type":"text"}],"isError":false}}"#
    );
    let failed: Result<ToolOutput, &str> = Err("no such city");
    let reply = Responder::new(MessageId::String("x".into())).respond(failed);
    assert_eq!(
        reply.as_inner().to_text(),
        r#"{"id":"x","jsonrpc":"2.0","result":{"content":[{"text":"no such city","type":"text"}],"isError":true}}"#
    );
    let reply = Responder::new(MessageId::Integer(5)).rpc_error(JsonRpcError::InternalError {
        msg: "disk".into(),
    });
    assert_eq!(
        reply.as_inner().to_text(),
        r#"{"error":{"code":-32603,"message":"internal error: disk"},"id":5,"jsonrpc":"2.0"}"#
    );
    assert_eq!(
        OutgoingMessage::empty_response(MessageId::Integer(6))
            .into_inner()
            .to_text(),
        r#"{"id":6,"jsonrpc":"2.0","result":{}}"#
    );
}

#[test]
fn refusals_depend_on_the_error() {
    let unknown = refuse_call(
        JsonRpcError::MethodNotFound {
            msg: "unknown tool: x".into(),
        },
        MessageId::Integer(1),
    );
    assert_eq!(
        unknown.as_inner().to_text(),
        r#"{"error":{"code":-32602,"message":"invalid params: unknown tool: x"},"id":1,"jsonrpc":"2.0"}"#
    );
    let invalid = refuse_call(
        JsonRpcError::InvalidParams { msg: "x: bad".into() },
        MessageId::Integer(2),
    );
    assert_eq!(
        invalid.as_inner().to_text(),
        r#"{"id":2,"jsonrpc":"2.0","result":{"content":[{"text":"invalid params: x: bad","type":"text"}],"isError":true}}"#
    );
    let internal = refuse_call(
        JsonRpcError::InternalError { msg: "io".into() },
        MessageId::Integer(3),
    );
    assert_eq!(
        internal.as_inner().to_text(),
        r#"{"error":{"code":-32603,"message":"internal error: io"},"id":3,"jsonrpc":"2.0"}"#
    );
}

#[test]
fn messages_are_read_and_written() {
    for line in [
        r#"{"id":1,"jsonrpc":"2.0","result":{"Abc":1,"_meta":{"a":1},"z":2}}"#,
        r#"{"id":1,"jsonrpc":"2.0","method":"tools/list","params":{"cursor":"a"}}"#,
        r#"{"id":"a","jsonrpc":"2.0","method":"ping"}"#,
        r#"{"jsonrpc":"2.0","method":"notifications/initialized"}"#,
        r#"{"jsonrpc":"2.0","method":"notifications/progress","params":{"progress":1}}"#,
        r#"{"id":1,"jsonrpc":"2.0","result":{"a":[1,2.5]}}"#,
        r#"{"error":{"code":-32600,"data":{"x":1},"message":"bad"},"id":3,"jsonrpc":"2.0"}"#,
    ] {
        let message = parse_line(line).expect("valid message");
        assert_eq!(message.to_text(), line);
    }
    for line in ["", "[]", "not json", r#"{"jsonrpc":"2.0"}"#] {
        let error = parse_line(line).err().expect("not a message");
        assert!(error
            .to_string()
            .starts_with("failed to parse JSON-RPC message: "));
    }
}
