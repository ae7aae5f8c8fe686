use mercutio::io::stdio::{handle_line, tool_line, LineAction};
use mercutio::io::IoError;
use mercutio::{McpServer, MessageId, NoTools, Responder};

fn test_server() -> McpServer<NoTools> {
    McpServer::builder().name("test").version("1.0").build()
}

/// Serves lines until the server closes the connection.
fn run_on(input: &str, output: &mut String, mut server: McpServer<NoTools>) -> Result<(), IoError> {
    for line in input.split_inclusive('\n') {
        match handle_line(&mut server, line) {
            LineAction::Write(text) => output.push_str(&text),
            LineAction::Call { .. } => unreachable!("no tools"),
            LineAction::Wait => {}
            LineAction::Fail(error) => return Err(error),
        }
    }
    Ok(())
}

#[test]
fn stdlib_full_session() {
    let input = r#"{"jsonrpc":"2.0","id":1,"method":"initialize","params":{"protocolVersion":"2025-06-18","capabilities":{},"clientInfo":{"name":"test","version":"1.0"}}}
{"jsonrpc":"2.0","method":"notifications/initialized"}
{"jsonrpc":"2.0","id":2,"method":"ping"}
"#;
    let mut output = String::new();

    let result = run_on(input, &mut output, test_server());

    assert!(result.is_ok());

    let lines: Vec<&str> = output.lines().collect();
    assert_eq!(lines.len(), 2);

    let init_response: serde_json::Value = serde_json::from_str(lines[0]).expect("valid json");
    assert_eq!(init_response["id"], 1);
    assert!(init_response["result"]["protocolVersion"].is_string());

    let ping_response: serde_json::Value = serde_json::from_str(lines[1]).expect("valid json");
    assert_eq!(ping_response["id"], 2);
}

#[test]
fn stdlib_parse_error() {
    let mut output = String::new();
    let result = run_on("not valid json\n", &mut output, test_server());
    assert!(matches!(result, Err(IoError::Parse(_))));
}

#[test]
fn stdlib_protocol_error_on_unexpected_message() {
    let input = r#"{"jsonrpc":"2.0","method":"notifications/initialized"}
"#;
    let mut output = String::new();
    let result = run_on(input, &mut output, test_server());
    assert!(matches!(result, Err(IoError::Protocol(_))));
}

#[test]
fn white_space_at_the_end_of_a_line_is_dropped() {
    let mut server = test_server();
    let ping = "{\"jsonrpc\":\"2.0\",\"id\":2,\"method\":\"ping\"}";
    for end in ["", "\n", "\r\n", " \t\u{3000}\n"] {
        let line = format!("{ping}{end}");
        let LineAction::Write(reply) = handle_line(&mut server, &line) else {
            panic!("expected a reply");
        };
        assert_eq!(reply, "{\"id\":2,\"jsonrpc\":\"2.0\",\"result\":{}}\n");
    }
    assert!(matches!(
        handle_line(&mut server, "\n"),
        LineAction::Fail(IoError::Parse(_))
    ));
}

#[test]
fn tool_results_are_written_as_lines() {
    let line = tool_line(Responder::new(MessageId::Integer(3)), "done");
    assert_eq!(
        line,
        "{\"id\":3,\"jsonrpc\":\"2.0\",\"result\":{\"content\":[{\"text\":\"done\",\"type\":\"text\"}],\"isError\":false}}\n"
    );
}

#[test]
fn transport_errors_state_their_cause() {
    assert_eq!(IoError::Io("broken pipe".into()).to_string(), "IO error");
    let mut server = test_server();
    let LineAction::Fail(error) = handle_line(&mut server, "{}\n") else {
        panic!("expected a parse error");
    };
    assert_eq!(error.to_string(), "failed to parse message");
    let initialized = "{\"jsonrpc\":\"2.0\",\"method\":\"notifications/initialized\"}\n";
    let LineAction::Fail(error) = handle_line(&mut server, initialized) else {
        panic!("expected a protocol error");
    };
    assert_eq!(error.to_string(), "protocol error");
}
