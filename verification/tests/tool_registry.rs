use mercutio::registry::unknown_tool_error;
use mercutio::{
    parse_line, Json, JsonRpcError, McpServer, Message, Output, ToolDef, ToolDefinition,
    ToolDefinitions, ToolRegistry,
};

struct GetWeather {
    city: String,
}

impl ToolDef for GetWeather {
    const NAME: &'static str = "get_weather";
    const DESCRIPTION: &'static str = "Gets weather for a city";

    fn schema() -> Json {
        Json::parse(
            r#"{"title":"GetWeather","type":"object","required":["city"],
                "properties":{"city":{"description":"City name.","type":"string"}}}"#,
        )
        .expect("valid schema")
    }
}

struct Ping;

impl ToolDef for Ping {
    const NAME: &'static str = "ping";
    const DESCRIPTION: &'static str = "Health check";

    fn schema() -> Json {
        Json::parse(r#"{"title":"Ping","type":"object"}"#).expect("valid schema")
    }
}

enum TestTools {
    GetWeather(GetWeather),
    Ping(Ping),
}

impl ToolRegistry for TestTools {
    fn parse(name: &str, arguments: Json) -> Result<Self, JsonRpcError> {
        match name {
            "get_weather" => match arguments.get_str("city") {
                Some(city) => Ok(TestTools::GetWeather(GetWeather { city: city.into() })),
                None => Err(JsonRpcError::InvalidParams {
                    msg: "get_weather: missing field `city`".into(),
                }),
            },
            "ping" => Ok(TestTools::Ping(Ping)),
            _ => Err(unknown_tool_error(name)),
        }
    }

    fn definitions() -> ToolDefinitions {
        ToolDefinitions::new(vec![
            ToolDefinition::from_tool::<GetWeather>(),
            ToolDefinition::from_tool::<Ping>(),
        ])
    }
}

fn value(message: Message) -> serde_json::Value {
    Json::parse(&message.to_text()).expect("valid JSON").to_value()
}

fn initialized_server() -> McpServer<TestTools> {
    let mut server = McpServer::<TestTools>::builder()
        .name("test")
        .version("1.0")
        .build();

    let init = r#"{"jsonrpc":"2.0","id":"1","method":"initialize","params":{"protocolVersion":"2025-11-25","capabilities":{},"clientInfo":{"name":"test","version":"1.0"}}}"#;
    let Output::Send(response) = server.handle(parse_line(init).expect("valid initialize request"))
    else {
        panic!("expected initialize response");
    };
    let response = value(response.into_inner());
    assert_eq!(response["result"]["protocolVersion"], "2025-11-25");

    let initialized = r#"{"jsonrpc":"2.0","method":"notifications/initialized"}"#;
    let output = server.handle(parse_line(initialized).expect("valid initialized notification"));
    assert!(matches!(output, Output::Nothing));
    assert!(server.is_ready());

    server
}

#[test]
fn macro_generates_valid_registry() {
    let definitions = TestTools::definitions();
    assert_eq!(definitions.len(), 2);
    assert_eq!(definitions.get(0).expect("first").name, "get_weather");
    assert_eq!(definitions.get(1).expect("second").name, "ping");
}

#[test]
fn macro_generated_tools_work_with_server() {
    let mut server = initialized_server();
    let call = r#"{"jsonrpc":"2.0","id":"2","method":"tools/call","params":{"name":"get_weather","arguments":{"city":"Berlin"}}}"#;
    let msg = parse_line(call).expect("valid json");
    let output = server.handle(msg);

    match output {
        Output::ToolCall {
            tool: TestTools::GetWeather(input),
            responder,
        } => {
            assert_eq!(input.city, "Berlin");
            let response = responder.respond("Sunny, 22C");
            assert!(matches!(
                response.as_inner(),
                Message::ResultResponse(_)
            ));
        }
        _ => panic!("expected ToolCall"),
    }

    let call = r#"{"jsonrpc":"2.0","id":"3","method":"tools/call","params":{"name":"ping"}}"#;
    let output = server.handle(parse_line(call).expect("valid argument-free tool request"));
    assert!(matches!(
        output,
        Output::ToolCall {
            tool: TestTools::Ping(_),
            ..
        }
    ));
}

#[test]
fn unknown_tool_is_invalid_params_error() {
    let mut server = initialized_server();

    let call = r#"{"jsonrpc":"2.0","id":"2","method":"tools/call","params":{"name":"missing"}}"#;
    let Output::Send(response) = server.handle(parse_line(call).expect("valid tool request"))
    else {
        panic!("expected protocol error response");
    };
    let response = value(response.into_inner());

    assert_eq!(response["error"]["code"], -32602);
    assert!(response.get("result").is_none());
}

#[test]
fn invalid_tool_input_is_execution_error() {
    let mut server = initialized_server();

    let call = r#"{"jsonrpc":"2.0","id":"2","method":"tools/call","params":{"name":"get_weather","arguments":{}}}"#;
    let Output::Send(response) = server.handle(parse_line(call).expect("valid tool request"))
    else {
        panic!("expected tool error response");
    };
    let response = value(response.into_inner());

    assert_eq!(response["result"]["isError"], true);
    assert!(
        response["result"]["content"][0]["text"]
            .as_str()
            .expect("text error content")
            .contains("city")
    );
}

#[test]
fn server_display() {
    let server = McpServer::<TestTools>::builder()
        .name("weather-service")
        .version("1.0.0")
        .instructions("You help users check the weather.")
        .build();

    assert_eq!(
        server.to_string().trim_end(),
        "# weather-service\n\nVersion: 1.0.0\n\n## Instructions\n\n\
         You help users check the weather.\n\n# Tools\n\n## get_weather\n\n\
         Gets weather for a city\n\nParameters:\n  city (string, required)\n    City name.\n\n\
         ## ping\n\nHealth check"
    );
}

#[test]
fn tools_are_listed() {
    let mut server = initialized_server();
    let list = r#"{"jsonrpc":"2.0","id":"2","method":"tools/list"}"#;
    let Output::Send(response) = server.handle(parse_line(list).expect("valid list request"))
    else {
        panic!("expected tool list");
    };
    assert_eq!(
        response.as_inner().to_text(),
        r#"{"id":"2","jsonrpc":"2.0","result":{"tools":[{"description":"Gets weather for a city","inputSchema":{"properties":{"city":{"description":"City name.","type":"string"}},"required":["city"],"type":"object"},"name":"get_weather"},{"description":"Health check","inputSchema":{"type":"object"},"name":"ping"}]}}"#
    );
}

#[test]
fn malformed_tool_calls_are_refused() {
    let mut server = initialized_server();
    let call = r#"{"jsonrpc":"2.0","id":"2","method":"tools/call","params":{"arguments":{}}}"#;
    let Output::Send(response) = server.handle(parse_line(call).expect("valid request")) else {
        panic!("expected error response");
    };
    let response = value(response.into_inner());
    assert_eq!(response["error"]["code"], -32602);
    assert!(response["error"]["message"]
        .as_str()
        .expect("message")
        .starts_with("invalid params: tools/call: "));
}
