use mercutio::tools::Content;
use mercutio::{
    IntoToolResponse, Json, JsonRpcError, NoTools, ToolDef, ToolDefinition, ToolDefinitions,
    ToolInputSchema, ToolOutput, ToolRegistry,
};

/// The wire form of a tool's response.
fn wire<T: IntoToolResponse>(value: T) -> serde_json::Value {
    value.into_tool_response().to_json().to_value()
}

fn json(text: &str) -> Json {
    Json::parse(text).expect("valid JSON")
}

struct Weather;

impl ToolDef for Weather {
    const NAME: &'static str = "get_weather";
    const DESCRIPTION: &'static str = "Gets weather for a city";

    fn schema() -> Json {
        json(
            r#"{"$schema":"http://json-schema.org/draft-07/schema#","title":"TestInput","type":"object",
                "required":["city"],
                "properties":{
                    "city":{"description":"The city to look up.","type":"string"},
                    "units":{"description":"Temperature unit preference.","type":"string"}}}"#,
        )
    }
}

struct Location;

impl ToolDef for Location {
    const NAME: &'static str = "get_weather";
    const DESCRIPTION: &'static str = "Gets weather for a location";

    fn schema() -> Json {
        json(
            r#"{"type":"object","required":["location"],"properties":{
                "location":{"description":"City or address to look up.","type":"string"}}}"#,
        )
    }
}

struct Reminder;

impl ToolDef for Reminder {
    const NAME: &'static str = "set_reminder";
    const DESCRIPTION: &'static str = "Sets a reminder";

    fn schema() -> Json {
        json(
            r#"{"type":"object","required":["delay_minutes","message"],"properties":{
                "delay_minutes":{"description":"Minutes from now.","type":"integer","format":"uint32","minimum":0.0},
                "message":{"description":"Reminder message.","type":"string"}}}"#,
        )
    }
}

struct Counted;

impl ToolDef for Counted {
    const NAME: &'static str = "test";
    const DESCRIPTION: &'static str = "Test tool";

    fn schema() -> Json {
        json(
            r#"{"$schema":"http://json-schema.org/draft-07/schema#","title":"TestInput","type":"object",
                "required":["name"],
                "properties":{
                    "count":{"description":"Optional field.","type":"integer","format":"uint32","minimum":0.0},
                    "name":{"description":"Required field.","type":"string"}}}"#,
        )
    }
}

struct Valued;

impl ToolDef for Valued {
    const NAME: &'static str = "test_tool";
    const DESCRIPTION: &'static str = "A test tool";

    fn schema() -> Json {
        json(r#"{"type":"object","required":["value"],"properties":{"value":{"type":"string"}}}"#)
    }
}

#[test]
fn no_tools_definitions_empty() {
    assert!(NoTools::definitions().is_empty());
}

#[test]
fn no_tools_parse_returns_error() {
    let result = NoTools::parse("anything", Json::Null);
    assert!(result.is_err());
    let err = result.unwrap_err();
    assert!(matches!(err, JsonRpcError::MethodNotFound { .. }));
    assert_eq!(err.to_string(), "method not found: unknown tool: anything");
    assert_eq!(err.code(), -32601);
}

#[test]
fn tool_definition_from_tool() {
    let def = ToolDefinition::from_tool::<Valued>();
    assert_eq!(def.name, "test_tool");
    assert_eq!(def.description, "A test tool");
    assert_eq!(def.input_schema.type_(), "object");
    assert!(def.input_schema.properties().is_some());
}

#[test]
fn field_docstrings_become_schema_descriptions() {
    let def = ToolDefinition::from_tool::<Weather>();
    let schema = def.input_schema_json();
    let props = schema.get("properties").expect("properties");
    let city_prop = props.get("city").expect("city property");
    assert_eq!(city_prop.get_str("description"), Some("The city to look up."));

    let units_prop = props.get("units").expect("units property");
    assert_eq!(
        units_prop.get_str("description"),
        Some("Temperature unit preference.")
    );
}

#[test]
fn tool_output_from_string() {
    let json = wire("hello");
    let content = json.get("content").expect("content field");
    assert!(content.is_array());
    assert_eq!(content.as_array().expect("array").len(), 1);
    assert_eq!(json.get("isError").and_then(|v| v.as_bool()), Some(false));
}

#[test]
fn tool_output_from_owned_string() {
    let json = wire(String::from("hello"));
    let content = json.get("content").expect("content field");
    assert!(content.is_array());
}

#[test]
fn tool_output_json_sets_structured_content() {
    let json = wire(ToolOutput::json(&json(r#"{"value":42}"#)));
    assert!(json.get("structuredContent").is_some());
    assert!(json.get("content").expect("content").is_array());
    assert_eq!(json["content"][0]["text"], r#"{"value":42}"#);
}

#[test]
fn result_err_sets_is_error() {
    let result: Result<String, &str> = Err("something failed");
    let json = wire(result);
    assert_eq!(json.get("isError").and_then(|v| v.as_bool()), Some(true));
    assert_eq!(json["content"][0]["text"], "something failed");
}

#[test]
fn result_ok_sets_is_error_false() {
    let result: Result<&str, &str> = Ok("success");
    let json = wire(result);
    assert_eq!(json.get("isError").and_then(|v| v.as_bool()), Some(false));
}

#[test]
fn tool_output_builder_multiple_text_blocks() {
    let json = wire(ToolOutput::new().text("first").text("second"));
    let content = json.get("content").expect("content");
    assert_eq!(content.as_array().expect("array").len(), 2);
}

#[test]
fn tool_output_builder_text_and_structured() {
    let json = wire(
        ToolOutput::new()
            .text("summary")
            .structured(&json(r#"{"value":1}"#)),
    );
    assert!(json.get("structuredContent").is_some());
    assert_eq!(
        json.get("content")
            .expect("content")
            .as_array()
            .expect("array")
            .len(),
        1
    );
}

#[test]
fn tool_definition_display() {
    let def = ToolDefinition::from_tool::<Weather>();
    assert_eq!(
        def.to_string(),
        "## get_weather\n\nGets weather for a city\n\nParameters:\n  \
         city (string, required)\n    The city to look up.\n  \
         units (string, optional)\n    Temperature unit preference.\n"
    );
}

#[test]
fn tool_definition_schema_json() {
    let def = ToolDefinition::from_tool::<Counted>();
    assert_eq!(
        def.input_schema_json().to_pretty_text(),
        r#"{
  "properties": {
    "count": {
      "description": "Optional field.",
      "format": "uint32",
      "minimum": 0.0,
      "type": "integer"
    },
    "name": {
      "description": "Required field.",
      "type": "string"
    }
  },
  "required": [
    "name"
  ],
  "type": "object"
}"#
    );
}

#[test]
fn tool_definitions_display() {
    let defs = ToolDefinitions::new(vec![
        ToolDefinition::from_tool::<Location>(),
        ToolDefinition::from_tool::<Reminder>(),
    ]);
    assert_eq!(
        defs.to_string(),
        "# Tools\n\n\
         ## get_weather\n\nGets weather for a location\n\nParameters:\n  \
         location (string, required)\n    City or address to look up.\n\n\
         ## set_reminder\n\nSets a reminder\n\nParameters:\n  \
         delay_minutes (integer, required)\n    Minutes from now.\n  \
         message (string, required)\n    Reminder message.\n"
    );
}

#[test]
fn tool_output_display_text() {
    let output = ToolOutput::new()
        .text("Temperature: 72F")
        .text("Conditions: Sunny");
    assert_eq!(output.to_string(), "Temperature: 72F\n\nConditions: Sunny");
}

#[test]
fn tool_output_display_with_structured() {
    let output = ToolOutput::new()
        .text("Current weather")
        .structured(&json(r#"{"temp":72,"conditions":"Sunny"}"#));
    assert_eq!(
        output.to_string(),
        "Current weather\n\nStructured Content:\n{\n  \"conditions\": \"Sunny\",\n  \"temp\": 72\n}"
    );
}

#[test]
fn display_shows_placeholders_for_other_content() {
    let output = ToolOutput::new()
        .image(b"png", "image/png")
        .audio(b"wave", "audio/wav")
        .resource_link("file:///source", "source")
        .embedded_text("notes", "file:///notes.txt", None)
        .embedded_blob(b"pdf", "file:///report.pdf", "application/pdf")
        .content(Content::EmbeddedBlob {
            uri: "file:///raw".into(),
            mime_type: None,
            blob: "cGRm".into(),
        });
    assert_eq!(
        output.to_string(),
        "[Image: image/png, 4 bytes]\n\n[Audio: audio/wav, 8 bytes]\n\n\
         [Resource: source (file:///source)]\n\n[Embedded Text: file:///notes.txt]\n\n\
         [Embedded Blob: file:///report.pdf, application/pdf, 4 bytes]\n\n\
         [Embedded Blob: file:///raw, unknown, 4 bytes]"
    );
}

#[test]
fn every_content_block_has_its_wire_form() {
    let json = wire(
        ToolOutput::new()
            .text("summary")
            .image(b"png", "image/png")
            .audio(b"wav", "audio/wav")
            .resource_link("file:///source", "source")
            .embedded_text("notes", "file:///notes.txt", Some("text/plain"))
            .embedded_text("bare", "file:///bare.txt", None)
            .embedded_blob(b"pdf", "file:///report.pdf", "application/pdf"),
    );
    let text = Json::from_value(json["content"].clone()).to_text();
    assert_eq!(
        text,
        concat_lines(&[
            r#"[{"text":"summary","type":"text"},"#,
            r#"{"data":"cG5n","mimeType":"image/png","type":"image"},"#,
            r#"{"data":"d2F2","mimeType":"audio/wav","type":"audio"},"#,
            r#"{"name":"source","type":"resource_link","uri":"file:///source"},"#,
            r#"{"resource":{"mimeType":"text/plain","text":"notes","uri":"file:///notes.txt"},"type":"resource"},"#,
            r#"{"resource":{"text":"bare","uri":"file:///bare.txt"},"type":"resource"},"#,
            r#"{"resource":{"blob":"cGRm","mimeType":"application/pdf","uri":"file:///report.pdf"},"type":"resource"}]"#,
        ])
    );
}

fn concat_lines(lines: &[&str]) -> String {
    lines.concat()
}

#[test]
fn json_text_keeps_the_order_of_members() {
    let inner = Json::Object(vec![
        ("z".into(), Json::Text("q\"\n".into())),
        ("a".into(), Json::Array(vec![Json::Null, Json::Bool(true)])),
    ]);
    let value = Json::Object(vec![
        ("temp".into(), json("72")),
        ("conditions".into(), inner),
        ("ratio".into(), json("0.5")),
        ("none".into(), Json::Object(Vec::new())),
    ]);
    let expected =
        r#"{"temp":72,"conditions":{"z":"q\"\n","a":[null,true]},"ratio":0.5,"none":{}}"#;
    assert_eq!(value.to_ordered_text(), expected);
    let wired = wire(ToolOutput::json(&value));
    assert_eq!(wired["content"][0]["text"], expected);
    assert_eq!(
        Json::from_value(wired["structuredContent"].clone()).to_text(),
        r#"{"conditions":{"a":[null,true],"z":"q\"\n"},"none":{},"ratio":0.5,"temp":72}"#
    );
    for text in ["[]", "[1,[2,\"x\"],{}]", "\"a\"", "-3", "null", r#"{"a":{"b":[{"c":1}]}}"#] {
        assert_eq!(json(text).to_ordered_text(), text);
    }
}

#[test]
fn structured_content_must_be_an_object() {
    let json = wire(ToolOutput::new().text("list").structured(&json("[1,2]")));
    assert!(json.get("structuredContent").is_none());

    let kept = wire(ToolOutput::new().structured(&self::json("{\"a\":1}")).structured(&self::json("2")));
    assert_eq!(kept["structuredContent"]["a"], 1);
    let alone = wire(ToolOutput::json(&self::json("[1, 2]")));
    assert_eq!(alone["content"][0]["text"], "[1,2]");
    assert!(alone.get("structuredContent").is_none());
}

#[test]
fn as_text_finds_the_first_text_block() {
    assert_eq!(ToolOutput::new().as_text(), None);
    assert_eq!(ToolOutput::new().image(b"x", "image/png").as_text(), None);
    let output = ToolOutput::new()
        .image(b"x", "image/png")
        .text("first")
        .text("second");
    assert_eq!(output.as_text(), Some("first"));
}

#[test]
fn schema_conversion_keeps_properties_and_required_names() {
    let schema = mercutio::registry::convert_schema_to_tool_input(&json(
        r#"{"type":"object","title":"x","required":["a",1],"properties":{"b":{"type":"string"},"a":true}}"#,
    ));
    assert_eq!(schema.required(), &vec!["a".to_string()]);
    assert_eq!(
        schema.to_json().to_text(),
        r#"{"properties":{"a":{},"b":{"type":"string"}},"required":["a"],"type":"object"}"#
    );

    let bare = mercutio::registry::convert_schema_to_tool_input(&json("true"));
    assert!(bare.properties().is_none());
    assert!(bare.required().is_empty());
}

#[test]
fn definitions_become_listed_tools() {
    let def = ToolDefinition::from_tool::<Valued>();
    let tool = def.into_mcp_tool();
    assert_eq!(tool.name, "test_tool");
    assert_eq!(tool.description.as_deref(), Some("A test tool"));
    assert_eq!(tool.input_schema.required, vec!["value".to_string()]);
}

#[test]
fn definitions_are_reached_by_index() {
    let defs = ToolDefinitions::new(vec![ToolDefinition {
        name: "a".into(),
        description: "A".into(),
        input_schema: ToolInputSchema::new(Vec::new(), None),
    }]);
    assert_eq!(defs.len(), 1);
    assert!(defs.get(1).is_none());
    assert_eq!(defs.get(0).expect("first").name, "a");
    assert_eq!(defs.as_slice()[0].to_string(), "## a\n\nA\n");
    let names: Vec<&str> = defs.iter().map(|def| def.name.as_str()).collect();
    assert_eq!(names, vec!["a"]);
    assert_eq!(defs.into_vec().len(), 1);
}
