use std::collections::BTreeMap;

use mercutio::base64;
use mercutio::cli::names::{normalize_name, normalize_path};
use mercutio::cli::rebuild::{json_has_type, parse_scalar};
use mercutio::cli::schema::ScalarKind;
use mercutio::cli::{
    present, Cli, CliBuildError, CliBuildProblem, CliError, CliErrorKind, ImageMode, InputData,
    Invocation, OutputMode, OutputOptions, Payload, Rendering, ToolRegistryExt as _,
};
use mercutio::io::McpSessionId;
use mercutio::registry::unknown_tool_error;
use mercutio::tools::Content;
use mercutio::{
    parse_line, Json, JsonRpcError, McpServer, NoTools, Output, ToolDef, ToolDefinition,
    ToolDefinitions, ToolInputSchema, ToolOutput, ToolRegistry,
};

fn json(text: &str) -> Json {
    Json::parse(text).expect("valid JSON")
}

/// Owned copies of arguments.
fn args(items: &[&str]) -> Vec<String> {
    items.iter().map(|item| item.to_string()).collect()
}

fn no_input() -> InputData {
    InputData::new(Vec::new())
}

#[derive(Debug, PartialEq)]
enum Mode {
    Fast,
    Thorough,
}

#[derive(Debug, PartialEq)]
struct Range {
    min: i64,
    max: Option<i64>,
}

#[derive(Debug, PartialEq)]
struct Filter {
    range: Range,
    tags: Option<Vec<String>>,
}

#[derive(Debug, PartialEq)]
struct Rule {
    path: String,
    allow: bool,
}

struct Search {
    query: String,
    mode: Mode,
    limit: Option<u64>,
    threshold: Option<f64>,
    recursive: Option<bool>,
    filter: Option<Filter>,
    environment: Option<BTreeMap<String, String>>,
    rules: Option<Vec<Rule>>,
    input_json: Option<String>,
}

impl ToolDef for Search {
    const NAME: &'static str = "search_items";
    const DESCRIPTION: &'static str = "Searches indexed items";

    fn schema() -> Json {
        json(
            r#"{"title":"Search","type":"object","required":["mode","query"],"properties":{
                "query":{"description":"Search expression.","type":"string"},
                "mode":{"description":"Search strategy.","type":"string","enum":["fast","thorough"]},
                "limit":{"description":"Optional result limit.","type":"integer","format":"uint64","minimum":0.0},
                "threshold":{"description":"Optional score threshold.","type":"number","format":"double"},
                "recursive":{"description":"Whether to recurse.","type":"boolean"},
                "filter":{"description":"Structured filters.","type":"object","required":["range"],"properties":{
                    "range":{"description":"Numeric range.","type":"object","required":["min"],"properties":{
                        "min":{"description":"Smallest accepted value.","type":"integer","format":"int64"},
                        "max":{"description":"Largest accepted value.","type":"integer","format":"int64"}}},
                    "tags":{"description":"Labels to include.","type":"array","items":{"type":"string"}}}},
                "environment":{"description":"Process environment.","type":"object","additionalProperties":{"type":"string"}},
                "rules":{"description":"Ordered matching rules.","type":"array","items":{"type":"object",
                    "required":["allow","path"],"properties":{"allow":{"type":"boolean"},"path":{"type":"string"}}}},
                "input_json":{"description":"A property sharing the root adapter option's spelling.","type":"string"}}}"#,
        )
    }
}

struct Health;

impl ToolDef for Health {
    const NAME: &'static str = "HTTPServer";
    const DESCRIPTION: &'static str = "Checks service health";

    fn schema() -> Json {
        json(r#"{"title":"Ping","type":"object"}"#)
    }
}

enum TestTools {
    Search(Search),
    Ping(Health),
}

fn owned(value: &serde_json::Value) -> Option<String> {
    value.as_str().map(String::from)
}

/// Reads a search out of its arguments.
fn read_search(input: &serde_json::Value) -> Option<Search> {
    let filter = match input.get("filter") {
        Some(filter) => Some(Filter {
            range: Range {
                min: filter["range"]["min"].as_i64()?,
                max: filter["range"]["max"].as_i64(),
            },
            tags: filter
                .get("tags")
                .and_then(|tags| tags.as_array())
                .map(|tags| tags.iter().filter_map(owned).collect()),
        }),
        None => None,
    };
    Some(Search {
        query: owned(&input["query"])?,
        mode: match input["mode"].as_str()? {
            "fast" => Mode::Fast,
            "thorough" => Mode::Thorough,
            _ => return None,
        },
        limit: input["limit"].as_u64(),
        threshold: input["threshold"].as_f64(),
        recursive: input["recursive"].as_bool(),
        filter,
        environment: input["environment"].as_object().map(|map| {
            map.iter()
                .filter_map(|(key, value)| Some((key.clone(), owned(value)?)))
                .collect()
        }),
        rules: input["rules"].as_array().map(|rules| {
            rules
                .iter()
                .filter_map(|rule| {
                    Some(Rule {
                        path: owned(&rule["path"])?,
                        allow: rule["allow"].as_bool()?,
                    })
                })
                .collect()
        }),
        input_json: owned(&input["input_json"]),
    })
}

impl ToolRegistry for TestTools {
    fn parse(name: &str, arguments: Json) -> Result<Self, JsonRpcError> {
        match name {
            "search_items" => match read_search(&arguments.to_value()) {
                Some(search) => Ok(TestTools::Search(search)),
                None => Err(JsonRpcError::InvalidParams {
                    msg: "search_items: missing field".into(),
                }),
            },
            "HTTPServer" => Ok(TestTools::Ping(Health)),
            _ => Err(unknown_tool_error(name)),
        }
    }

    fn definitions() -> ToolDefinitions {
        ToolDefinitions::new(vec![
            ToolDefinition::from_tool::<Search>(),
            ToolDefinition::from_tool::<Health>(),
        ])
    }
}

fn cli() -> Cli<TestTools> {
    TestTools::cli("my-tools")
        .version("1.0.0")
        .build()
        .expect("valid CLI")
}

/// The search that arguments select.
fn search(invocation: Invocation<TestTools>) -> Search {
    match invocation.into_tool() {
        TestTools::Search(input) => input,
        TestTools::Ping(_) => panic!("expected search tool"),
    }
}

#[test]
fn representative_help_is_stable() {
    let mut root = cli().command();
    let root_help = root.render_long_help().to_string();
    let mut search = root
        .find_subcommand_mut("search-items")
        .expect("search command")
        .clone();
    let tool_help = search.render_long_help().to_string();

    assert!(root_help.starts_with("Invokes local MCP tool handlers as native commands"));
    assert!(root_help.contains("search-items  Searches indexed items"));
    assert!(root_help.contains("http-server   Checks service health"));
    assert!(root_help.contains("--output <MODE>"));
    assert!(root_help.contains("[default: artifacts]"));
    assert!(root_help.contains("[possible values: artifacts, structured, raw, binary]"));
    assert!(root_help.contains("--images <MODE>"));
    assert!(root_help.contains("[possible values: auto, kitty, off]"));
    assert!(root_help.contains("--artifact-dir <DIR>"));
    assert!(root_help.contains("--input-json <TOOL>"));
    assert!(root_help.contains("--version"));

    assert!(tool_help.contains("--query <STRING>"));
    assert!(tool_help.contains("--mode <STRING>"));
    assert!(tool_help.contains("[possible values: fast, thorough]"));
    assert!(tool_help.contains("--limit <INTEGER>"));
    assert!(tool_help.contains("--threshold <NUMBER>"));
    assert!(tool_help.contains("--recursive [<BOOL>]"));
    assert!(tool_help.contains("--filter-range-min <INTEGER>"));
    assert!(tool_help.contains("--filter-tags <STRING>"));
    assert!(tool_help.contains("--environment <JSON>"));
    assert!(tool_help.contains("--rules <JSON>"));
    assert!(tool_help.contains("Search expression."));
}

#[test]
fn parses_scalars_nested_objects_arrays_and_json_values() {
    let invocation = cli()
        .try_parse_from(
            args(&[
                "my-tools",
                "search-items",
                "--query",
                "rust",
                "--mode",
                "thorough",
                "--limit",
                "20",
                "--threshold=-1.5e-2",
                "--recursive=false",
                "--filter-range-min=-3",
                "--filter-tags",
                "mcp",
                "--filter-tags",
                "rust,lang",
                "--environment",
                r#"{"RUST_LOG":"info"}"#,
                "--rules",
                r#"[{"path":"src","allow":true}]"#,
                "--input-json",
                "property-value",
            ]),
            no_input(),
        )
        .expect("valid typed invocation");

    let input = search(invocation);
    assert_eq!(input.query, "rust");
    assert_eq!(input.mode, Mode::Thorough);
    assert_eq!(input.limit, Some(20));
    assert_eq!(input.threshold, Some(-1.5e-2));
    assert_eq!(input.recursive, Some(false));
    assert_eq!(
        input.filter,
        Some(Filter {
            range: Range { min: -3, max: None },
            tags: Some(vec!["mcp".into(), "rust,lang".into()]),
        })
    );
    assert_eq!(
        input.environment,
        Some(BTreeMap::from([("RUST_LOG".into(), "info".into())]))
    );
    assert_eq!(
        input.rules,
        Some(vec![Rule {
            path: "src".into(),
            allow: true,
        }])
    );
    assert_eq!(input.input_json.as_deref(), Some("property-value"));
}

#[test]
fn preserves_omitted_and_implicit_booleans() {
    let omitted = cli()
        .try_parse_from(
            args(&["my-tools", "search-items", "--query", "x", "--mode", "fast"]),
            no_input(),
        )
        .expect("valid invocation");
    assert_eq!(search(omitted).recursive, None);

    let implicit = cli()
        .try_parse_from(
            args(&[
                "my-tools",
                "search-items",
                "--query",
                "x",
                "--mode",
                "fast",
                "--recursive",
            ]),
            no_input(),
        )
        .expect("valid invocation");
    assert_eq!(search(implicit).recursive, Some(true));
}

/// The error that arguments lead to.
fn refused(items: &[&str], input: InputData) -> CliError {
    cli()
        .try_parse_from(args(items), input)
        .err()
        .expect("arguments must be refused")
}

#[test]
fn enforces_conditionally_required_descendants() {
    let error = refused(
        &[
            "my-tools",
            "search-items",
            "--query",
            "x",
            "--mode",
            "fast",
            "--filter-tags",
            "rust",
        ],
        no_input(),
    );
    assert_eq!(error.kind(), CliErrorKind::Usage);
    assert!(error.to_string().contains("--filter-range-min"));
}

#[test]
fn rejects_non_json_numeric_and_mistyped_json_values() {
    let numeric = refused(
        &[
            "my-tools",
            "search-items",
            "--query",
            "x",
            "--mode",
            "fast",
            "--limit",
            "+2",
        ],
        no_input(),
    );
    assert_eq!(numeric.exit_code(), 2);

    let object = refused(
        &[
            "my-tools",
            "search-items",
            "--query",
            "x",
            "--mode",
            "fast",
            "--environment",
            "[]",
        ],
        no_input(),
    );
    assert!(object.to_string().contains("expected object"));
}

#[test]
fn dispatches_exact_whole_input_json() {
    let input =
        br#"{"query":"stdin","mode":"fast","recursive":false,"filter":{"range":{"min":1}}}"#;
    let invocation = cli()
        .try_parse_from(
            args(&[
                "my-tools",
                "--output",
                "raw",
                "--input-json",
                "search-items",
            ]),
            InputData::new(input.to_vec()),
        )
        .expect("valid JSON route");
    assert_eq!(invocation.output_options().mode, OutputMode::Raw);
    let input = search(invocation);
    assert_eq!(input.query, "stdin");
    assert_eq!(input.recursive, Some(false));
}

#[test]
fn whole_input_rejects_invalid_shapes_and_mixed_dispatch() {
    for input in [b"".as_slice(), b"[]", b"{} trailing"] {
        let error = refused(
            &["my-tools", "--input-json", "search-items"],
            InputData::new(input.to_vec()),
        );
        assert_eq!(error.exit_code(), 2);
    }

    let mixed = refused(
        &[
            "my-tools",
            "--input-json",
            "search-items",
            "search-items",
            "--query",
            "x",
            "--mode",
            "fast",
        ],
        InputData::new(b"{}".to_vec()),
    );
    assert!(mixed.to_string().contains("cannot be combined"));
}

#[derive(Debug, PartialEq)]
enum Choice {
    Text(String),
    Object { label: String, count: Option<u64> },
}

struct UnionInput {
    choice: Choice,
}

impl ToolDef for UnionInput {
    const NAME: &'static str = "choose";
    const DESCRIPTION: &'static str = "Chooses one representation";

    fn schema() -> Json {
        json(
            r#"{
                "type": "object",
                "properties": {
                    "choice": {
                        "description": "Text or detailed selection.",
                        "oneOf": [
                            { "type": "string" },
                            {
                                "type": "object",
                                "properties": {
                                    "label": { "type": "string" },
                                    "count": { "type": "integer", "minimum": 0 }
                                },
                                "required": ["label"]
                            }
                        ]
                    }
                },
                "required": ["choice"]
            }"#,
        )
    }
}

impl ToolRegistry for UnionInput {
    fn parse(name: &str, arguments: Json) -> Result<Self, JsonRpcError> {
        let value = arguments.to_value();
        let choice = &value["choice"];
        match (choice.as_str(), choice["label"].as_str()) {
            (Some(text), _) => Ok(UnionInput {
                choice: Choice::Text(text.into()),
            }),
            (None, Some(label)) => Ok(UnionInput {
                choice: Choice::Object {
                    label: label.into(),
                    count: choice["count"].as_u64(),
                },
            }),
            _ => Err(unknown_tool_error(name)),
        }
    }

    fn definitions() -> ToolDefinitions {
        ToolDefinitions::new(vec![ToolDefinition::from_tool::<UnionInput>()])
    }
}

#[test]
fn parses_and_separates_supported_union_branches() {
    let cli = UnionInput::cli("chooser").build().expect("valid CLI");
    let scalar = cli
        .try_parse_from(
            args(&["chooser", "choose", "--choice", "plain"]),
            no_input(),
        )
        .expect("scalar branch")
        .into_tool();
    assert_eq!(scalar.choice, Choice::Text("plain".into()));

    let object = cli
        .try_parse_from(
            args(&["chooser", "choose", "--choice-label", "detailed"]),
            no_input(),
        )
        .expect("object branch")
        .into_tool();
    assert_eq!(
        object.choice,
        Choice::Object {
            label: "detailed".into(),
            count: None,
        }
    );

    let error = cli
        .try_parse_from(
            args(&[
                "chooser",
                "choose",
                "--choice",
                "plain",
                "--choice-label",
                "detailed",
            ]),
            no_input(),
        )
        .err()
        .expect("mixed branches must fail");
    assert!(error.to_string().contains("cannot be combined"));

    let error = cli
        .try_parse_from(args(&["chooser", "choose"]), no_input())
        .err()
        .expect("a branch is required");
    assert_eq!(error.exit_code(), 2);
}

struct FallbackInput {
    plain: String,
    choice: serde_json::Value,
    node: serde_json::Value,
    hybrid: serde_json::Value,
}

impl ToolDef for FallbackInput {
    const NAME: &'static str = "fallback";
    const DESCRIPTION: &'static str = "Exercises localized JSON fallbacks";

    fn schema() -> Json {
        json(
            r##"{
                "type": "object",
                "properties": {
                    "plain": { "type": "string" },
                    "choice": {
                        "anyOf": [
                            { "type": "string" },
                            { "type": "integer" }
                        ]
                    },
                    "node": { "$ref": "#/$defs/Node" },
                    "hybrid": {
                        "type": "object",
                        "properties": { "fixed": { "type": "string" } },
                        "additionalProperties": { "type": "string" }
                    }
                },
                "required": ["plain", "choice", "node", "hybrid"],
                "$defs": {
                    "Node": {
                        "type": "object",
                        "properties": {
                            "value": { "type": "string" },
                            "next": { "$ref": "#/$defs/Node" }
                        },
                        "required": ["value"]
                    }
                }
            }"##,
        )
    }
}

impl ToolRegistry for FallbackInput {
    fn parse(name: &str, arguments: Json) -> Result<Self, JsonRpcError> {
        let value = arguments.to_value();
        match owned(&value["plain"]) {
            Some(plain) => Ok(FallbackInput {
                plain,
                choice: value["choice"].clone(),
                node: value["node"].clone(),
                hybrid: value["hybrid"].clone(),
            }),
            None => Err(unknown_tool_error(name)),
        }
    }

    fn definitions() -> ToolDefinitions {
        ToolDefinitions::new(vec![ToolDefinition::from_tool::<FallbackInput>()])
    }
}

#[test]
fn keeps_typed_siblings_with_localized_json_fallbacks() {
    let cli = FallbackInput::cli("fallbacks")
        .build()
        .expect("valid fallback CLI");
    let input = cli
        .try_parse_from(
            args(&[
                "fallbacks",
                "fallback",
                "--plain",
                "typed",
                "--choice",
                "42",
                "--node",
                r#"{"value":"root","next":{"value":"leaf"}}"#,
                "--hybrid",
                r#"{"fixed":"known","extra":"dynamic"}"#,
            ]),
            no_input(),
        )
        .expect("localized JSON values")
        .into_tool();
    assert_eq!(input.plain, "typed");
    assert_eq!(input.choice, serde_json::Value::from(42));
    assert_eq!(input.node["next"]["value"], "leaf");
    assert_eq!(input.hybrid["extra"], "dynamic");
}

/// A definition without properties.
fn bare(name: &str, description: &str) -> ToolDefinition {
    ToolDefinition {
        name: name.into(),
        description: description.into(),
        input_schema: ToolInputSchema::new(Vec::new(), None),
    }
}

struct CollidingTools;

impl ToolRegistry for CollidingTools {
    fn parse(name: &str, _arguments: Json) -> Result<Self, JsonRpcError> {
        Err(JsonRpcError::MethodNotFound { msg: name.into() })
    }

    fn definitions() -> ToolDefinitions {
        ToolDefinitions::new(vec![
            bare("get_weather", "First"),
            bare("get-weather", "Second"),
        ])
    }
}

#[test]
fn reports_normalization_and_application_collisions() {
    let error = CollidingTools::cli("tools")
        .build()
        .err()
        .expect("collision must fail");
    assert!(matches!(
        &error.problems()[0],
        CliBuildProblem::NameCollision { cli_name, originals }
            if cli_name == "get-weather" && originals.len() == 2
    ));

    let generated = cli();
    let parent = clap::Command::new("app").subcommand(clap::Command::new("my-tools"));
    let error = generated
        .attach_to(parent)
        .expect_err("application collision must fail");
    assert!(matches!(
        error.problems(),
        [CliBuildProblem::ApplicationCommandCollision { name }] if name == "my-tools"
    ));
}

#[test]
fn supports_nesting_and_empty_registries() {
    let generated = cli();
    let command = generated
        .attach_to(clap::Command::new("app").subcommand(clap::Command::new("mcp")))
        .expect("unique subtree");
    assert!(command.find_subcommand("my-tools").is_some());

    let empty = Cli::<NoTools>::builder("tools")
        .build()
        .expect("empty CLI builds");
    let error = empty
        .try_parse_from(args(&["tools"]), no_input())
        .err()
        .expect("empty CLI has no invocation");
    assert_eq!(error.exit_code(), 2);
}

#[test]
fn help_and_version_are_stdout_control_flow() {
    for argument in ["--help", "--version"] {
        let error = refused(&["my-tools", argument], no_input());
        assert_eq!(error.kind(), CliErrorKind::Display);
        assert_eq!(error.exit_code(), 0);
        assert!(!error.targets_stderr());
    }
}

fn minimal_search_args(output: &str) -> Vec<String> {
    args(&[
        "my-tools",
        "--output",
        output,
        "search-items",
        "--query",
        "rust",
        "--mode",
        "fast",
    ])
}

/// Runs a handler away from a terminal.
fn run<F: FnOnce(Option<McpSessionId>, TestTools) -> Result<ToolOutput, &'static str>>(
    items: Vec<String>,
    handler: F,
) -> Result<Rendering, CliError> {
    cli().run_on(items, no_input(), false, "/tmp/run", handler)
}

/// What a rendering writes to standard output.
fn stdout(rendering: &Rendering) -> &[u8] {
    match &rendering.stdout {
        Payload::Text(text) => text.as_bytes(),
        Payload::Bytes(bytes) => bytes,
    }
}

fn counted() -> ToolOutput {
    ToolOutput::new()
        .text("fallback")
        .structured(&json(r#"{"count": 2}"#))
}

#[test]
fn synchronous_runner_emits_structured_and_raw_json() {
    let rendering = run(minimal_search_args("structured"), |session, _tool| {
        assert!(session.is_none());
        Ok(counted())
    })
    .expect("structured runner");
    assert_eq!(stdout(&rendering), b"{\"count\":2}\n");
    assert!(rendering.stderr.is_empty());
    assert!(rendering.files.is_empty());

    let rendering =
        run(minimal_search_args("raw"), |_, _| Ok(counted())).expect("raw runner");
    assert_eq!(
        stdout(&rendering),
        br#"{"content":[{"text":"fallback","type":"text"}],"isError":false,"structuredContent":{"count":2}}
"#
    );
}

#[test]
fn structured_and_handler_failures_write_no_stdout() {
    let missing = cli()
        .run_on(
            minimal_search_args("structured"),
            no_input(),
            false,
            "/tmp/run",
            |_, _| -> Result<&str, &str> { Ok("text only") },
        )
        .expect_err("missing structured content");
    assert_eq!(missing.exit_code(), 1);

    let handler = cli()
        .run_on(
            minimal_search_args("raw"),
            no_input(),
            false,
            "/tmp/run",
            |_, _| -> Result<&str, &str> { Err("domain failure") },
        )
        .expect_err("handler error");
    assert_eq!(handler.kind(), CliErrorKind::Runtime);
    assert!(handler.to_string().contains("domain failure"));
}

#[test]
fn binary_output_separates_bytes_and_text() {
    let rendering = run(minimal_search_args("binary"), |_, _| {
        Ok(ToolOutput::new()
            .text("generated image")
            .image(b"\x89PNG\r\n", "image/png"))
    })
    .expect("binary runner");
    assert_eq!(stdout(&rendering), b"\x89PNG\r\n");
    assert_eq!(rendering.stderr, "generated image\n");

    let error = run(minimal_search_args("binary"), |_, _| {
        Ok(ToolOutput::new().content(Content::Image {
            data: "not base64".into(),
            mime_type: "image/png".into(),
        }))
    })
    .expect_err("invalid base64");
    assert_eq!(error.exit_code(), 1);

    let error = run(minimal_search_args("binary"), |_, _| {
        Ok(ToolOutput::new().image(b"a", "image/png").audio(b"b", "audio/wav"))
    })
    .expect_err("two binary blocks");
    assert_eq!(
        error.to_string(),
        "error: binary output requires exactly one binary content block, found 2\n"
    );
}

#[test]
fn artifact_output_creates_private_unique_files_and_forced_kitty() {
    let items = args(&[
        "my-tools",
        "--artifact-dir",
        "artifacts",
        "--images",
        "kitty",
        "search-items",
        "--query",
        "rust",
        "--mode",
        "fast",
    ]);
    let rendering = run(items, |_, _| {
        Ok(ToolOutput::new()
            .text("summary")
            .image(b"png", "image/png")
            .audio(b"wav", "audio/wav")
            .embedded_blob(b"pdf", "file:///report.pdf", "application/pdf")
            .embedded_text("notes", "file:///notes.txt", Some("text/plain"))
            .resource_link("file:///source", "source")
            .structured(&json(r#"{"ok": true}"#)))
    })
    .expect("artifact runner");
    assert!(rendering.stderr.is_empty());
    let Payload::Text(rendered) = &rendering.stdout else {
        panic!("expected text output");
    };
    assert!(rendered.contains("\u{1b}_Ga=T,f=100,m=0;"));
    assert!(rendered.contains("[image:"));
    assert!(rendered.contains("[audio:"));
    assert!(rendered.contains("[embedded blob: file:///report.pdf ->"));
    assert!(rendered.contains("[embedded text: file:///notes.txt (text/plain)]\nnotes"));
    assert!(rendered.contains("[resource: source (file:///source)]"));
    assert!(rendered.ends_with("{\n  \"ok\": true\n}\n"));

    let files: Vec<(&str, &[u8])> = rendering
        .files
        .iter()
        .map(|file| (file.name.as_str(), file.bytes.as_slice()))
        .collect();
    assert_eq!(
        files,
        vec![
            ("image-1.png", b"png".as_slice()),
            ("audio-2.wav", b"wav".as_slice()),
            ("blob-3.pdf", b"pdf".as_slice()),
        ]
    );
    assert!(rendered.contains("[image: /tmp/run/image-1.png]\n"));
}

#[test]
fn text_only_artifacts_create_no_directory() {
    let rendering = cli()
        .run_on(
            args(&[
                "my-tools",
                "--artifact-dir",
                "artifacts",
                "search-items",
                "--query",
                "rust",
                "--mode",
                "fast",
            ]),
            no_input(),
            false,
            "/tmp/run",
            |_, _| -> Result<&str, &str> { Ok("plain text") },
        )
        .expect("text artifact output");
    assert_eq!(stdout(&rendering), b"plain text\n");
    assert!(rendering.files.is_empty());
}

fn search_behavior(tool: TestTools) -> ToolOutput {
    match tool {
        TestTools::Search(input) => ToolOutput::new().text(format!("handled {}", input.query)),
        TestTools::Ping(_) => ToolOutput::new().text("pong"),
    }
}

#[test]
fn native_and_mcp_paths_invoke_the_same_behavior() {
    let mut server = McpServer::<TestTools>::builder()
        .name("test")
        .version("1.0")
        .build();
    let initialize = r#"{"jsonrpc":"2.0","id":1,"method":"initialize","params":{"protocolVersion":"2025-11-25","capabilities":{},"clientInfo":{"name":"test","version":"1.0"}}}"#;
    let _ = server.handle(parse_line(initialize).expect("initialize request"));
    let initialized = r#"{"jsonrpc":"2.0","method":"notifications/initialized"}"#;
    let _ = server.handle(parse_line(initialized).expect("initialized notification"));
    let call = r#"{"jsonrpc":"2.0","id":2,"method":"tools/call","params":{"name":"search_items","arguments":{"query":"rust","mode":"fast"}}}"#;
    let Output::ToolCall { tool, .. } = server.handle(parse_line(call).expect("tool call")) else {
        panic!("expected MCP tool call");
    };
    let mcp_output = search_behavior(tool);

    let rendering = run(minimal_search_args("artifacts"), |_, tool| {
        Ok(search_behavior(tool))
    })
    .expect("native tool call");
    assert_eq!(mcp_output.as_text(), Some("handled rust"));
    assert_eq!(stdout(&rendering), b"handled rust\n");
}

#[test]
fn runner_reports_what_parsing_refuses() {
    let error = run(args(&["my-tools"]), |_, _| unreachable!("nothing was selected"))
        .expect_err("no tool");
    assert_eq!(error.kind(), CliErrorKind::Usage);
    assert!(error.to_string().contains("no tool selected"));
}

#[test]
fn parses_matches_of_a_nested_command() {
    let generated = cli();
    let command = generated
        .attach_to(clap::Command::new("app"))
        .expect("unique subtree");
    let matches = command
        .try_get_matches_from(["app", "my-tools", "http-server"])
        .expect("valid arguments");
    let (name, inner) = matches.subcommand().expect("subcommand");
    assert_eq!(name, "my-tools");
    let (tool, options) = generated
        .try_parse_matches(inner, no_input())
        .expect("valid invocation")
        .into_parts();
    assert!(matches!(tool, TestTools::Ping(_)));
    assert_eq!(options.mode, OutputMode::Artifacts);
    assert_eq!(options.images, ImageMode::Auto);
    assert!(options.artifact_dir.is_none());
}

#[test]
fn artifact_settings_go_with_artifact_output() {
    for items in [
        ["--artifact-dir", "somewhere"],
        ["--images", "auto"],
        ["--images", "off"],
    ] {
        let error = refused(
            &["my-tools", "--output", "raw", items[0], items[1], "http-server"],
            no_input(),
        );
        assert!(error
            .to_string()
            .contains("--artifact-dir and --images require --output artifacts"));
    }
}

#[test]
fn choices_are_exact() {
    let error = refused(
        &["my-tools", "search-items", "--query", "x", "--mode", "FAST"],
        no_input(),
    );
    assert_eq!(error.kind(), CliErrorKind::Usage);
    let error = refused(&["my-tools", "--output", "other", "http-server"], no_input());
    assert_eq!(error.kind(), CliErrorKind::Usage);
    let error = refused(&["my-tools", "unknown"], no_input());
    assert_eq!(error.kind(), CliErrorKind::Usage);
}

#[test]
fn registries_have_the_last_word() {
    let error = refused(
        &["my-tools", "--input-json", "search-items"],
        InputData::new(b"{}".to_vec()),
    );
    assert_eq!(error.kind(), CliErrorKind::Usage);
    assert!(error
        .to_string()
        .contains("invalid params: search_items: missing field"));
}

#[test]
fn failed_streams_are_runtime_failures_wherever_they_fail() {
    for bytes in [b"{}".as_slice(), b"{} \n", b"{", b"", b"12", b"[1"] {
        let mut input = InputData::new(bytes.to_vec());
        input.failure = Some("device gone".into());
        let error = refused(&["my-tools", "--input-json", "search-items"], input);
        assert_eq!(error.kind(), CliErrorKind::Runtime);
        assert_eq!(error.exit_code(), 1);
        assert_eq!(
            error.to_string(),
            "error: failed to read JSON input: device gone\n"
        );
    }
    for bytes in [b"{} x".as_slice(), b"}"] {
        let mut input = InputData::new(bytes.to_vec());
        input.failure = Some("device gone".into());
        let error = refused(&["my-tools", "--input-json", "search-items"], input);
        assert_eq!(error.exit_code(), 2);
    }
}

#[test]
fn input_is_only_wanted_for_whole_input() {
    let generated = cli();
    for (items, wanted) in [
        (vec!["my-tools", "--input-json", "search-items"], true),
        (vec!["my-tools", "--input-json", "search-items", "http-server"], false),
        (vec!["my-tools", "http-server"], false),
    ] {
        let matches = generated.match_arguments(args(&items)).expect("valid arguments");
        assert_eq!(generated.wants_input(&matches), wanted);
    }
    let error = generated
        .match_arguments(args(&["my-tools", "--nothing"]))
        .expect_err("unknown option");
    assert_eq!(error.kind(), CliErrorKind::Usage);
}

#[test]
fn failures_of_whole_input_are_told_apart() {
    let mut input = InputData::new(b"{".to_vec());
    input.failure = Some("device gone".into());
    let error = refused(&["my-tools", "--input-json", "search-items"], input);
    assert_eq!(error.kind(), CliErrorKind::Runtime);
    assert!(error.to_string().contains("device gone"));

    let error = refused(
        &["my-tools", "--input-json", "search-items"],
        InputData::new(b"{".to_vec()),
    );
    assert_eq!(error.kind(), CliErrorKind::Usage);
}

struct NamedTools;

impl ToolRegistry for NamedTools {
    fn parse(name: &str, _arguments: Json) -> Result<Self, JsonRpcError> {
        Err(unknown_tool_error(name))
    }

    fn definitions() -> ToolDefinitions {
        ToolDefinitions::new(vec![
            bare("help", "Reserved"),
            bare("!!", "Invalid"),
            ToolDefinition {
                name: "twice".into(),
                description: "Collides".into(),
                input_schema: mercutio::registry::convert_schema_to_tool_input(&json(
                    r#"{"properties":{"a_b":{"type":"string"},"aB":{"type":"string"},"help":{"type":"string"}}}"#,
                )),
            },
        ])
    }
}

/// What construction problems say.
fn problem_texts(error: &CliBuildError) -> Vec<String> {
    error
        .problems()
        .iter()
        .map(|problem| problem.to_string())
        .collect()
}

#[test]
fn every_construction_problem_is_reported() {
    let error = NamedTools::cli("tools").build().err().expect("problems");
    let texts = problem_texts(&error);
    assert!(texts.contains(&"tool name `help` is reserved for help".to_string()));
    assert!(texts.contains(&"unsupported tool name `!!`".to_string()));
    assert!(texts.contains(&"`a-b` is shared by `aB`, `a_b`".to_string()));
    assert!(texts.contains(&"property name `help` is reserved for help".to_string()));
    assert!(error.to_string().starts_with("cannot construct CLI: "));

    let error = NamedTools::cli("??").build().err().expect("invalid root");
    assert!(matches!(
        error.problems(),
        [CliBuildProblem::InvalidName { kind: "command", name }] if name == "??"
    ));
}

#[test]
fn names_become_kebab_case() {
    for (name, expected) in [
        ("get_weather", "get-weather"),
        ("HTTPServer", "http-server"),
        ("getHTTPResponse2", "get-http-response2"),
        ("already-kebab", "already-kebab"),
        ("a.b_c", "a-b-c"),
    ] {
        assert_eq!(normalize_name(name), Ok(expected.to_string()));
        assert_eq!(normalize_name(expected), Ok(expected.to_string()));
    }
    assert!(normalize_name("").is_err());
    assert!(normalize_name("--").is_err());
    assert!(normalize_name("a/b").is_err());
    assert_eq!(
        normalize_path("filter.rangeMax"),
        Ok("filter-range-max".to_string())
    );
    assert!(normalize_path("filter..x").is_err());
}

#[test]
fn separator_runs_do_not_matter() {
    for name in ["get_weather", "get-weather", "get..weather", "get_-._weather"] {
        assert_eq!(normalize_name(name), Ok("get-weather".to_string()));
    }
    for name in ["_HTTPServer2.", "--HTTPServer2_-"] {
        assert_eq!(normalize_name(name), Ok("http-server2".to_string()));
    }
    assert_eq!(normalize_name("a_B.c"), normalize_name("a--B__c"));
    assert!(normalize_name("_").is_err() && normalize_name("..-").is_err());
}

#[test]
fn scalars_are_strict_json() {
    let integer = parse_scalar(&ScalarKind::Integer, "-3", "limit").expect("integer");
    assert_eq!(integer.to_text(), "-3");
    for text in ["1.0", "+1", "01", "", "x"] {
        assert!(parse_scalar(&ScalarKind::Integer, text, "limit").is_err());
    }
    let number = parse_scalar(&ScalarKind::Number, "1e3", "score").expect("number");
    assert_eq!(number.to_text(), "1000.0");
    let boolean = parse_scalar(&ScalarKind::Boolean, "true", "flag").expect("boolean");
    assert_eq!(boolean.to_text(), "true");
    assert!(parse_scalar(&ScalarKind::Boolean, "yes", "flag").is_err());
    let text = parse_scalar(&ScalarKind::Text(Vec::new()), "12", "name").expect("text");
    assert_eq!(text.to_text(), "\"12\"");
    assert!(json_has_type(&json("[]"), "array"));
    assert!(!json_has_type(&json("[]"), "object"));
}

#[test]
fn errors_go_to_their_stream() {
    let mut out = String::from("a");
    let mut err = String::from("b");
    CliError::new(CliErrorKind::Display, "help\n".into()).write_to(&mut out, &mut err);
    CliError::runtime("stream").write_to(&mut out, &mut err);
    assert_eq!(out, "ahelp\n");
    assert_eq!(err, "berror: stream\n");
}

/// Presents output with the given images.
fn pictured(images: ImageMode, terminal: bool, output: ToolOutput) -> Rendering {
    let options = OutputOptions {
        mode: OutputMode::Artifacts,
        images,
        artifact_dir: None,
    };
    let outcome: Result<ToolOutput, &str> = Ok(output);
    present(outcome, &options, terminal, "/a").expect("rendering")
}

#[test]
fn images_are_shown_inline_as_the_policy_says() {
    let shown = |images, terminal| {
        let rendering = pictured(images, terminal, ToolOutput::new().image(b"png", "image/png"));
        String::from_utf8(stdout(&rendering).to_vec()).expect("text")
    };
    let path = "[image: /a/image-1.png]\n";
    let inline = "\u{1b}_Ga=T,f=100,m=0;cG5n\u{1b}\\\n[image: /a/image-1.png]\n";
    assert_eq!(shown(ImageMode::Off, true), path);
    assert_eq!(shown(ImageMode::Auto, false), path);
    assert_eq!(shown(ImageMode::Auto, true), inline);
    assert_eq!(shown(ImageMode::Kitty, false), inline);

    let other = pictured(
        ImageMode::Kitty,
        true,
        ToolOutput::new().image(b"jpg", "image/jpeg"),
    );
    assert_eq!(stdout(&other), b"[image: /a/image-1.jpeg]\n");
}

#[test]
fn large_images_are_sent_in_chunks() {
    let data = vec![7u8; 6144];
    let rendering = pictured(
        ImageMode::Kitty,
        false,
        ToolOutput::new().image(&data, "image/png"),
    );
    let text = String::from_utf8(stdout(&rendering).to_vec()).expect("text");
    let encoded = base64::encode(&data);
    assert_eq!(encoded.len(), 8192);
    assert_eq!(
        text,
        format!(
            "\u{1b}_Ga=T,f=100,m=1;{}\u{1b}\\\u{1b}_Gm=0;{}\u{1b}\\\n[image: /a/image-1.png]\n",
            &encoded[..4096],
            &encoded[4096..]
        )
    );
}

#[test]
fn artifact_names_follow_the_media_type() {
    let rendering = pictured(
        ImageMode::Off,
        false,
        ToolOutput::new()
            .image(b"a", "image/svg+xml")
            .image(b"b", "image")
            .image(b"c", "image/../../etc")
            .content(Content::EmbeddedBlob {
                uri: "u".into(),
                mime_type: None,
                blob: "ZA==".into(),
            }),
    );
    let names: Vec<&str> = rendering.files.iter().map(|file| file.name.as_str()).collect();
    assert_eq!(
        names,
        vec!["image-1.svg", "image-2.bin", "image-3.bin", "blob-4.bin"]
    );
    assert_eq!(rendering.files[3].bytes, b"d");
}

#[test]
fn base64_is_read_back() {
    for (bytes, text) in [
        (b"".as_slice(), ""),
        (b"f", "Zg=="),
        (b"fo", "Zm8="),
        (b"foo", "Zm9v"),
        (b"foob", "Zm9vYg=="),
        (b"\xfb\xff\xfe", "+//+"),
    ] {
        assert_eq!(base64::encode(bytes), text);
        assert_eq!(base64::decode(text).as_deref(), Some(bytes));
    }
    for text in ["Z", "Zg", "Zg=", "Zh==", "Zm9=", "Zg==Zg==", "Zm9 ", "=Zg="] {
        assert!(base64::decode(text).is_none());
    }
}

#[test]
fn whole_input_is_read_as_one_object() {
    let read = |bytes: &[u8]| {
        mercutio::cli::options::read_json_input(&InputData::new(bytes.to_vec()))
            .map(|value| value.to_text())
            .map_err(|error| error.kind())
    };
    assert_eq!(read(b" {\"a\": 1} \n"), Ok("{\"a\":1}".to_string()));
    assert_eq!(read(b"1"), Err(CliErrorKind::Usage));
    assert_eq!(read(b"{}{}"), Err(CliErrorKind::Usage));
    assert_eq!(read(b"\xff"), Err(CliErrorKind::Usage));
}
