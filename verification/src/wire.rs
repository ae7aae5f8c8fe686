//! Protocol objects and their JSON.

use vstd::prelude::*;

use crate::json::{json_of, members_view, JsonView};
use crate::message::optional_member;
use crate::table::collected;
use crate::text::{opt_text, texts};

verus! {

// ---------------------------------------------------------------------------------------------
// The JSON of protocol objects

/// An optional text as JSON.
pub open spec fn opt_text_json(text: Option<Seq<char>>) -> Option<JsonView> {
    match text {
        Some(text) => Some(JsonView::Text(text)),
        None => None,
    }
}

/// Texts as JSON.
pub open spec fn texts_json(items: Seq<Seq<char>>) -> JsonView {
    JsonView::Array(Seq::new(items.len(), |i: int| JsonView::Text(items[i])))
}

/// The input schema of a tool: its properties if they are given, its required names if there are
/// any, and its type.
pub open spec fn schema_json(
    required: Seq<Seq<char>>,
    properties: Option<Seq<(Seq<char>, JsonView)>>,
) -> JsonView {
    JsonView::Object(
        optional_member(
            "properties"@,
            match properties {
                Some(fields) => Some(JsonView::Object(fields)),
                None => None,
            },
        ) + (if required.len() > 0 {
            seq![("required"@, texts_json(required))]
        } else {
            Seq::empty()
        }) + seq![("type"@, JsonView::Text("object"@))],
    )
}

/// A tool as `tools/list` presents it.
pub open spec fn listed_tool_json(
    name: Seq<char>,
    description: Seq<char>,
    schema: JsonView,
) -> JsonView {
    JsonView::Object(
        seq![
            ("description"@, JsonView::Text(description)),
            ("inputSchema"@, schema),
            ("name"@, JsonView::Text(name)),
        ],
    )
}

/// The JSON of a text block.
pub open spec fn text_block_json(text: Seq<char>) -> JsonView {
    JsonView::Object(seq![("text"@, JsonView::Text(text)), ("type"@, JsonView::Text("text"@))])
}

/// The JSON of an image or audio block.
pub open spec fn media_block_json(kind: Seq<char>, data: Seq<char>, mime: Seq<char>) -> JsonView {
    JsonView::Object(
        seq![
            ("data"@, JsonView::Text(data)),
            ("mimeType"@, JsonView::Text(mime)),
            ("type"@, JsonView::Text(kind)),
        ],
    )
}

/// The JSON of a link block.
pub open spec fn link_block_json(name: Seq<char>, uri: Seq<char>) -> JsonView {
    JsonView::Object(
        seq![
            ("name"@, JsonView::Text(name)),
            ("type"@, JsonView::Text("resource_link"@)),
            ("uri"@, JsonView::Text(uri)),
        ],
    )
}

/// The JSON of an embedded resource block.
pub open spec fn resource_block_json(resource: Seq<(Seq<char>, JsonView)>) -> JsonView {
    JsonView::Object(
        seq![("resource"@, JsonView::Object(resource)), ("type"@, JsonView::Text("resource"@))],
    )
}

/// The members of an embedded text.
pub open spec fn embedded_text(
    uri: Seq<char>,
    mime: Option<Seq<char>>,
    text: Seq<char>,
) -> Seq<(Seq<char>, JsonView)> {
    optional_member("mimeType"@, opt_text_json(mime)) + seq![
        ("text"@, JsonView::Text(text)),
        ("uri"@, JsonView::Text(uri)),
    ]
}

/// The members of an embedded blob.
pub open spec fn embedded_blob(
    uri: Seq<char>,
    mime: Option<Seq<char>>,
    blob: Seq<char>,
) -> Seq<(Seq<char>, JsonView)> {
    seq![("blob"@, JsonView::Text(blob))] + optional_member("mimeType"@, opt_text_json(mime))
        + seq![("uri"@, JsonView::Text(uri))]
}

/// The result of a tool call.
pub open spec fn call_result_json(
    content: Seq<JsonView>,
    is_error: bool,
    structured: Option<JsonView>,
) -> JsonView {
    JsonView::Object(
        seq![("content"@, JsonView::Array(content)), ("isError"@, JsonView::Bool(is_error))]
            + optional_member("structuredContent"@, structured),
    )
}

/// What a server says of itself.
pub struct IdentityView {
    pub name: Seq<char>,
    pub version: Seq<char>,
    pub title: Option<Seq<char>>,
    /// Whether tools are offered, and then whether changes of their list are announced.
    pub tools: Option<Option<bool>>,
    pub instructions: Option<Seq<char>>,
}

/// The answer to `initialize`.
pub open spec fn initialize_json(identity: IdentityView) -> JsonView {
    let tools = match identity.tools {
        Some(list_changed) => Some(
            JsonView::Object(
                optional_member(
                    "listChanged"@,
                    match list_changed {
                        Some(b) => Some(JsonView::Bool(b)),
                        None => None,
                    },
                ),
            ),
        ),
        None => None,
    };
    let info = seq![("name"@, JsonView::Text(identity.name))] + optional_member(
        "title"@,
        opt_text_json(identity.title),
    ) + seq![("version"@, JsonView::Text(identity.version))];
    JsonView::Object(
        seq![("capabilities"@, JsonView::Object(optional_member("tools"@, tools)))]
            + optional_member("instructions"@, opt_text_json(identity.instructions)) + seq![
            ("protocolVersion"@, JsonView::Text("2025-11-25"@)),
            ("serverInfo"@, JsonView::Object(info)),
        ],
    )
}

// ---------------------------------------------------------------------------------------------
// Objects of `rust_mcp_schema`

/// `rust_mcp_schema`'s tool.
#[verifier::external_type_specification]
#[verifier::external_body]
pub struct ExTool(rust_mcp_schema::Tool);

/// `rust_mcp_schema`'s content block.
#[verifier::external_type_specification]
#[verifier::external_body]
pub struct ExContentBlock(rust_mcp_schema::ContentBlock);

/// The JSON that a `rust_mcp_schema` tool serializes to.
pub uninterp spec fn tool_json(tool: rust_mcp_schema::Tool) -> JsonView;

/// The JSON that a `rust_mcp_schema` content block serializes to.
pub uninterp spec fn block_json(block: rust_mcp_schema::ContentBlock) -> JsonView;

/// The JSON of tools.
pub open spec fn tools_json(tools: Seq<rust_mcp_schema::Tool>) -> Seq<JsonView> {
    Seq::new(tools.len(), |i: int| tool_json(tools[i]))
}

/// The JSON of content blocks.
pub open spec fn blocks_json(blocks: Seq<rust_mcp_schema::ContentBlock>) -> Seq<JsonView> {
    Seq::new(blocks.len(), |i: int| block_json(blocks[i]))
}

/// `rust_mcp_schema::Tool` with `ToolInputSchema::new`: a tool with a name, a description and an
/// input schema.
#[verifier::external_body]
pub(crate) fn make_tool(
    name: String,
    description: String,
    required: Vec<String>,
    properties: Option<Vec<(String, serde_json::Value)>>,
) -> (r: rust_mcp_schema::Tool)
    requires
        properties matches Some(fields) ==> forall|i: int|
            0 <= i < fields.len() ==> json_of((#[trigger] fields@[i]).1) is Object,
    ensures
        tool_json(r) == listed_tool_json(
            name@,
            description@,
            schema_json(
                texts(required@),
                match properties {
                    Some(fields) => Some(collected(members_view(fields@))),
                    None => None,
                },
            ),
        ),
{
    let object = |value: serde_json::Value| value.as_object().cloned().unwrap_or_default();
    let properties = properties.map(|fields| fields.into_iter().map(|(k, v)| (k, object(v))).collect());
    rust_mcp_schema::Tool {
        input_schema: rust_mcp_schema::ToolInputSchema::new(required, properties, None),
        name,
        description: Some(description),
        annotations: None,
        execution: None,
        icons: Vec::new(),
        meta: None,
        output_schema: None,
        title: None,
    }
}

/// `serde_json::to_value` on a `rust_mcp_schema::ListToolsResult`: the tools under one key.
#[verifier::external_body]
pub(crate) fn list_tools_value(tools: Vec<rust_mcp_schema::Tool>) -> (r: serde_json::Value)
    ensures
        json_of(r) == JsonView::Object(seq![("tools"@, JsonView::Array(tools_json(tools@)))]),
{
    let result = rust_mcp_schema::ListToolsResult { meta: None, next_cursor: None, tools };
    serde_json::to_value(result).unwrap_or_default()
}

/// `rust_mcp_schema::TextContent::new`: a text block.
#[verifier::external_body]
pub(crate) fn text_block(text: String) -> (r: rust_mcp_schema::ContentBlock)
    ensures
        block_json(r) == text_block_json(text@),
{
    rust_mcp_schema::TextContent::new(text, None, None).into()
}

/// `rust_mcp_schema::ImageContent::new`: an image block.
#[verifier::external_body]
pub(crate) fn image_block(data: String, mime: String) -> (r: rust_mcp_schema::ContentBlock)
    ensures
        block_json(r) == media_block_json("image"@, data@, mime@),
{
    rust_mcp_schema::ImageContent::new(data, mime, None, None).into()
}

/// `rust_mcp_schema::AudioContent::new`: an audio block.
#[verifier::external_body]
pub(crate) fn audio_block(data: String, mime: String) -> (r: rust_mcp_schema::ContentBlock)
    ensures
        block_json(r) == media_block_json("audio"@, data@, mime@),
{
    rust_mcp_schema::AudioContent::new(data, mime, None, None).into()
}

/// `rust_mcp_schema::ResourceLink::new`: a link block.
#[verifier::external_body]
pub(crate) fn link_block(name: String, uri: String) -> (r: rust_mcp_schema::ContentBlock)
    ensures
        block_json(r) == link_block_json(name@, uri@),
{
    rust_mcp_schema::ResourceLink::new(Vec::new(), name, uri, None, None, None, None, None, None).into()
}

/// `rust_mcp_schema::EmbeddedResource::new` on a text: an embedded text block.
#[verifier::external_body]
pub(crate) fn embedded_text_block(uri: String, mime_type: Option<String>, text: String) -> (r:
    rust_mcp_schema::ContentBlock)
    ensures
        block_json(r) == resource_block_json(embedded_text(uri@, opt_text(mime_type), text@)),
{
    let contents = rust_mcp_schema::TextResourceContents { meta: None, mime_type, text, uri };
    rust_mcp_schema::EmbeddedResource::new(contents.into(), None, None).into()
}

/// `rust_mcp_schema::EmbeddedResource::new` on a blob: an embedded blob block.
#[verifier::external_body]
pub(crate) fn embedded_blob_block(uri: String, mime_type: Option<String>, blob: String) -> (r:
    rust_mcp_schema::ContentBlock)
    ensures
        block_json(r) == resource_block_json(embedded_blob(uri@, opt_text(mime_type), blob@)),
{
    let contents = rust_mcp_schema::BlobResourceContents { meta: None, mime_type, blob, uri };
    rust_mcp_schema::EmbeddedResource::new(contents.into(), None, None).into()
}

/// `serde_json::to_value` on a `rust_mcp_schema::CallToolResult`.
#[verifier::external_body]
pub(crate) fn call_result_value(
    content: Vec<rust_mcp_schema::ContentBlock>,
    is_error: bool,
    structured: Option<serde_json::Value>,
) -> (r: serde_json::Value)
    requires
        structured matches Some(value) ==> json_of(value) is Object,
    ensures
        json_of(r) == call_result_json(
            blocks_json(content@),
            is_error,
            match structured {
                Some(value) => Some(json_of(value)),
                None => None,
            },
        ),
{
    let result = rust_mcp_schema::CallToolResult {
        content,
        is_error: Some(is_error),
        meta: None,
        structured_content: structured.and_then(|value| value.as_object().cloned()),
    };
    serde_json::to_value(result).unwrap_or_default()
}

/// `serde_json::to_value` on a `rust_mcp_schema::InitializeResult` with the crate's latest protocol
/// version.
#[verifier::external_body]
pub(crate) fn initialize_value(
    name: String,
    version: String,
    title: Option<String>,
    tools: Option<Option<bool>>,
    instructions: Option<String>,
) -> (r: serde_json::Value)
    ensures
        json_of(r) == initialize_json(
            IdentityView {
                name: name@,
                version: version@,
                title: opt_text(title),
                tools,
                instructions: opt_text(instructions),
            },
        ),
{
    let tools = tools.map(|list_changed| rust_mcp_schema::ServerCapabilitiesTools { list_changed });
    let capabilities = rust_mcp_schema::ServerCapabilities { tools, ..Default::default() };
    let (description, website_url, icons, meta) = (None, None, Vec::new(), None);
    let protocol_version = rust_mcp_schema::LATEST_PROTOCOL_VERSION.to_string();
    let server_info =
        rust_mcp_schema::Implementation { description, icons, name, title, version, website_url };
    let result = rust_mcp_schema::InitializeResult {
        capabilities, instructions, meta, protocol_version, server_info,
    };
    serde_json::to_value(result).unwrap_or_default()
}

} // verus!
