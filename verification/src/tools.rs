//! Tool registration and tool output.

use vstd::prelude::*;
use vstd::string::StringExecFns;

use crate::base64::{encode, encoded};
use crate::json::{
    canonical, canonical_is_settled, ordered_json, pretty_json, settled, Json, JsonView,
};
use crate::message::opt_json;
use crate::text::{
    copy_opt, decimal, decimal_text, decimal_value, join_texts, joined, numerals_stand_for_numbers, opt_text, texts,
};
use crate::wire::{
    audio_block, block_json, blocks_json, call_result_json, call_result_value, embedded_blob,
    embedded_blob_block, embedded_text, embedded_text_block, image_block, link_block,
    link_block_json, media_block_json, resource_block_json, text_block, text_block_json,
};

verus! {

// ---------------------------------------------------------------------------------------------
// Output

/// Content block of a tool's output. Binary data is in base64.
#[allow(inconsistent_fields)]
#[derive(Debug)]
pub enum Content {
    Text { text: String },
    Image { data: String, mime_type: String },
    Audio { data: String, mime_type: String },
    ResourceLink { name: String, uri: String },
    EmbeddedText { uri: String, mime_type: Option<String>, text: String },
    EmbeddedBlob { uri: String, mime_type: Option<String>, blob: String },
}

/// A content block as mathematics.
#[allow(inconsistent_fields)]
pub enum ContentView {
    Text { text: Seq<char> },
    Image { data: Seq<char>, mime_type: Seq<char> },
    Audio { data: Seq<char>, mime_type: Seq<char> },
    ResourceLink { name: Seq<char>, uri: Seq<char> },
    EmbeddedText { uri: Seq<char>, mime_type: Option<Seq<char>>, text: Seq<char> },
    EmbeddedBlob { uri: Seq<char>, mime_type: Option<Seq<char>>, blob: Seq<char> },
}

impl View for Content {
    type V = ContentView;

    open spec fn view(&self) -> ContentView {
        match self {
            Content::Text { text } => ContentView::Text { text: text@ },
            Content::Image { data, mime_type } => ContentView::Image {
                data: data@,
                mime_type: mime_type@,
            },
            Content::Audio { data, mime_type } => ContentView::Audio {
                data: data@,
                mime_type: mime_type@,
            },
            Content::ResourceLink { name, uri } => ContentView::ResourceLink {
                name: name@,
                uri: uri@,
            },
            Content::EmbeddedText { uri, mime_type, text } => ContentView::EmbeddedText {
                uri: uri@,
                mime_type: opt_text(*mime_type),
                text: text@,
            },
            Content::EmbeddedBlob { uri, mime_type, blob } => ContentView::EmbeddedBlob {
                uri: uri@,
                mime_type: opt_text(*mime_type),
                blob: blob@,
            },
        }
    }
}

/// Content blocks as mathematics.
pub open spec fn content_views(content: Seq<Content>) -> Seq<ContentView> {
    Seq::new(content.len(), |i: int| content[i]@)
}

/// The JSON of a content block.
pub open spec fn content_json(block: ContentView) -> JsonView {
    match block {
        ContentView::Text { text } => text_block_json(text),
        ContentView::Image { data, mime_type } => media_block_json("image"@, data, mime_type),
        ContentView::Audio { data, mime_type } => media_block_json("audio"@, data, mime_type),
        ContentView::ResourceLink { name, uri } => link_block_json(name, uri),
        ContentView::EmbeddedText { uri, mime_type, text } => resource_block_json(
            embedded_text(uri, mime_type, text),
        ),
        ContentView::EmbeddedBlob { uri, mime_type, blob } => resource_block_json(
            embedded_blob(uri, mime_type, blob),
        ),
    }
}

/// The JSON of content blocks.
pub open spec fn contents_json(content: Seq<ContentView>) -> Seq<JsonView> {
    Seq::new(content.len(), |i: int| content_json(content[i]))
}

/// The number of bytes of a text, in decimal.
pub open spec fn byte_count(text: Seq<char>) -> Seq<char> {
    decimal((vstd::utf8::encode_utf8(text).len() as usize) as nat)
}

/// A content block as readers see it: texts as they are, and a placeholder for anything else.
pub open spec fn content_text(block: ContentView) -> Seq<char> {
    match block {
        ContentView::Text { text } => text,
        ContentView::Image { data, mime_type } => "[Image: "@ + mime_type + ", "@ + byte_count(data)
            + " bytes]"@,
        ContentView::Audio { data, mime_type } => "[Audio: "@ + mime_type + ", "@ + byte_count(data)
            + " bytes]"@,
        ContentView::ResourceLink { name, uri } => "[Resource: "@ + name + " ("@ + uri + ")]"@,
        ContentView::EmbeddedText { uri, .. } => "[Embedded Text: "@ + uri + "]"@,
        ContentView::EmbeddedBlob { uri, mime_type, blob } => "[Embedded Blob: "@ + uri + ", "@ + (
        match mime_type {
            Some(mime) => mime,
            None => "unknown"@,
        }) + ", "@ + byte_count(blob) + " bytes]"@,
    }
}

/// Content blocks as readers see them.
pub open spec fn content_texts(content: Seq<ContentView>) -> Seq<Seq<char>> {
    Seq::new(content.len(), |i: int| content_text(content[i]))
}

impl Content {
    /// Copies a block.
    pub fn copy(&self) -> (r: Content)
        ensures
            r@ == self@,
    {
        match self {
            Content::Text { text } => Content::Text { text: text.clone() },
            Content::Image { data, mime_type } => Content::Image {
                data: data.clone(),
                mime_type: mime_type.clone(),
            },
            Content::Audio { data, mime_type } => Content::Audio {
                data: data.clone(),
                mime_type: mime_type.clone(),
            },
            Content::ResourceLink { name, uri } => Content::ResourceLink {
                name: name.clone(),
                uri: uri.clone(),
            },
            Content::EmbeddedText { uri, mime_type, text } => Content::EmbeddedText {
                uri: uri.clone(),
                mime_type: copy_opt(mime_type),
                text: text.clone(),
            },
            Content::EmbeddedBlob { uri, mime_type, blob } => Content::EmbeddedBlob {
                uri: uri.clone(),
                mime_type: copy_opt(mime_type),
                blob: blob.clone(),
            },
        }
    }

    /// Makes the protocol's block.
    fn to_block(&self) -> (r: rust_mcp_schema::ContentBlock)
        ensures
            block_json(r) == content_json(self@),
    {
        match self {
            Content::Text { text } => text_block(text.clone()),
            Content::Image { data, mime_type } => image_block(data.clone(), mime_type.clone()),
            Content::Audio { data, mime_type } => audio_block(data.clone(), mime_type.clone()),
            Content::ResourceLink { name, uri } => link_block(name.clone(), uri.clone()),
            Content::EmbeddedText { uri, mime_type, text } => embedded_text_block(
                uri.clone(),
                copy_opt(mime_type),
                text.clone(),
            ),
            Content::EmbeddedBlob { uri, mime_type, blob } => embedded_blob_block(
                uri.clone(),
                copy_opt(mime_type),
                blob.clone(),
            ),
        }
    }

    /// Shows the block to readers.
    pub fn to_string(&self) -> (r: String)
        ensures
            r@ == content_text(self@),
    {
        match self {
            Content::Text { text } => text.clone(),
            Content::Image { data, mime_type } => {
                let mut out = "[Image: ".to_owned();
                out.append(mime_type.as_str());
                out.append(", ");
                out.append(decimal_text(data.as_str().len()).as_str());
                out.append(" bytes]");
                out
            },
            Content::Audio { data, mime_type } => {
                let mut out = "[Audio: ".to_owned();
                out.append(mime_type.as_str());
                out.append(", ");
                out.append(decimal_text(data.as_str().len()).as_str());
                out.append(" bytes]");
                out
            },
            Content::ResourceLink { name, uri } => {
                let mut out = "[Resource: ".to_owned();
                out.append(name.as_str());
                out.append(" (");
                out.append(uri.as_str());
                out.append(")]");
                out
            },
            Content::EmbeddedText { uri, .. } => {
                let mut out = "[Embedded Text: ".to_owned();
                out.append(uri.as_str());
                out.append("]");
                out
            },
            Content::EmbeddedBlob { uri, mime_type, blob } => {
                let mut out = "[Embedded Blob: ".to_owned();
                out.append(uri.as_str());
                out.append(", ");
                match mime_type {
                    Some(mime) => out.append(mime.as_str()),
                    None => out.append("unknown"),
                }
                out.append(", ");
                out.append(decimal_text(blob.as_str().len()).as_str());
                out.append(" bytes]");
                out
            },
        }
    }
}

/// Result of a tool call.
#[derive(Debug)]
pub struct CallToolResult {
    /// Content blocks.
    pub content: Vec<Content>,
    /// Whether the tool ran and failed.
    pub is_error: bool,
    /// Structured content, always an object.
    pub structured_content: Option<Json>,
}

/// A tool call's result as mathematics.
pub struct CallResultView {
    pub content: Seq<ContentView>,
    pub is_error: bool,
    pub structured: Option<JsonView>,
}

impl View for CallToolResult {
    type V = CallResultView;

    open spec fn view(&self) -> CallResultView {
        CallResultView {
            content: content_views(self.content@),
            is_error: self.is_error,
            structured: opt_json(self.structured_content),
        }
    }
}

/// Whether a result's structured content is a canonical object.
pub open spec fn result_sound(result: CallResultView) -> bool {
    result.structured matches Some(value) ==> value is Object && canonical(value)
}

/// The JSON of a tool call's result.
pub open spec fn result_json(result: CallResultView) -> JsonView {
    call_result_json(contents_json(result.content), result.is_error, result.structured)
}

impl CallToolResult {
    /// Makes the result's JSON object.
    pub fn to_json(&self) -> (r: Json)
        requires
            result_sound(self@),
        ensures
            r@ == result_json(self@),
            canonical(r@),
    {
        let mut blocks: Vec<rust_mcp_schema::ContentBlock> = Vec::new();
        let mut i: usize = 0;
        while i < self.content.len()
            invariant
                i <= self.content.len(),
                blocks.len() == i,
                forall|k: int|
                    0 <= k < i ==> block_json(#[trigger] blocks@[k]) == content_json(
                        self.content@[k]@,
                    ),
            decreases self.content.len() - i,
        {
            blocks.push(self.content[i].to_block());
            i += 1;
        }
        assert(blocks_json(blocks@) =~= contents_json(content_views(self.content@)));
        let structured: Option<serde_json::Value> = match &self.structured_content {
            Some(value) => {
                proof {
                    canonical_is_settled(value@);
                }
                Some(value.to_value())
            },
            None => None,
        };
        Json::from_value(call_result_value(blocks, self.is_error, structured))
    }
}

/// Successful output from a tool invocation.
#[derive(Debug)]
pub struct ToolOutput {
    /// Content blocks.
    content: Vec<Content>,
    /// Structured content.
    structured_content: Option<Json>,
}

/// A tool's output as mathematics.
pub struct OutputView {
    pub content: Seq<ContentView>,
    pub structured: Option<JsonView>,
}

impl View for ToolOutput {
    type V = OutputView;

    closed spec fn view(&self) -> OutputView {
        OutputView {
            content: content_views(self.content@),
            structured: opt_json(self.structured_content),
        }
    }
}

/// Output without content.
pub open spec fn empty_output() -> OutputView {
    OutputView { content: Seq::empty(), structured: None }
}

/// Output with one more block.
pub open spec fn with_block(output: OutputView, block: ContentView) -> OutputView {
    OutputView { content: output.content.push(block), ..output }
}

/// Output with a text block behind the others.
pub open spec fn with_text(output: OutputView, text: Seq<char>) -> OutputView {
    with_block(output, ContentView::Text { text })
}

/// Output with structured content, if the value is an object.
pub open spec fn with_structured(output: OutputView, value: JsonView) -> OutputView {
    if value is Object {
        OutputView { structured: Some(settled(value)), ..output }
    } else {
        output
    }
}

/// A tool's output as the result of a call.
pub open spec fn as_result(output: OutputView, is_error: bool) -> CallResultView {
    CallResultView { content: output.content, is_error, structured: output.structured }
}

/// A tool's output as readers see it: its blocks with an empty line between them, then its
/// structured content as indented JSON.
pub open spec fn output_text(output: OutputView) -> Seq<char> {
    let blocks = joined(content_texts(output.content), "\n\n"@);
    match output.structured {
        Some(value) => blocks + (if output.content.len() > 0 {
            "\n\n"@
        } else {
            Seq::empty()
        }) + "Structured Content:\n"@ + pretty_json(settled(value)),
        None => blocks,
    }
}

impl ToolOutput {
    /// Structured content is a canonical object.
    #[verifier::type_invariant]
    spec fn sound(&self) -> bool {
        opt_json(self.structured_content) matches Some(value) ==> value is Object && canonical(value)
    }

    /// Creates an empty output for building.
    pub fn new() -> (r: ToolOutput)
        ensures
            r@ == empty_output(),
    {
        let r = ToolOutput { content: Vec::new(), structured_content: None };
        assert(r@.content =~= Seq::empty());
        r
    }

    /// Adds a content block.
    pub fn content(self, block: Content) -> (r: ToolOutput)
        ensures
            r@ == with_block(self@, block@),
    {
        proof {
            use_type_invariant(&self);
        }
        let ghost before = self@;
        let mut content = self.content;
        content.push(block);
        let r = ToolOutput { content, structured_content: self.structured_content };
        assert(r@.content =~= before.content.push(block@));
        r
    }

    /// Adds a text content block.
    pub fn text<I: IntoText>(self, text: I) -> (r: ToolOutput)
        ensures
            r@ == with_text(self@, text.as_text()),
    {
        self.content(Content::Text { text: text.into_text() })
    }

    /// Adds an image.
    pub fn image(self, data: &[u8], mime_type: &str) -> (r: ToolOutput)
        ensures
            r@ == with_block(
                self@,
                (ContentView::Image { data: encoded(data@), mime_type: mime_type@ }),
            ),
    {
        self.content(Content::Image { data: encode(data), mime_type: mime_type.to_owned() })
    }

    /// Adds audio.
    pub fn audio(self, data: &[u8], mime_type: &str) -> (r: ToolOutput)
        ensures
            r@ == with_block(
                self@,
                (ContentView::Audio { data: encoded(data@), mime_type: mime_type@ }),
            ),
    {
        self.content(Content::Audio { data: encode(data), mime_type: mime_type.to_owned() })
    }

    /// Adds an embedded binary resource.
    pub fn embedded_blob(self, data: &[u8], uri: &str, mime_type: &str) -> (r: ToolOutput)
        ensures
            r@ == with_block(
                self@,
                (ContentView::EmbeddedBlob {
                    uri: uri@,
                    mime_type: Some(mime_type@),
                    blob: encoded(data@),
                }),
            ),
    {
        self.content(
            Content::EmbeddedBlob {
                uri: uri.to_owned(),
                mime_type: Some(mime_type.to_owned()),
                blob: encode(data),
            },
        )
    }

    /// Adds an embedded text resource.
    pub fn embedded_text(self, text: &str, uri: &str, mime_type: Option<&str>) -> (r: ToolOutput)
        ensures
            r@ == with_block(
                self@,
                (ContentView::EmbeddedText {
                    uri: uri@,
                    mime_type: match mime_type {
                        Some(mime) => Some(mime@),
                        None => None,
                    },
                    text: text@,
                }),
            ),
    {
        let mime_type: Option<String> = match mime_type {
            Some(mime) => Some(mime.to_owned()),
            None => None,
        };
        self.content(
            Content::EmbeddedText { uri: uri.to_owned(), mime_type, text: text.to_owned() },
        )
    }

    /// Adds a link to a resource.
    pub fn resource_link(self, uri: &str, name: &str) -> (r: ToolOutput)
        ensures
            r@ == with_block(self@, (ContentView::ResourceLink { name: name@, uri: uri@ })),
    {
        self.content(Content::ResourceLink { name: name.to_owned(), uri: uri.to_owned() })
    }

    /// Sets structured content to an object; any other value changes nothing. Does not modify the
    /// content blocks.
    pub fn structured(self, value: &Json) -> (r: ToolOutput)
        ensures
            r@ == with_structured(self@, value@),
    {
        proof {
            use_type_invariant(&self);
        }
        match value {
            Json::Object(_) => {
                let structured = Json::from_value(value.to_value());
                ToolOutput { content: self.content, structured_content: Some(structured) }
            },
            _ => self,
        }
    }

    /// Creates output with structured JSON content and its text, which keeps the order of members.
    pub fn json(value: &Json) -> (r: ToolOutput)
        ensures
            r@ == with_structured(with_text(empty_output(), ordered_json(value@)), value@),
    {
        ToolOutput::new().text(value.to_ordered_text()).structured(value)
    }

    /// The text of the first text block.
    pub fn as_text(&self) -> (r: Option<&str>)
        ensures
            match r {
                Some(text) => exists|i: int|
                    0 <= i < self@.content.len() && #[trigger] self@.content[i] == (
                    ContentView::Text { text: text@ }) && forall|k: int|
                        0 <= k < i ==> !(#[trigger] self@.content[k] is Text),
                None => forall|i: int|
                    0 <= i < self@.content.len() ==> !(#[trigger] self@.content[i] is Text),
            },
    {
        let mut i: usize = 0;
        while i < self.content.len()
            invariant
                i <= self.content.len(),
                forall|k: int| 0 <= k < i ==> !(#[trigger] self@.content[k] is Text),
            decreases self.content.len() - i,
        {
            assert(self@.content[i as int] == self.content@[i as int]@);
            match &self.content[i] {
                Content::Text { text } => {
                    return Some(text.as_str());
                },
                _ => {},
            }
            i += 1;
        }
        None
    }

    /// Converts to the result of a call with the given error flag.
    pub fn into_call_result(self, is_error: bool) -> (r: CallToolResult)
        ensures
            r@ == as_result(self@, is_error),
            result_sound(r@),
    {
        proof {
            use_type_invariant(&self);
        }
        CallToolResult {
            content: self.content,
            is_error,
            structured_content: self.structured_content,
        }
    }

    /// Shows the output to readers.
    pub fn to_string(&self) -> (r: String)
        ensures
            r@ == output_text(self@),
    {
        let mut blocks: Vec<String> = Vec::new();
        let mut i: usize = 0;
        while i < self.content.len()
            invariant
                i <= self.content.len(),
                blocks.len() == i,
                forall|k: int|
                    0 <= k < i ==> (#[trigger] blocks@[k])@ == content_text(self.content@[k]@),
            decreases self.content.len() - i,
        {
            blocks.push(self.content[i].to_string());
            i += 1;
        }
        assert(texts(blocks@) =~= content_texts(self@.content));
        let mut out = join_texts(&blocks, "\n\n");
        if let Some(value) = &self.structured_content {
            let ghost before = out@;
            if self.content.len() > 0 {
                out.append("\n\n");
            }
            assert(out@ =~= before + (if self@.content.len() > 0 {
                "\n\n"@
            } else {
                Seq::empty()
            }));
            out.append("Structured Content:\n");
            out.append(value.to_pretty_text().as_str());
        }
        out
    }
}

/// Values that are texts.
pub trait IntoText: Sized {
    /// The text.
    spec fn as_text(&self) -> Seq<char>;

    /// Converts this value into a string.
    fn into_text(self) -> (r: String)
        ensures
            r@ == self.as_text(),
    ;
}

impl IntoText for String {
    open spec fn as_text(&self) -> Seq<char> {
        self@
    }

    fn into_text(self) -> (r: String) {
        self
    }
}

impl<'a> IntoText for &'a str {
    open spec fn as_text(&self) -> Seq<char> {
        self@
    }

    fn into_text(self) -> (r: String) {
        self.to_owned()
    }
}

/// Values that are tool output.
pub trait IntoToolOutput: Sized {
    /// The output.
    spec fn as_output(&self) -> OutputView;

    /// Converts this value into tool output.
    fn into_tool_output(self) -> (r: ToolOutput)
        ensures
            r@ == self.as_output(),
    ;
}

impl IntoToolOutput for ToolOutput {
    open spec fn as_output(&self) -> OutputView {
        self@
    }

    fn into_tool_output(self) -> (r: ToolOutput) {
        self
    }
}

impl IntoToolOutput for String {
    open spec fn as_output(&self) -> OutputView {
        with_text(empty_output(), self@)
    }

    fn into_tool_output(self) -> (r: ToolOutput) {
        ToolOutput::new().text(self)
    }
}

impl<'a> IntoToolOutput for &'a str {
    open spec fn as_output(&self) -> OutputView {
        with_text(empty_output(), self@)
    }

    fn into_tool_output(self) -> (r: ToolOutput) {
        ToolOutput::new().text(self)
    }
}

/// Converts a value into a tool response.
///
/// Direct values become a successful response. `Ok(v)` becomes a successful response, and `Err(e)`
/// an error response with the error's text as content.
pub trait IntoToolResponse: Sized {
    /// The response.
    spec fn as_response(&self) -> CallResultView;

    /// Converts this value into a [`CallToolResult`].
    fn into_tool_response(self) -> (r: CallToolResult)
        ensures
            r@ == self.as_response(),
            result_sound(r@),
    ;
}

impl IntoToolResponse for ToolOutput {
    open spec fn as_response(&self) -> CallResultView {
        as_result(self@, false)
    }

    fn into_tool_response(self) -> (r: CallToolResult) {
        self.into_call_result(false)
    }
}

impl IntoToolResponse for String {
    open spec fn as_response(&self) -> CallResultView {
        as_result(self.as_output(), false)
    }

    fn into_tool_response(self) -> (r: CallToolResult) {
        self.into_tool_output().into_call_result(false)
    }
}

impl<'a> IntoToolResponse for &'a str {
    open spec fn as_response(&self) -> CallResultView {
        as_result(self.as_output(), false)
    }

    fn into_tool_response(self) -> (r: CallToolResult) {
        self.into_tool_output().into_call_result(false)
    }
}

impl<T: IntoToolOutput, E: IntoText> IntoToolResponse for Result<T, E> {
    open spec fn as_response(&self) -> CallResultView {
        match self {
            Ok(value) => as_result(value.as_output(), false),
            Err(error) => as_result(with_text(empty_output(), error.as_text()), true),
        }
    }

    fn into_tool_response(self) -> (r: CallToolResult) {
        match self {
            Ok(value) => value.into_tool_output().into_call_result(false),
            Err(error) => ToolOutput::new().text(error).into_call_result(true),
        }
    }
}

/// Only an object becomes structured content: any other value leaves output as it is, and what
/// is made of it alone has its text and no structured content.
pub proof fn only_objects_are_structured(output: OutputView, value: JsonView)
    requires
        !(value is Object),
    ensures
        with_structured(output, value) == output,
        with_structured(with_text(empty_output(), ordered_json(value)), value) == (OutputView {
            content: seq![ContentView::Text { text: ordered_json(value) }],
            structured: None,
        }),
{
    let text = ordered_json(value);
    assert(with_text(empty_output(), text).content =~= seq![ContentView::Text { text }]);
}

/// Structured content that is a canonical object is kept as it is, beside the blocks.
pub proof fn structured_objects_are_kept(output: OutputView, value: JsonView)
    requires
        value is Object,
        canonical(value),
    ensures
        with_structured(output, value).structured == Some(value),
        with_structured(output, value).content == output.content,
{
    canonical_is_settled(value);
}

/// Blocks are kept in the order in which they were added, and none is dropped.
pub proof fn blocks_are_kept_in_order(output: OutputView, block: ContentView, i: int)
    requires
        0 <= i < output.content.len(),
    ensures
        with_block(output, block).content.len() == output.content.len() + 1,
        with_block(output, block).content[i] == output.content[i],
        with_block(output, block).content.last() == block,
        with_block(output, block).structured == output.structured,
        as_result(with_block(output, block), false).content == with_block(output, block).content,
        !as_result(output, false).is_error,
        as_result(output, true).is_error,
        as_result(output, true).structured == output.structured,
{
}

/// One more block is shown behind the others, after an empty line; structured content is shown
/// last.
pub proof fn blocks_are_shown_in_order(output: OutputView, block: ContentView)
    requires
        output.structured is None,
    ensures
        output.content.len() > 0 ==> output_text(with_block(output, block)) == output_text(output)
            + "\n\n"@ + content_text(block),
        output.content.len() == 0 ==> output_text(with_block(output, block)) == content_text(block),
{
    let before = content_texts(output.content);
    let after = content_texts(output.content.push(block));
    assert(after =~= before.push(content_text(block)));
    assert(after.drop_last() =~= before);
}

/// A number of bytes is the length of the text in UTF-8.
pub proof fn byte_counts_count_utf8(text: Seq<char>)
    requires
        vstd::utf8::encode_utf8(text).len() <= usize::MAX,
    ensures
        decimal_value(byte_count(text)) == vstd::utf8::encode_utf8(text).len(),
{
    numerals_stand_for_numbers(vstd::utf8::encode_utf8(text).len());
}

} // verus!
