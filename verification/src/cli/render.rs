//! Presentation of tool output on the command line.

use vstd::prelude::*;
use vstd::string::StringExecFns;

use crate::base64::{decode, decoded, encoded, encoded_is_decoded};
use crate::cli::options::{ImageMode, OptionsView, OutputMode, OutputOptions};
use crate::cli::problem::{runtime_failure, CliError, CliErrorView};
use crate::json::{compact_json, pretty_json, settled};
use crate::text::{char_vec, decimal, decimal_text, digit_char, push_char, same_text};
use crate::tools::{
    as_result, content_views, result_json, result_sound, CallResultView, CallToolResult, Content,
    ContentView, IntoText, IntoToolOutput, OutputView,
};

verus! {

// ---------------------------------------------------------------------------------------------
// Artifacts

/// A file that holds one binary content block.
#[derive(Debug)]
pub struct Artifact {
    /// File name inside the invocation's directory.
    pub name: String,
    /// Decoded bytes.
    pub bytes: Vec<u8>,
}

/// An artifact as mathematics.
#[verifier::ext_equal]
pub struct ArtifactView {
    pub name: Seq<char>,
    pub bytes: Seq<u8>,
}

impl View for Artifact {
    type V = ArtifactView;

    open spec fn view(&self) -> ArtifactView {
        ArtifactView { name: self.name@, bytes: self.bytes@ }
    }
}

/// Artifacts as mathematics.
pub open spec fn artifact_views(files: Seq<Artifact>) -> Seq<ArtifactView> {
    Seq::new(files.len(), |i: int| files[i]@)
}

/// A binary content block: what it is called, its base64 data and its media type.
pub struct BinaryView {
    pub kind: Seq<char>,
    pub data: Seq<char>,
    pub mime_type: Option<Seq<char>>,
}

/// The binary content of a block, if it has any.
pub open spec fn binary_of(block: ContentView) -> Option<BinaryView> {
    match block {
        ContentView::Image { data, mime_type } => Some(
            BinaryView { kind: "image"@, data, mime_type: Some(mime_type) },
        ),
        ContentView::Audio { data, mime_type } => Some(
            BinaryView { kind: "audio"@, data, mime_type: Some(mime_type) },
        ),
        ContentView::EmbeddedBlob { mime_type, blob, .. } => Some(
            BinaryView { kind: "blob"@, data: blob, mime_type },
        ),
        _ => None,
    }
}

/// How many blocks are binary.
pub open spec fn binary_count(content: Seq<ContentView>) -> nat
    decreases content.len(),
{
    if content.len() == 0 {
        0
    } else if binary_of(content.last()) is Some {
        binary_count(content.drop_last()) + 1
    } else {
        binary_count(content.drop_last())
    }
}

/// Whether a character can stand in a file extension.
pub open spec fn extension_char(ch: char) -> bool {
    'a' <= ch <= 'z' || 'A' <= ch <= 'Z' || '0' <= ch <= '9'
}

/// The letters and digits at the front of a text.
pub open spec fn front_word(text: Seq<char>) -> Seq<char>
    decreases text.len(),
{
    if text.len() > 0 && extension_char(text[0]) {
        seq![text[0]] + front_word(text.skip(1))
    } else {
        Seq::empty()
    }
}

/// What follows the first slash of a text.
pub open spec fn behind_slash(text: Seq<char>) -> Seq<char>
    decreases text.len(),
{
    if text.len() == 0 {
        text
    } else if text[0] == '/' {
        text.skip(1)
    } else {
        behind_slash(text.skip(1))
    }
}

/// The file extension of a media type: the word at the front of its subtype, or `bin`.
pub open spec fn extension(mime_type: Option<Seq<char>>) -> Seq<char> {
    match mime_type {
        Some(mime) if front_word(behind_slash(mime)).len() > 0 => front_word(behind_slash(mime)),
        _ => "bin"@,
    }
}

/// The file name of the binary block with a number.
pub open spec fn artifact_name(binary: BinaryView, number: nat) -> Seq<char> {
    binary.kind + "-"@ + decimal(number) + "."@ + extension(binary.mime_type)
}

/// The files that binary blocks become, if all of them hold base64.
pub open spec fn artifacts(content: Seq<ContentView>) -> Option<Seq<ArtifactView>>
    decreases content.len(),
{
    if content.len() == 0 {
        Some(Seq::empty())
    } else {
        match artifacts(content.drop_last()) {
            None => None,
            Some(files) => match binary_of(content.last()) {
                None => Some(files),
                Some(binary) => match decoded(binary.data) {
                    None => None,
                    Some(bytes) => Some(
                        files.push(
                            ArtifactView {
                                name: artifact_name(binary, binary_count(content)),
                                bytes,
                            },
                        ),
                    ),
                },
            },
        }
    }
}

/// Each binary block becomes one file.
pub proof fn artifacts_count(content: Seq<ContentView>)
    ensures
        artifacts(content) matches Some(files) ==> files.len() == binary_count(content),
    decreases content.len(),
{
    if content.len() > 0 {
        artifacts_count(content.drop_last());
    }
}

// ---------------------------------------------------------------------------------------------
// Text

/// How much data one terminal graphics command carries.
pub const KITTY_CHUNK: usize = 4096;

/// The terminal graphics commands that show PNG data in base64.
pub open spec fn kitty_image(data: Seq<char>, first: bool) -> Seq<char>
    decreases data.len(),
{
    let head = if first {
        "\u{1b}_Ga=T,f=100,m="@
    } else {
        "\u{1b}_Gm="@
    };
    if data.len() <= KITTY_CHUNK {
        head + "0;"@ + data + "\u{1b}\\"@
    } else {
        head + "1;"@ + data.take(KITTY_CHUNK as int) + "\u{1b}\\"@ + kitty_image(
            data.skip(KITTY_CHUNK as int),
            false,
        )
    }
}

/// The lines that show a block, which a path stands for if it is binary.
pub open spec fn block_lines(block: ContentView, path: Seq<char>, inline: bool) -> Seq<char> {
    match block {
        ContentView::Text { text } => text + "\n"@,
        ContentView::Image { data, mime_type } => (if inline && mime_type == "image/png"@ {
            kitty_image(data, true) + "\n"@
        } else {
            Seq::empty()
        }) + "[image: "@ + path + "]\n"@,
        ContentView::Audio { .. } => "[audio: "@ + path + "]\n"@,
        ContentView::EmbeddedBlob { uri, .. } => "[embedded blob: "@ + uri + " -> "@ + path
            + "]\n"@,
        ContentView::EmbeddedText { uri, mime_type, text } => "[embedded text: "@ + uri + (
        match mime_type {
            Some(mime) => " ("@ + mime + ")"@,
            None => Seq::empty(),
        }) + "]\n"@ + text + "\n"@,
        ContentView::ResourceLink { name, uri } => "[resource: "@ + name + " ("@ + uri + ")]\n"@,
    }
}

/// The path of the binary block with a number.
pub open spec fn artifact_path(block: ContentView, number: nat, directory: Seq<char>) -> Seq<char> {
    match binary_of(block) {
        Some(binary) => directory + "/"@ + artifact_name(binary, number),
        None => Seq::empty(),
    }
}

/// The lines that show all blocks.
pub open spec fn content_lines(
    content: Seq<ContentView>,
    directory: Seq<char>,
    inline: bool,
) -> Seq<char>
    decreases content.len(),
{
    if content.len() == 0 {
        Seq::empty()
    } else {
        content_lines(content.drop_last(), directory, inline) + block_lines(
            content.last(),
            artifact_path(content.last(), binary_count(content), directory),
            inline,
        )
    }
}

/// The lines that show the blocks that are not binary.
pub open spec fn plain_lines(content: Seq<ContentView>) -> Seq<char>
    decreases content.len(),
{
    if content.len() == 0 {
        Seq::empty()
    } else if binary_of(content.last()) is Some {
        plain_lines(content.drop_last())
    } else {
        plain_lines(content.drop_last()) + block_lines(content.last(), Seq::empty(), false)
    }
}

// ---------------------------------------------------------------------------------------------
// Rendering

/// What goes to standard output.
#[derive(Debug)]
pub enum Payload {
    Text(String),
    Bytes(Vec<u8>),
}

/// What goes to standard output, as mathematics.
pub enum PayloadView {
    Text(Seq<char>),
    Bytes(Seq<u8>),
}

impl View for Payload {
    type V = PayloadView;

    open spec fn view(&self) -> PayloadView {
        match self {
            Payload::Text(text) => PayloadView::Text(text@),
            Payload::Bytes(bytes) => PayloadView::Bytes(bytes@),
        }
    }
}

/// Everything that a successful invocation writes.
#[derive(Debug)]
pub struct Rendering {
    /// Files to be written into the invocation's directory, which is only made for them.
    pub files: Vec<Artifact>,
    /// Payload for standard output.
    pub stdout: Payload,
    /// Text for standard error.
    pub stderr: String,
}

/// What an invocation writes, as mathematics.
pub struct RenderingView {
    pub files: Seq<ArtifactView>,
    pub stdout: PayloadView,
    pub stderr: Seq<char>,
}

impl View for Rendering {
    type V = RenderingView;

    open spec fn view(&self) -> RenderingView {
        RenderingView {
            files: artifact_views(self.files@),
            stdout: self.stdout@,
            stderr: self.stderr@,
        }
    }
}

/// What is said of output without structured content.
pub open spec fn not_structured() -> Seq<char> {
    "tool output has no structured content"@
}

/// What is said of output that does not have exactly one binary block.
pub open spec fn not_single(count: nat) -> Seq<char> {
    "binary output requires exactly one binary content block, found "@ + decimal(count)
}

/// What is said of binary blocks that do not hold base64.
pub open spec fn not_base64() -> Seq<char> {
    "binary content is not valid base64"@
}

/// A rendering that only writes text to standard output.
pub open spec fn only_text(text: Seq<char>) -> RenderingView {
    RenderingView { files: Seq::empty(), stdout: PayloadView::Text(text), stderr: Seq::empty() }
}

/// What a result's representation writes, or why there is none.
pub open spec fn rendered(
    result: CallResultView,
    mode: OutputMode,
    inline: bool,
    directory: Seq<char>,
) -> Result<RenderingView, Seq<char>> {
    match mode {
        OutputMode::Structured => match result.structured {
            Some(value) => Ok(only_text(compact_json(settled(value)) + "\n"@)),
            None => Err(not_structured()),
        },
        OutputMode::Raw => Ok(only_text(compact_json(settled(result_json(result))) + "\n"@)),
        OutputMode::Binary => if binary_count(result.content) != 1 {
            Err(not_single(binary_count(result.content)))
        } else {
            match artifacts(result.content) {
                Some(files) => Ok(
                    RenderingView {
                        files: Seq::empty(),
                        stdout: PayloadView::Bytes(files[0].bytes),
                        stderr: plain_lines(result.content),
                    },
                ),
                None => Err(not_base64()),
            }
        },
        OutputMode::Artifacts => match artifacts(result.content) {
            Some(files) => Ok(
                RenderingView {
                    files,
                    stdout: PayloadView::Text(
                        content_lines(result.content, directory, inline) + (
                        match result.structured {
                            Some(value) => pretty_json(settled(value)) + "\n"@,
                            None => Seq::empty(),
                        }),
                    ),
                    stderr: Seq::empty(),
                },
            ),
            None => Err(not_base64()),
        },
    }
}

/// Whether images are shown inline.
pub open spec fn shows_inline(images: ImageMode, terminal: bool) -> bool {
    match images {
        ImageMode::Auto => terminal,
        ImageMode::Kitty => true,
        ImageMode::Off => false,
    }
}

/// What a handler's outcome writes: its output as the settings ask for it, or a failure.
pub open spec fn presented(
    outcome: Result<OutputView, Seq<char>>,
    options: OptionsView,
    terminal: bool,
    directory: Seq<char>,
) -> Result<RenderingView, CliErrorView> {
    match outcome {
        Err(message) => Err(runtime_failure(message)),
        Ok(output) => match rendered(
            as_result(output, false),
            options.mode,
            shows_inline(options.images, terminal),
            directory,
        ) {
            Ok(rendering) => Ok(rendering),
            Err(message) => Err(runtime_failure(message)),
        },
    }
}

// ---------------------------------------------------------------------------------------------
// Execution

/// Returns the file extension of a media type.
fn extension_text(mime_type: Option<&str>) -> (r: String)
    ensures
        r@ == extension(
            match mime_type {
                Some(mime) => Some(mime@),
                None => None,
            },
        ),
{
    let mime = match mime_type {
        Some(mime) => mime,
        None => {
            return "bin".to_owned();
        },
    };
    let chars = char_vec(mime);
    let mut i: usize = 0;
    assert(mime@.skip(0) =~= mime@);
    while i < chars.len() && chars[i] != '/'
        invariant
            chars@ == mime@,
            i <= chars.len(),
            behind_slash(mime@.skip(i as int)) == behind_slash(mime@),
        decreases chars.len() - i,
    {
        assert(mime@.skip(i as int).skip(1) =~= mime@.skip(i + 1));
        i += 1;
    }
    if i < chars.len() {
        assert(mime@.skip(i as int).skip(1) =~= mime@.skip(i + 1));
        i += 1;
    }
    let ghost subtype = behind_slash(mime@);
    assert(subtype =~= mime@.skip(i as int));
    let mut out = String::new();
    assert(out@ + front_word(subtype) =~= front_word(subtype));
    while i < chars.len() && (('a' <= chars[i] && chars[i] <= 'z') || ('A' <= chars[i] && chars[i]
        <= 'Z') || ('0' <= chars[i] && chars[i] <= '9'))
        invariant
            chars@ == mime@,
            i <= chars.len(),
            out@ + front_word(mime@.skip(i as int)) == front_word(subtype),
        decreases chars.len() - i,
    {
        let ghost before = out@;
        push_char(&mut out, chars[i]);
        proof {
            let rest = mime@.skip(i as int);
            assert(rest.skip(1) =~= mime@.skip(i + 1));
            assert(out@ + front_word(mime@.skip(i + 1)) =~= before + front_word(rest));
        }
        i += 1;
    }
    assert(front_word(mime@.skip(i as int)) =~= Seq::empty());
    assert(out@ =~= front_word(subtype));
    if out.as_str().is_empty() {
        "bin".to_owned()
    } else {
        out
    }
}

/// The parts of a binary block as mathematics.
spec fn parts_view(parts: (&str, &str, Option<&str>)) -> BinaryView {
    BinaryView {
        kind: parts.0@,
        data: parts.1@,
        mime_type: match parts.2 {
            Some(mime) => Some(mime@),
            None => None,
        },
    }
}

/// Returns what a binary block is called, its data and its media type.
fn binary_parts(block: &Content) -> (r: Option<(&str, &str, Option<&str>)>)
    ensures
        match r {
            Some(parts) => binary_of(block@) == Some(parts_view(parts)),
            None => binary_of(block@) is None,
        },
{
    match block {
        Content::Image { data, mime_type } => Some(
            ("image", data.as_str(), Some(mime_type.as_str())),
        ),
        Content::Audio { data, mime_type } => Some(
            ("audio", data.as_str(), Some(mime_type.as_str())),
        ),
        Content::EmbeddedBlob { mime_type, blob, .. } => {
            let mime: Option<&str> = match mime_type {
                Some(mime) => Some(mime.as_str()),
                None => None,
            };
            Some(("blob", blob.as_str(), mime))
        },
        _ => None,
    }
}

/// Returns the file name of a binary block.
fn name_artifact(parts: (&str, &str, Option<&str>), number: usize) -> (r: String)
    ensures
        r@ == artifact_name(parts_view(parts), number as nat),
{
    let mut out = parts.0.to_owned();
    out.append("-");
    out.append(decimal_text(number).as_str());
    out.append(".");
    out.append(extension_text(parts.2).as_str());
    out
}

/// Counts binary blocks.
fn count_binary(content: &Vec<Content>) -> (r: usize)
    ensures
        r == binary_count(content_views(content@)),
        r <= content.len(),
{
    let ghost views = content_views(content@);
    let mut count: usize = 0;
    let mut i: usize = 0;
    while i < content.len()
        invariant
            i <= content.len(),
            views == content_views(content@),
            count == binary_count(views.take(i as int)),
            count <= i,
        decreases content.len() - i,
    {
        proof {
            assert(views.take(i + 1).drop_last() =~= views.take(i as int));
            assert(views.take(i + 1).last() == content@[i as int]@);
        }
        if binary_parts(&content[i]).is_some() {
            count += 1;
        }
        i += 1;
    }
    assert(views.take(i as int) =~= views);
    count
}

/// Content that starts with content that has no files has none.
proof fn artifacts_of_prefix(content: Seq<ContentView>, n: int)
    requires
        0 <= n <= content.len(),
        artifacts(content.take(n)) is None,
    ensures
        artifacts(content) is None,
    decreases content.len(),
{
    if n < content.len() {
        assert(content.drop_last().take(n) =~= content.take(n));
        artifacts_of_prefix(content.drop_last(), n);
    } else {
        assert(content.take(n) =~= content);
    }
}

/// Decodes binary blocks.
fn decode_artifacts(content: &Vec<Content>) -> (r: Option<Vec<Artifact>>)
    ensures
        match r {
            Some(files) => artifacts(content_views(content@)) == Some(artifact_views(files@)),
            None => artifacts(content_views(content@)) is None,
        },
{
    let ghost views = content_views(content@);
    let mut files: Vec<Artifact> = Vec::new();
    let mut i: usize = 0;
    assert(artifact_views(files@) =~= Seq::empty());
    while i < content.len()
        invariant
            i <= content.len(),
            views == content_views(content@),
            artifacts(views.take(i as int)) == Some(artifact_views(files@)),
            files.len() == binary_count(views.take(i as int)),
            files.len() <= i,
        decreases content.len() - i,
    {
        proof {
            assert(views.take(i + 1).drop_last() =~= views.take(i as int));
            assert(views.take(i + 1).last() == content@[i as int]@);
        }
        if let Some(parts) = binary_parts(&content[i]) {
            match decode(parts.1) {
                Some(bytes) => {
                    let ghost before = artifact_views(files@);
                    let name = name_artifact(parts, files.len() + 1);
                    files.push(Artifact { name, bytes });
                    assert(artifact_views(files@) =~= before.push(files@.last()@));
                },
                None => {
                    proof {
                        artifacts_of_prefix(views, i + 1);
                    }
                    return None;
                },
            }
        }
        i += 1;
    }
    assert(views.take(i as int) =~= views);
    Some(files)
}

/// Writes the terminal graphics commands for PNG data in base64.
fn write_kitty(out: &mut String, data: &str)
    ensures
        final(out)@ == old(out)@ + kitty_image(data@, true),
{
    let ghost start = out@;
    let chars = char_vec(data);
    let mut i: usize = 0;
    let mut first: bool = true;
    assert(data@.skip(0) =~= data@);
    while chars.len() - i > KITTY_CHUNK
        invariant
            chars@ == data@,
            i <= chars.len(),
            out@ + kitty_image(data@.skip(i as int), first) == start + kitty_image(data@, true),
        decreases chars.len() - i,
    {
        let ghost before = out@;
        let ghost rest = data@.skip(i as int);
        if first {
            out.append("\u{1b}_Ga=T,f=100,m=");
        } else {
            out.append("\u{1b}_Gm=");
        }
        out.append("1;");
        let ghost headed = out@;
        let mut k: usize = 0;
        while k < KITTY_CHUNK
            invariant
                chars@ == data@,
                rest == data@.skip(i as int),
                k <= KITTY_CHUNK,
                i + KITTY_CHUNK < chars.len(),
                out@ == headed + rest.take(k as int),
            decreases KITTY_CHUNK - k,
        {
            push_char(out, chars[i + k]);
            assert(out@ =~= headed + rest.take(k + 1));
            k += 1;
        }
        out.append("\u{1b}\\");
        proof {
            assert(rest.skip(KITTY_CHUNK as int) =~= data@.skip(i + KITTY_CHUNK));
            assert(out@ + kitty_image(data@.skip(i + KITTY_CHUNK), false) =~= before + kitty_image(
                rest,
                first,
            ));
        }
        i += KITTY_CHUNK;
        first = false;
    }
    let ghost before = out@;
    let ghost rest = data@.skip(i as int);
    if first {
        out.append("\u{1b}_Ga=T,f=100,m=");
    } else {
        out.append("\u{1b}_Gm=");
    }
    out.append("0;");
    let ghost headed = out@;
    let ghost from = i as int;
    while i < chars.len()
        invariant
            chars@ == data@,
            0 <= from <= i <= chars.len(),
            rest == data@.skip(from),
            out@ == headed + rest.take(i - from),
        decreases chars.len() - i,
    {
        push_char(out, chars[i]);
        assert(out@ =~= headed + rest.take(i + 1 - from));
        i += 1;
    }
    assert(rest.take(i - from) =~= rest);
    out.append("\u{1b}\\");
    assert(out@ =~= before + kitty_image(rest, first));
}

/// Writes the lines that show a block.
fn write_block(out: &mut String, block: &Content, path: &str, inline: bool)
    ensures
        final(out)@ == old(out)@ + block_lines(block@, path@, inline),
{
    let ghost start = out@;
    match block {
        Content::Text { text } => {
            out.append(text.as_str());
            out.append("\n");
        },
        Content::Image { data, mime_type } => {
            if inline && same_text(mime_type.as_str(), "image/png") {
                write_kitty(out, data.as_str());
                out.append("\n");
            }
            out.append("[image: ");
            out.append(path);
            out.append("]\n");
        },
        Content::Audio { .. } => {
            out.append("[audio: ");
            out.append(path);
            out.append("]\n");
        },
        Content::EmbeddedBlob { uri, .. } => {
            out.append("[embedded blob: ");
            out.append(uri.as_str());
            out.append(" -> ");
            out.append(path);
            out.append("]\n");
        },
        Content::EmbeddedText { uri, mime_type, text } => {
            out.append("[embedded text: ");
            out.append(uri.as_str());
            if let Some(mime) = mime_type {
                out.append(" (");
                out.append(mime.as_str());
                out.append(")");
            }
            out.append("]\n");
            out.append(text.as_str());
            out.append("\n");
        },
        Content::ResourceLink { name, uri } => {
            out.append("[resource: ");
            out.append(name.as_str());
            out.append(" (");
            out.append(uri.as_str());
            out.append(")]\n");
        },
    }
    assert(out@ =~= start + block_lines(block@, path@, inline));
}

/// Returns the lines that show all blocks.
fn write_content(content: &Vec<Content>, directory: &str, inline: bool) -> (r: String)
    ensures
        r@ == content_lines(content_views(content@), directory@, inline),
{
    let ghost views = content_views(content@);
    let mut out = String::new();
    let mut number: usize = 0;
    let mut i: usize = 0;
    while i < content.len()
        invariant
            i <= content.len(),
            views == content_views(content@),
            number == binary_count(views.take(i as int)),
            number <= i,
            out@ == content_lines(views.take(i as int), directory@, inline),
        decreases content.len() - i,
    {
        proof {
            assert(views.take(i + 1).drop_last() =~= views.take(i as int));
            assert(views.take(i + 1).last() == content@[i as int]@);
        }
        let path: String = match binary_parts(&content[i]) {
            Some(parts) => {
                number += 1;
                let mut path = directory.to_owned();
                path.append("/");
                path.append(name_artifact(parts, number).as_str());
                path
            },
            None => String::new(),
        };
        assert(path@ =~= artifact_path(content@[i as int]@, number as nat, directory@));
        write_block(&mut out, &content[i], path.as_str(), inline);
        i += 1;
    }
    assert(views.take(i as int) =~= views);
    out
}

/// Returns the lines that show the blocks that are not binary.
fn write_plain(content: &Vec<Content>) -> (r: String)
    ensures
        r@ == plain_lines(content_views(content@)),
{
    let ghost views = content_views(content@);
    let mut out = String::new();
    let mut i: usize = 0;
    while i < content.len()
        invariant
            i <= content.len(),
            views == content_views(content@),
            out@ == plain_lines(views.take(i as int)),
        decreases content.len() - i,
    {
        proof {
            assert(views.take(i + 1).drop_last() =~= views.take(i as int));
            assert(views.take(i + 1).last() == content@[i as int]@);
            reveal_strlit("");
            assert(""@ =~= Seq::empty());
        }
        if binary_parts(&content[i]).is_none() {
            write_block(&mut out, &content[i], "", false);
        }
        i += 1;
    }
    assert(views.take(i as int) =~= views);
    out
}

/// Makes a rendering that only writes text to standard output.
fn text_rendering(text: String) -> (r: Rendering)
    ensures
        r@ == only_text(text@),
{
    let r = Rendering { files: Vec::new(), stdout: Payload::Text(text), stderr: String::new() };
    assert(r@.files =~= Seq::empty());
    assert(r@.stderr =~= Seq::empty());
    r
}

/// Renders a result.
fn render(result: &CallToolResult, mode: OutputMode, inline: bool, directory: &str) -> (r: Result<
    Rendering,
    String,
>)
    requires
        result_sound(result@),
    ensures
        match r {
            Ok(rendering) => rendered(result@, mode, inline, directory@) == Ok::<
                RenderingView,
                Seq<char>,
            >(rendering@),
            Err(message) => rendered(result@, mode, inline, directory@) == Err::<
                RenderingView,
                Seq<char>,
            >(message@),
        },
{
    match mode {
        OutputMode::Structured => match &result.structured_content {
            Some(value) => {
                let mut out = value.to_text();
                out.append("\n");
                Ok(text_rendering(out))
            },
            None => Err("tool output has no structured content".to_owned()),
        },
        OutputMode::Raw => {
            let mut out = result.to_json().to_text();
            out.append("\n");
            Ok(text_rendering(out))
        },
        OutputMode::Binary => {
            let count = count_binary(&result.content);
            if count != 1 {
                let mut message =
                    "binary output requires exactly one binary content block, found ".to_owned();
                message.append(decimal_text(count).as_str());
                return Err(message);
            }
            proof {
                artifacts_count(result@.content);
            }
            match decode_artifacts(&result.content) {
                Some(files) => {
                    let mut files = files;
                    let ghost views = artifact_views(files@);
                    let file = files.remove(0);
                    assert(file@ == views[0]);
                    let r = Rendering {
                        files: Vec::new(),
                        stdout: Payload::Bytes(file.bytes),
                        stderr: write_plain(&result.content),
                    };
                    assert(r@.files =~= Seq::empty());
                    Ok(r)
                },
                None => Err("binary content is not valid base64".to_owned()),
            }
        },
        OutputMode::Artifacts => match decode_artifacts(&result.content) {
            Some(files) => {
                let mut out = write_content(&result.content, directory, inline);
                let ghost before = out@;
                if let Some(value) = &result.structured_content {
                    out.append(value.to_pretty_text().as_str());
                    out.append("\n");
                }
                assert(out@ =~= before + (match result@.structured {
                    Some(value) => pretty_json(settled(value)) + "\n"@,
                    None => Seq::empty(),
                }));
                let r = Rendering { files, stdout: Payload::Text(out), stderr: String::new() };
                assert(r@.stderr =~= Seq::empty());
                Ok(r)
            },
            None => Err("binary content is not valid base64".to_owned()),
        },
    }
}

/// What a handler returned, as mathematics.
pub open spec fn outcome_view<T: IntoToolOutput, E: IntoText>(outcome: Result<T, E>) -> Result<
    OutputView,
    Seq<char>,
> {
    match outcome {
        Ok(value) => Ok(value.as_output()),
        Err(error) => Err(error.as_text()),
    }
}

/// Presents what a handler returned.
///
/// The directory is the path that artifacts are shown under. Terminal says whether the process
/// writes to a terminal that shows images.
pub fn present<T: IntoToolOutput, E: IntoText>(
    outcome: Result<T, E>,
    options: &OutputOptions,
    terminal: bool,
    directory: &str,
) -> (r: Result<Rendering, CliError>)
    ensures
        match r {
            Ok(rendering) => presented(
                outcome_view(outcome),
                options@,
                terminal,
                directory@,
            ) == Ok::<RenderingView, CliErrorView>(rendering@),
            Err(error) => presented(outcome_view(outcome), options@, terminal, directory@) == Err::<
                RenderingView,
                CliErrorView,
            >(error@),
        },
{
    match outcome {
        Err(error) => Err(CliError::runtime(error.into_text().as_str())),
        Ok(value) => {
            let inline: bool = match options.images {
                ImageMode::Auto => terminal,
                ImageMode::Kitty => true,
                ImageMode::Off => false,
            };
            let result = value.into_tool_output().into_call_result(false);
            match render(&result, options.mode, inline, directory) {
                Ok(rendering) => Ok(rendering),
                Err(message) => Err(CliError::runtime(message.as_str())),
            }
        },
    }
}

// ---------------------------------------------------------------------------------------------
// Laws

/// A failed invocation writes nothing: a handler's failure is reported as it is, whatever the
/// settings ask for.
pub proof fn handler_failures_write_nothing(
    message: Seq<char>,
    options: OptionsView,
    terminal: bool,
    directory: Seq<char>,
)
    ensures
        presented(Err(message), options, terminal, directory) == Err::<RenderingView, CliErrorView>(
            runtime_failure(message),
        ),
{
}

/// Content without binary blocks makes no files.
pub proof fn text_makes_no_files(content: Seq<ContentView>)
    requires
        forall|i: int| 0 <= i < content.len() ==> binary_of(#[trigger] content[i]) is None,
    ensures
        artifacts(content) == Some(Seq::<ArtifactView>::empty()),
        binary_count(content) == 0,
    decreases content.len(),
{
    if content.len() > 0 {
        let rest = content.drop_last();
        assert forall|i: int| 0 <= i < rest.len() implies binary_of(#[trigger] rest[i]) is None by {
            assert(rest[i] == content[i]);
        }
        text_makes_no_files(rest);
    }
}

/// The files of content whose blocks from some place on are not binary are those of the content
/// before that place.
proof fn plain_tail(content: Seq<ContentView>, n: int)
    requires
        0 <= n <= content.len(),
        forall|i: int| n <= i < content.len() ==> binary_of(#[trigger] content[i]) is None,
    ensures
        artifacts(content) == artifacts(content.take(n)),
        binary_count(content) == binary_count(content.take(n)),
    decreases content.len(),
{
    if n < content.len() {
        let rest = content.drop_last();
        assert forall|i: int| n <= i < rest.len() implies binary_of(#[trigger] rest[i]) is None by {
            assert(rest[i] == content[i]);
        }
        plain_tail(rest, n);
        assert(rest.take(n) =~= content.take(n));
    } else {
        assert(content.take(n) =~= content);
    }
}

/// Binary output writes the bytes that the one binary block was made of, without framing, and
/// what stands around it goes to standard error.
pub proof fn binary_writes_the_bytes(
    result: CallResultView,
    k: int,
    bytes: Seq<u8>,
    inline: bool,
    directory: Seq<char>,
)
    requires
        0 <= k < result.content.len(),
        binary_of(result.content[k]) matches Some(binary) && binary.data == encoded(bytes),
        forall|i: int|
            0 <= i < result.content.len() && i != k ==> binary_of(
                #[trigger] result.content[i],
            ) is None,
    ensures
        rendered(result, OutputMode::Binary, inline, directory) == Ok::<RenderingView, Seq<char>>(
            RenderingView {
                files: Seq::empty(),
                stdout: PayloadView::Bytes(bytes),
                stderr: plain_lines(result.content),
            },
        ),
{
    let content = result.content;
    let upto = content.take(k + 1);
    let before = content.take(k);
    encoded_is_decoded(bytes);
    plain_tail(content, k + 1);
    assert forall|i: int| 0 <= i < before.len() implies binary_of(#[trigger] before[i]) is None by {
        assert(before[i] == content[i]);
    }
    text_makes_no_files(before);
    assert(upto.drop_last() =~= before);
    assert(upto.last() == content[k]);
}

/// A decimal numeral holds digits only, and is not empty.
proof fn decimal_digits(n: nat)
    ensures
        decimal(n).len() > 0,
        forall|i: int| 0 <= i < decimal(n).len() ==> '0' <= #[trigger] decimal(n)[i] <= '9',
    decreases n,
{
    if n >= 10 {
        decimal_digits(n / 10);
    }
}

/// Different numbers have different numerals.
proof fn decimal_injective(a: nat, b: nat)
    requires
        decimal(a) == decimal(b),
    ensures
        a == b,
    decreases a,
{
    assert(decimal(a).last() == digit_char(a as int % 10));
    assert(decimal(b).last() == digit_char(b as int % 10));
    if a >= 10 {
        decimal_digits(a / 10);
    }
    if b >= 10 {
        decimal_digits(b / 10);
    }
    if a >= 10 && b >= 10 {
        assert(decimal(a).drop_last() =~= decimal(a / 10));
        assert(decimal(b).drop_last() =~= decimal(b / 10));
        decimal_injective(a / 10, b / 10);
    }
}

/// What the names of files are made of.
proof fn names_differ(first: BinaryView, a: nat, second: BinaryView, b: nat)
    requires
        exists|block: ContentView| binary_of(block) == Some(first),
        exists|block: ContentView| binary_of(block) == Some(second),
        a != b,
    ensures
        artifact_name(first, a) != artifact_name(second, b),
{
    reveal_strlit("image");
    reveal_strlit("audio");
    reveal_strlit("blob");
    reveal_strlit("-");
    reveal_strlit(".");
    if artifact_name(first, a) == artifact_name(second, b) {
        let name = artifact_name(first, a);
        decimal_digits(a);
        decimal_digits(b);
        assert(name[0] == first.kind[0]);
        assert(name[0] == second.kind[0]);
        assert(first.kind == second.kind);
        let start = first.kind.len() + 1;
        let rest = name.skip(start as int);
        let one = decimal(a);
        let two = decimal(b);
        assert(rest =~= one + "."@ + extension(first.mime_type));
        assert(rest =~= two + "."@ + extension(second.mime_type));
        assert(rest[one.len() as int] == '.');
        assert(rest[two.len() as int] == '.');
        if one.len() < two.len() {
            assert(rest[one.len() as int] == two[one.len() as int]);
        }
        if two.len() < one.len() {
            assert(rest[two.len() as int] == one[two.len() as int]);
        }
        assert(one =~= rest.take(one.len() as int));
        assert(two =~= rest.take(two.len() as int));
        decimal_injective(a, b);
    }
}

/// The file of a binary block is numbered by its place among the binary blocks.
proof fn artifact_at(content: Seq<ContentView>, i: int) -> (binary: BinaryView)
    requires
        artifacts(content) matches Some(files) && 0 <= i < files.len(),
    ensures
        exists|block: ContentView| binary_of(block) == Some(binary),
        artifacts(content)->0[i].name == artifact_name(binary, (i + 1) as nat),
    decreases content.len(),
{
    artifacts_count(content);
    artifacts_count(content.drop_last());
    let files = artifacts(content)->0;
    if binary_of(content.last()) is Some && i == files.len() - 1 {
        binary_of(content.last())->0
    } else {
        artifact_at(content.drop_last(), i)
    }
}

/// No two files of an invocation have the same name.
pub proof fn artifact_names_are_distinct(content: Seq<ContentView>)
    ensures
        artifacts(content) matches Some(files) ==> forall|i: int, j: int|
            0 <= i < j < files.len() ==> (#[trigger] files[i]).name != (#[trigger] files[j]).name,
{
    if let Some(files) = artifacts(content) {
        assert forall|i: int, j: int| 0 <= i < j < files.len() implies (
        #[trigger] files[i]).name != (#[trigger] files[j]).name by {
            let first = artifact_at(content, i);
            let second = artifact_at(content, j);
            names_differ(first, (i + 1) as nat, second, (j + 1) as nat);
        }
    }
}

} // verus!
