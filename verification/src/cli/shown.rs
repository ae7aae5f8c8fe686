//! What an invocation shows of its output, and how that fits the files that it writes.

use vstd::prelude::*;

use crate::base64::decoded;
use crate::cli::options::{ImageMode, OptionsView, OutputMode};
use crate::cli::problem::runtime_failure;
use crate::cli::render::{
    artifact_path, artifacts, artifacts_count, behind_slash, binary_count, binary_of, block_lines,
    content_lines, extension, extension_char, front_word, kitty_image, plain_lines, presented,
    rendered, PayloadView, KITTY_CHUNK,
};
use crate::json::{pretty_json, settled};
use crate::text::decimal;
use crate::tools::{as_result, CallResultView, ContentView, OutputView};

verus! {

// ---------------------------------------------------------------------------------------------
// Blocks and files

/// Whether a block holds base64 data.
pub open spec fn is_binary(block: ContentView) -> bool {
    block is Image || block is Audio || block is EmbeddedBlob
}

/// How many blocks hold base64 data.
pub open spec fn binaries(content: Seq<ContentView>) -> nat
    decreases content.len(),
{
    if content.len() == 0 {
        0
    } else {
        binaries(content.drop_last()) + (if is_binary(content.last()) {
            1nat
        } else {
            0nat
        })
    }
}

/// The base64 data of a block, what the block is, and its media type.
pub open spec fn holds(
    block: ContentView,
    data: Seq<char>,
    kind: Seq<char>,
    mime: Option<Seq<char>>,
) -> bool {
    match block {
        ContentView::Image { data: own, mime_type } => data == own && kind == "image"@ && mime
            == Some(mime_type),
        ContentView::Audio { data: own, mime_type } => data == own && kind == "audio"@ && mime
            == Some(mime_type),
        ContentView::EmbeddedBlob { mime_type, blob, .. } => data == blob && kind == "blob"@ && mime
            == mime_type,
        _ => false,
    }
}

/// Texts without anything between them.
pub open spec fn run_together(pieces: Seq<Seq<char>>) -> Seq<char>
    decreases pieces.len(),
{
    if pieces.len() == 0 {
        Seq::empty()
    } else {
        run_together(pieces.drop_last()) + pieces.last()
    }
}

/// The two counts of binary blocks agree.
proof fn counts_agree(content: Seq<ContentView>)
    ensures
        binaries(content) == binary_count(content),
    decreases content.len(),
{
    if content.len() > 0 {
        counts_agree(content.drop_last());
    }
}

/// A binary block is not counted before it.
proof fn counted_before(content: Seq<ContentView>, i: int)
    requires
        0 <= i < content.len(),
    ensures
        binaries(content.take(i)) <= binaries(content),
        is_binary(content[i]) ==> binaries(content.take(i)) < binaries(content),
    decreases content.len(),
{
    let rest = content.drop_last();
    if i < rest.len() {
        counted_before(rest, i);
        assert(rest.take(i) =~= content.take(i));
    } else {
        assert(content.take(i) =~= rest);
    }
}

/// Every block that holds base64 data becomes a file, and nothing else does. The file at a place
/// in the list belongs to the block with as many binary blocks before it; it holds the decoded
/// data, and its name tells what the block is, its number, and the subtype of its media.
pub proof fn files_hold_the_blocks(
    content: Seq<ContentView>,
    i: int,
    data: Seq<char>,
    kind: Seq<char>,
    mime: Option<Seq<char>>,
)
    requires
        artifacts(content) is Some,
        0 <= i < content.len(),
        holds(content[i], data, kind, mime),
    ensures
        artifacts(content)->0.len() == binaries(content),
        binaries(content.take(i)) < binaries(content),
        decoded(data) == Some(artifacts(content)->0[binaries(content.take(i)) as int].bytes),
        artifacts(content)->0[binaries(content.take(i)) as int].name == kind + "-"@ + decimal(
            binaries(content.take(i)) + 1,
        ) + "."@ + extension(mime),
    decreases content.len(),
{
    counts_agree(content);
    artifacts_count(content);
    counted_before(content, i);
    let rest = content.drop_last();
    counts_agree(rest);
    artifacts_count(rest);
    if i < rest.len() {
        files_hold_the_blocks(rest, i, data, kind, mime);
        assert(rest.take(i) =~= content.take(i));
    } else {
        assert(content.take(i) =~= rest);
    }
}

/// Output with binary data is written exactly if all of it is base64.
pub proof fn files_need_base64(content: Seq<ContentView>)
    ensures
        artifacts(content) is Some <==> forall|
            i: int,
            data: Seq<char>,
            kind: Seq<char>,
            mime: Option<Seq<char>>,
        |
            0 <= i < content.len() && #[trigger] holds(content[i], data, kind, mime) ==> decoded(
                data,
            ) is Some,
    decreases content.len(),
{
    if artifacts(content) is Some {
        assert forall|i: int, data: Seq<char>, kind: Seq<char>, mime: Option<Seq<char>>|
            0 <= i < content.len() && #[trigger] holds(
                content[i],
                data,
                kind,
                mime,
            ) implies decoded(data) is Some by {
            files_hold_the_blocks(content, i, data, kind, mime);
        }
    } else {
        let rest = content.drop_last();
        files_need_base64(rest);
        if artifacts(rest) is None {
            let (i, data, kind, mime) = choose|
                i: int,
                data: Seq<char>,
                kind: Seq<char>,
                mime: Option<Seq<char>>,
            |
                0 <= i < rest.len() && #[trigger] holds(rest[i], data, kind, mime) && decoded(
                    data,
                ) is None;
            assert(rest[i] == content[i]);
            assert(holds(content[i], data, kind, mime));
        } else {
            let binary = binary_of(content.last())->0;
            assert(holds(content[content.len() - 1], binary.data, binary.kind, binary.mime_type));
        }
    }
}

/// The extension of a file is the word at the front of the media subtype.
pub proof fn extensions_name_the_subtype(
    major: Seq<char>,
    word: Seq<char>,
    rest: Seq<char>,
)
    requires
        !major.contains('/'),
        word.len() > 0,
        forall|i: int|
            0 <= i < word.len() ==> 'a' <= #[trigger] word[i] <= 'z' || 'A' <= word[i] <= 'Z' || '0'
                <= word[i] <= '9',
        rest.len() > 0 ==> !('a' <= rest[0] <= 'z' || 'A' <= rest[0] <= 'Z' || '0' <= rest[0]
            <= '9'),
    ensures
        extension(Some(major + "/"@ + word + rest)) == word,
        extension(None) == "bin"@,
{
    reveal_strlit("/");
    slash_is_found(major, word + rest);
    assert(major + "/"@ + word + rest =~= major.push('/') + (word + rest));
    word_is_found(word, rest);
}

/// A media type whose subtype does not begin with a letter or a digit, or that has none, gets the
/// extension of plain binary data.
pub proof fn strange_media_are_plain_data(major: Seq<char>, rest: Seq<char>)
    requires
        !major.contains('/'),
        rest.len() > 0 ==> !('a' <= rest[0] <= 'z' || 'A' <= rest[0] <= 'Z' || '0' <= rest[0]
            <= '9'),
    ensures
        extension(Some(major)) == "bin"@,
        extension(Some(major.push('/') + rest)) == "bin"@,
{
    slash_is_found(major, rest);
    no_slash_is_found(major);
}

proof fn slash_is_found(major: Seq<char>, rest: Seq<char>)
    requires
        !major.contains('/'),
    ensures
        behind_slash(major.push('/') + rest) == rest,
    decreases major.len(),
{
    let text = major.push('/') + rest;
    if major.len() == 0 {
        assert(text.skip(1) =~= rest);
    } else {
        assert(text[0] == major[0]);
        assert(major[0] != '/');
        let less = major.skip(1);
        assert(!less.contains('/')) by {
            if less.contains('/') {
                let k = choose|k: int| 0 <= k < less.len() && less[k] == '/';
                assert(major[k + 1] == '/');
            }
        }
        slash_is_found(less, rest);
        assert(text.skip(1) =~= less.push('/') + rest);
    }
}

proof fn no_slash_is_found(major: Seq<char>)
    requires
        !major.contains('/'),
    ensures
        behind_slash(major).len() == 0,
    decreases major.len(),
{
    if major.len() > 0 {
        assert(major[0] != '/');
        let less = major.skip(1);
        assert(!less.contains('/')) by {
            if less.contains('/') {
                let k = choose|k: int| 0 <= k < less.len() && less[k] == '/';
                assert(major[k + 1] == '/');
            }
        }
        no_slash_is_found(less);
    }
}

proof fn word_is_found(word: Seq<char>, rest: Seq<char>)
    requires
        forall|i: int| 0 <= i < word.len() ==> extension_char(#[trigger] word[i]),
        rest.len() > 0 ==> !extension_char(rest[0]),
    ensures
        front_word(word + rest) == word,
    decreases word.len(),
{
    let text = word + rest;
    if word.len() == 0 {
        assert(text =~= rest);
        assert(word =~= Seq::<char>::empty());
    } else {
        assert(text[0] == word[0]);
        let less = word.skip(1);
        assert forall|i: int| 0 <= i < less.len() implies extension_char(#[trigger] less[i]) by {
            assert(less[i] == word[i + 1]);
        }
        word_is_found(less, rest);
        assert(text.skip(1) =~= less + rest);
        assert(seq![word[0]] + less =~= word);
    }
}

// ---------------------------------------------------------------------------------------------
// Lines

/// Whether a piece of text shows a block that is not binary.
pub open spec fn tells(piece: Seq<char>, block: ContentView) -> bool {
    match block {
        ContentView::Text { text } => piece == text + "\n"@,
        ContentView::EmbeddedText { uri, mime_type: None, text } => piece == "[embedded text: "@
            + uri + "]\n"@ + text + "\n"@,
        ContentView::EmbeddedText { uri, mime_type: Some(mime), text } => piece
            == "[embedded text: "@ + uri + " ("@ + mime + ")]\n"@ + text + "\n"@,
        ContentView::ResourceLink { name, uri } => piece == "[resource: "@ + name + " ("@ + uri
            + ")]\n"@,
        _ => false,
    }
}

/// Whether a piece of text shows a binary block that a file at a path holds. Only a PNG image that is
/// shown inline has anything more than the line with the path: the image itself, before it.
pub open spec fn points(piece: Seq<char>, block: ContentView, path: Seq<char>, inline: bool) -> bool {
    match block {
        ContentView::Image { data, mime_type } => {
            let line = "[image: "@ + path + "]\n"@;
            if inline && mime_type == "image/png"@ {
                piece == kitty_image(data, true) + "\n"@ + line
            } else {
                piece == line
            }
        },
        ContentView::Audio { .. } => piece == "[audio: "@ + path + "]\n"@,
        ContentView::EmbeddedBlob { uri, .. } => piece == "[embedded blob: "@ + uri + " -> "@ + path
            + "]\n"@,
        _ => false,
    }
}

/// The lines of a block that is not binary.
proof fn lines_tell(block: ContentView, path: Seq<char>, inline: bool)
    requires
        !is_binary(block),
    ensures
        tells(block_lines(block, path, inline), block),
{
    reveal_strlit("]\n");
    reveal_strlit(")]\n");
    reveal_strlit(")");
    if let ContentView::EmbeddedText { uri, mime_type, text } = block {
        match mime_type {
            Some(mime) => {
                assert("[embedded text: "@ + uri + (" ("@ + mime + ")"@) + "]\n"@ + text + "\n"@
                    =~= "[embedded text: "@ + uri + " ("@ + mime + ")]\n"@ + text + "\n"@);
            },
            None => {
                assert("[embedded text: "@ + uri + Seq::<char>::empty() + "]\n"@ + text + "\n"@
                    =~= "[embedded text: "@ + uri + "]\n"@ + text + "\n"@);
            },
        }
    }
}

/// The lines of a binary block.
proof fn lines_point(block: ContentView, path: Seq<char>, inline: bool)
    requires
        is_binary(block),
    ensures
        points(block_lines(block, path, inline), block, path, inline),
{
    if let ContentView::Image { data, mime_type } = block {
        let line = "[image: "@ + path + "]\n"@;
        let piece = block_lines(block, path, inline);
        if inline && mime_type == "image/png"@ {
            assert(piece =~= kitty_image(data, true) + "\n"@ + line);
        } else {
            assert(piece =~= line);
        }
    }
}

/// The pieces that the lines of all blocks are made of.
proof fn line_pieces(content: Seq<ContentView>, directory: Seq<char>, inline: bool) -> (pieces: Seq<
    Seq<char>,
>)
    requires
        artifacts(content) is Some,
    ensures
        pieces.len() == content.len(),
        content_lines(content, directory, inline) == run_together(pieces),
        forall|i: int|
            0 <= i < content.len() ==> if is_binary(content[i]) {
                points(
                    #[trigger] pieces[i],
                    content[i],
                    directory + "/"@ + artifacts(content)->0[binaries(
                        content.take(i),
                    ) as int].name,
                    inline,
                )
            } else {
                tells(pieces[i], content[i])
            },
    decreases content.len(),
{
    if content.len() == 0 {
        Seq::empty()
    } else {
        let rest = content.drop_last();
        let before = line_pieces(rest, directory, inline);
        let block = content.last();
        let path = artifact_path(block, binary_count(content), directory);
        let piece = block_lines(block, path, inline);
        let pieces = before.push(piece);
        let files = artifacts(content)->0;
        counts_agree(content);
        counts_agree(rest);
        artifacts_count(rest);
        assert(pieces.drop_last() =~= before);
        assert forall|i: int| 0 <= i < content.len() implies if is_binary(content[i]) {
            points(
                #[trigger] pieces[i],
                content[i],
                directory + "/"@ + files[binaries(content.take(i)) as int].name,
                inline,
            )
        } else {
            tells(pieces[i], content[i])
        } by {
            if i < rest.len() {
                assert(rest.take(i) =~= content.take(i));
                counted_before(rest, i);
                assert(pieces[i] == before[i]);
                assert(rest[i] == content[i]);
            } else {
                assert(content.take(i) =~= rest);
                if is_binary(block) {
                    lines_point(block, path, inline);
                } else {
                    lines_tell(block, path, inline);
                }
            }
        }
        pieces
    }
}

/// Standard output shows every block in turn, and behind them the structured value. A binary block
/// is shown with the path of its own file: the name that the file with as many binary blocks
/// before it has in the list of files that are written.
pub proof fn shown_paths_are_the_files(
    result: CallResultView,
    inline: bool,
    directory: Seq<char>,
) -> (pieces: Seq<Seq<char>>)
    requires
        rendered(result, OutputMode::Artifacts, inline, directory) is Ok,
    ensures
        pieces.len() == result.content.len(),
        ({
            let rendering = rendered(result, OutputMode::Artifacts, inline, directory)->Ok_0;
            let shown = run_together(pieces) + match result.structured {
                Some(value) => pretty_json(settled(value)) + "\n"@,
                None => Seq::empty(),
            };
            &&& rendering.stdout == PayloadView::Text(shown)
            &&& rendering.stderr == Seq::<char>::empty()
            &&& rendering.files.len() == binaries(result.content)
            &&& forall|i: int|
                0 <= i < result.content.len() ==> if is_binary(result.content[i]) {
                    points(
                        #[trigger] pieces[i],
                        result.content[i],
                        directory + "/"@ + rendering.files[binaries(
                            result.content.take(i),
                        ) as int].name,
                        inline,
                    )
                } else {
                    tells(pieces[i], result.content[i])
                }
        }),
{
    counts_agree(result.content);
    artifacts_count(result.content);
    line_pieces(result.content, directory, inline)
}

/// The pieces of the lines that accompany binary output.
proof fn plain_pieces(content: Seq<ContentView>) -> (pieces: Seq<Seq<char>>)
    ensures
        pieces.len() == content.len(),
        plain_lines(content) == run_together(pieces),
        forall|i: int|
            0 <= i < content.len() ==> if is_binary(content[i]) {
                (#[trigger] pieces[i]) == Seq::<char>::empty()
            } else {
                tells(pieces[i], content[i])
            },
    decreases content.len(),
{
    if content.len() == 0 {
        Seq::empty()
    } else {
        let rest = content.drop_last();
        let before = plain_pieces(rest);
        let block = content.last();
        let piece = if is_binary(block) {
            Seq::empty()
        } else {
            block_lines(block, Seq::empty(), false)
        };
        let pieces = before.push(piece);
        assert(pieces.drop_last() =~= before);
        assert(run_together(pieces) == run_together(before) + piece);
        assert(run_together(before) + Seq::<char>::empty() =~= run_together(before));
        if !is_binary(block) {
            lines_tell(block, Seq::empty(), false);
        }
        assert forall|i: int| 0 <= i < content.len() implies if is_binary(content[i]) {
            (#[trigger] pieces[i]) == Seq::<char>::empty()
        } else {
            tells(pieces[i], content[i])
        } by {
            if i < rest.len() {
                assert(pieces[i] == before[i] && rest[i] == content[i]);
            }
        }
        pieces
    }
}

/// Beside binary output, standard error shows every block that is not binary, in turn.
pub proof fn binary_output_keeps_the_rest(
    result: CallResultView,
    inline: bool,
    directory: Seq<char>,
) -> (pieces: Seq<Seq<char>>)
    requires
        rendered(result, OutputMode::Binary, inline, directory) is Ok,
    ensures
        pieces.len() == result.content.len(),
        rendered(result, OutputMode::Binary, inline, directory)->Ok_0.stderr == run_together(
            pieces,
        ),
        rendered(result, OutputMode::Binary, inline, directory)->Ok_0.files.len() == 0,
        forall|i: int|
            0 <= i < result.content.len() ==> if is_binary(result.content[i]) {
                (#[trigger] pieces[i]) == Seq::<char>::empty()
            } else {
                tells(pieces[i], result.content[i])
            },
{
    plain_pieces(result.content)
}

/// Binary output succeeds exactly if there is one binary block and it is base64.
pub proof fn binary_output_needs_one_block(
    result: CallResultView,
    inline: bool,
    directory: Seq<char>,
)
    ensures
        rendered(result, OutputMode::Binary, inline, directory) is Ok <==> binaries(result.content)
            == 1 && artifacts(result.content) is Some,
        rendered(result, OutputMode::Artifacts, inline, directory) is Ok <==> artifacts(
            result.content,
        ) is Some,
        rendered(result, OutputMode::Structured, inline, directory) is Ok <==> result.structured
            is Some,
        rendered(result, OutputMode::Raw, inline, directory) is Ok,
        rendered(result, OutputMode::Structured, inline, directory) matches Err(message) ==> message
            == "tool output has no structured content"@,
        rendered(result, OutputMode::Artifacts, inline, directory) matches Err(message) ==> message
            == "binary content is not valid base64"@,
        rendered(result, OutputMode::Binary, inline, directory) matches Err(message) ==> message == (
        if binaries(result.content) == 1 {
            "binary content is not valid base64"@
        } else {
            "binary output requires exactly one binary content block, found "@ + decimal(
                binaries(result.content),
            )
        }),
{
    counts_agree(result.content);
}

/// What is written as JSON depends neither on where files would go nor on how images are shown,
/// and makes no files.
pub proof fn json_output_makes_no_files(
    result: CallResultView,
    mode: OutputMode,
    inline: bool,
    directory: Seq<char>,
    other_inline: bool,
    other_directory: Seq<char>,
)
    requires
        mode == OutputMode::Structured || mode == OutputMode::Raw,
    ensures
        rendered(result, mode, inline, directory) == rendered(
            result,
            mode,
            other_inline,
            other_directory,
        ),
        rendered(result, mode, inline, directory) matches Ok(rendering) ==> rendering.files.len()
            == 0 && rendering.stderr.len() == 0 && rendering.stdout is Text,
{
}

/// Images are shown inline on request, never if that is turned off, and by themselves exactly on a
/// terminal.
pub proof fn image_settings(
    output: OutputView,
    options: OptionsView,
    terminal: bool,
    directory: Seq<char>,
)
    ensures
        presented(Ok(output), options, terminal, directory) == match rendered(
            as_result(output, false),
            options.mode,
            options.images == ImageMode::Kitty || (options.images == ImageMode::Auto && terminal),
            directory,
        ) {
            Ok(rendering) => Ok(rendering),
            Err(message) => Err(runtime_failure(message)),
        },
{
}

// ---------------------------------------------------------------------------------------------
// Inline images

/// A terminal graphics command with one chunk of data.
pub open spec fn graphics_command(chunk: Seq<char>, first: bool, more: bool) -> Seq<char> {
    (if first {
        "\u{1b}_Ga=T,f=100,m="@
    } else {
        "\u{1b}_Gm="@
    }) + (if more {
        "1;"@
    } else {
        "0;"@
    }) + chunk + "\u{1b}\\"@
}

/// The commands that send chunks in turn; all but the last say that more follows.
pub open spec fn graphics_commands(chunks: Seq<Seq<char>>, first: bool) -> Seq<char>
    decreases chunks.len(),
{
    if chunks.len() == 0 {
        Seq::empty()
    } else {
        graphics_command(chunks[0], first, chunks.len() > 1) + graphics_commands(
            chunks.skip(1),
            false,
        )
    }
}

/// The front piece of texts without anything between them.
proof fn run_together_front(pieces: Seq<Seq<char>>)
    requires
        pieces.len() > 0,
    ensures
        run_together(pieces) == pieces[0] + run_together(pieces.skip(1)),
    decreases pieces.len(),
{
    if pieces.len() == 1 {
        assert(pieces.drop_last() =~= Seq::<Seq<char>>::empty());
        assert(pieces.skip(1) =~= Seq::<Seq<char>>::empty());
        assert(run_together(pieces.drop_last()) =~= Seq::<char>::empty());
        assert(run_together(pieces.skip(1)) =~= Seq::<char>::empty());
        assert(run_together(pieces) =~= pieces[0] + run_together(pieces.skip(1)));
    } else {
        run_together_front(pieces.drop_last());
        let rest = pieces.skip(1);
        assert(pieces.drop_last().skip(1) =~= rest.drop_last());
        assert(rest.last() == pieces.last());
        assert(run_together(pieces) =~= pieces[0] + run_together(rest));
    }
}

/// An inline image is sent whole: its data is cut into chunks of at most the size that a command
/// carries, all but the last full, and each goes out in a command of its own.
pub proof fn inline_images_are_sent_whole(data: Seq<char>, first: bool) -> (chunks: Seq<Seq<char>>)
    ensures
        chunks.len() > 0,
        run_together(chunks) == data,
        kitty_image(data, first) == graphics_commands(chunks, first),
        forall|i: int| 0 <= i < chunks.len() - 1 ==> (#[trigger] chunks[i]).len() == 4096,
        chunks.last().len() <= 4096,
        chunks.len() > 1 ==> chunks.last().len() > 0,
    decreases data.len(),
{
    if data.len() <= KITTY_CHUNK {
        let chunks = seq![data];
        assert(chunks.drop_last() =~= Seq::<Seq<char>>::empty());
        assert(chunks.skip(1) =~= Seq::<Seq<char>>::empty());
        assert(run_together(chunks.drop_last()) =~= Seq::<char>::empty());
        assert(run_together(chunks) =~= data);
        reveal_with_fuel(graphics_commands, 2);
        assert(graphics_commands(chunks, first) =~= kitty_image(data, first));
        chunks
    } else {
        let chunk = data.take(KITTY_CHUNK as int);
        let rest = data.skip(KITTY_CHUNK as int);
        let more = inline_images_are_sent_whole(rest, false);
        let chunks = seq![chunk] + more;
        assert(chunks.skip(1) =~= more);
        run_together_front(chunks);
        assert(chunk + rest =~= data);
        assert(chunks.last() == more.last());
        assert forall|i: int| 0 <= i < chunks.len() - 1 implies (#[trigger] chunks[i]).len()
            == 4096 by {
            if i > 0 {
                assert(chunks[i] == more[i - 1]);
            }
        }
        assert(more.last().len() > 0) by {
            if more.len() == 1 {
                assert(more.drop_last() =~= Seq::<Seq<char>>::empty());
                assert(run_together(more.drop_last()) =~= Seq::<char>::empty());
                assert(run_together(more) =~= more[0]);
            }
        }
        assert(graphics_commands(chunks, first) =~= kitty_image(data, first));
        chunks
    }
}

} // verus!
