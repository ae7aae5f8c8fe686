//! Newline-delimited JSON over a pair of streams.

use vstd::prelude::*;
use vstd::string::StringExecFns;

use crate::error::ProtocolError;
use crate::json::compact_json;
use crate::message::{message_json, parse_line, parsed_message, MessageView, ParseError};
use crate::registry::ToolRegistry;
use crate::server::{answers, tool_response, McpServer, OutgoingMessage, Output, Responder};
use crate::tools::IntoToolResponse;

verus! {

/// Errors that end a transport.
#[derive(Debug)]
pub enum IoError {
    /// Reading or writing failed.
    Io(String),
    /// A message could not be parsed.
    Parse(ParseError),
    /// A message did not fit the protocol's phase.
    Protocol(ProtocolError),
}

impl IoError {
    /// States the error.
    pub fn to_string(&self) -> (r: String)
        ensures
            r@ == (match self {
                IoError::Io(_) => "IO error"@,
                IoError::Parse(_) => "failed to parse message"@,
                IoError::Protocol(_) => "protocol error"@,
            }),
    {
        match self {
            IoError::Io(_) => "IO error".to_owned(),
            IoError::Parse(_) => "failed to parse message".to_owned(),
            IoError::Protocol(_) => "protocol error".to_owned(),
        }
    }
}

/// Whether a character is white space, as Unicode's `White_Space` property has it.
pub open spec fn white_space(ch: char) -> bool {
    let code = ch as int;
    ||| 0x9 <= code <= 0xd
    ||| code == 0x20
    ||| code == 0x85
    ||| code == 0xa0
    ||| code == 0x1680
    ||| 0x2000 <= code <= 0x200a
    ||| code == 0x2028
    ||| code == 0x2029
    ||| code == 0x202f
    ||| code == 0x205f
    ||| code == 0x3000
}

/// A text without the white space at its end.
pub open spec fn trimmed_end(text: Seq<char>) -> Seq<char>
    decreases text.len(),
{
    if text.len() > 0 && white_space(text.last()) {
        trimmed_end(text.drop_last())
    } else {
        text
    }
}

/// `std`'s `str::trim_end`: the text without trailing white space, as Unicode defines it.
#[verifier::external_body]
fn trim_line(line: &str) -> (r: &str)
    ensures
        r@ == trimmed_end(line@),
{
    line.trim_end()
}

/// What a transport does after a line.
pub enum LineAction<R: ToolRegistry> {
    /// Write this line.
    Write(String),
    /// Call the tool, then write its result.
    Call {
        /// Parsed tool input.
        tool: R,
        /// Responder for the tool's result.
        responder: Responder,
    },
    /// Read the next line.
    Wait,
    /// End with this error.
    Fail(IoError),
}

/// The line that a message is written as.
pub open spec fn message_line(message: MessageView) -> Seq<char> {
    compact_json(message_json(message)) + "\n"@
}

/// Whether an action is what the server's output asks for.
pub open spec fn carries_out<R: ToolRegistry>(output: Output<R>, action: LineAction<R>) -> bool {
    match output {
        Output::Send(message) => action matches LineAction::Write(line) && line@ == message_line(
            message@,
        ),
        Output::ToolCall { tool, responder } => action == (LineAction::Call { tool, responder }),
        Output::Nothing => action is Wait,
        Output::ProtocolError(error) => action == LineAction::<R>::Fail(IoError::Protocol(error)),
    }
}

/// Writes a message as one line.
pub fn write_message(message: &OutgoingMessage) -> (r: String)
    ensures
        r@ == message_line(message@),
{
    let mut line = message.as_inner().to_text();
    line.append("\n");
    line
}

/// Hands one line of input to a server.
pub fn handle_line<R: ToolRegistry>(server: &mut McpServer<R>, line: &str) -> (r: LineAction<R>)
    ensures
        final(server).identity() == old(server).identity(),
        match parsed_message(trimmed_end(line@)) {
            Ok(message) => exists|output: Output<R>| #[trigger]
                answers(
                    old(server).identity(),
                    old(server).phase(),
                    message,
                    output,
                    final(server).phase(),
                ) && carries_out(output, r),
            Err(reason) => *final(server) == *old(server) && (r matches LineAction::Fail(
                IoError::Parse(error),
            ) && error.reason() == reason),
        },
{
    let message = match parse_line(trim_line(line)) {
        Ok(message) => message,
        Err(error) => {
            return LineAction::Fail(IoError::Parse(error));
        },
    };
    let ghost view = message@;
    let ghost before = (server.identity(), server.phase());
    let output = server.handle(message);
    assert(answers(before.0, before.1, view, output, server.phase()));
    match output {
        Output::Send(response) => LineAction::Write(write_message(&response)),
        Output::ToolCall { tool, responder } => LineAction::Call { tool, responder },
        Output::Nothing => LineAction::Wait,
        Output::ProtocolError(error) => LineAction::Fail(IoError::Protocol(error)),
    }
}

/// Writes the result of a tool call as one line.
pub fn tool_line<V: IntoToolResponse>(responder: Responder, value: V) -> (r: String)
    ensures
        r@ == message_line(tool_response(value.as_response(), responder@)),
{
    write_message(&responder.respond(value))
}

/// A line break does not change what a line says.
pub proof fn line_breaks_are_dropped(text: Seq<char>)
    ensures
        trimmed_end(text.push('\n')) == trimmed_end(text),
        trimmed_end(text.push('\r').push('\n')) == trimmed_end(text),
{
    assert(text.push('\n').drop_last() =~= text);
    assert(text.push('\r').drop_last() =~= text);
    assert(text.push('\r').push('\n').drop_last() =~= text.push('\r'));
    assert(trimmed_end(text.push('\r')) == trimmed_end(text));
}

/// Only white space is dropped, and only at the end: what stands before it is kept as it is.
pub proof fn only_trailing_space_is_dropped(text: Seq<char>, space: Seq<char>)
    requires
        text.len() > 0,
        !white_space(text.last()),
        forall|i: int| 0 <= i < space.len() ==> white_space(#[trigger] space[i]),
    ensures
        trimmed_end(text + space) == text,
        trimmed_end(space) == Seq::<char>::empty(),
    decreases space.len(),
{
    if space.len() > 0 {
        let rest = space.drop_last();
        assert forall|i: int| 0 <= i < rest.len() implies white_space(#[trigger] rest[i]) by {
            assert(rest[i] == space[i]);
        }
        assert(white_space(space[space.len() - 1]));
        only_trailing_space_is_dropped(text, rest);
        assert((text + space).drop_last() =~= text + rest);
    } else {
        assert(text + space =~= text);
        assert(space =~= Seq::<char>::empty());
    }
}

} // verus!
