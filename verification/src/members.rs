//! What the JSON objects of the protocol hold, member by member.

use vstd::prelude::*;

use crate::error::RpcErrorView;
use crate::json::JsonView;
use crate::message::{id_json, message_json, IdView, MessageView};
use crate::registry::{definition_json, input_json, DefinitionView};
use crate::server::{built_identity, refused_call, tool_list, tool_response, BuilderView};
use crate::table::lookup;
use crate::tools::{content_json, result_json, CallResultView, ContentView};
use crate::wire::initialize_json;

verus! {

/// A text as JSON, where there is one.
pub open spec fn text_if_any(text: Option<Seq<char>>) -> Option<JsonView> {
    match text {
        Some(text) => Some(JsonView::Text(text)),
        None => None,
    }
}

/// Every message names the protocol's version, and holds what it was made of: a request its
/// identifier, method and parameters, a notification no identifier, and a response its result or
/// its error and never both.
pub proof fn messages_hold_their_parts(message: MessageView)
    ensures
        message_json(message) is Object,
        message_json(message).get("jsonrpc"@) == Some(JsonView::Text("2.0"@)),
        message matches MessageView::Request { id, method, params } ==> {
            &&& message_json(message).get("id"@) == Some(id_json(id))
            &&& message_json(message).get("method"@) == Some(JsonView::Text(method))
            &&& message_json(message).get("params"@) == params
            &&& message_json(message).get("result"@) is None
            &&& message_json(message).get("error"@) is None
        },
        message matches MessageView::Notification { method, params } ==> {
            &&& message_json(message).get("id"@) is None
            &&& message_json(message).get("method"@) == Some(JsonView::Text(method))
            &&& message_json(message).get("params"@) == params
            &&& message_json(message).get("result"@) is None
            &&& message_json(message).get("error"@) is None
        },
        message matches MessageView::ResultResponse { id, result } ==> {
            &&& message_json(message).get("id"@) == Some(id_json(id))
            &&& message_json(message).get("result"@) == Some(result)
            &&& message_json(message).get("method"@) is None
            &&& message_json(message).get("error"@) is None
        },
        message matches MessageView::ErrorResponse { id, code, message: text, data } ==> {
            &&& message_json(message).get("id"@) == (match id {
                Some(id) => Some(id_json(id)),
                None => None,
            })
            &&& message_json(message).get("error"@) matches Some(error) && {
                &&& error.get("code"@) == Some(JsonView::Integer(code))
                &&& error.get("message"@) == Some(JsonView::Text(text))
                &&& error.get("data"@) == data
            }
            &&& message_json(message).get("method"@) is None
            &&& message_json(message).get("result"@) is None
        },
{
    reveal_strlit("jsonrpc");
    reveal_strlit("id");
    reveal_strlit("method");
    reveal_strlit("params");
    reveal_strlit("result");
    reveal_strlit("error");
    reveal_strlit("code");
    reveal_strlit("message");
    reveal_strlit("data");
    assert("jsonrpc"@[0] == 'j' && "id"@[0] == 'i' && "method"@[0] == 'm' && "params"@[0] == 'p'
        && "result"@[0] == 'r' && "error"@[0] == 'e' && "code"@[0] == 'c' && "message"@[0] == 'm'
        && "data"@[0] == 'd');
    reveal_with_fuel(lookup, 6);
}

/// An identifier is written as what it is.
pub proof fn ids_are_written_as_they_are(id: IdView, other: IdView)
    ensures
        id_json(id) == id_json(other) <==> id == other,
        id matches IdView::Text(text) ==> id_json(id) == JsonView::Text(text),
        id matches IdView::Integer(n) ==> id_json(id) == JsonView::Integer(n),
{
}

/// A block names its type, and holds what it was made of: data and media type of an image or a
/// sound as they are, and a resource with its address.
pub proof fn blocks_hold_their_parts(block: ContentView)
    ensures
        block matches ContentView::Text { text } ==> {
            &&& content_json(block).get("type"@) == Some(JsonView::Text("text"@))
            &&& content_json(block).get("text"@) == Some(JsonView::Text(text))
        },
        block matches ContentView::Image { data, mime_type } ==> {
            &&& content_json(block).get("type"@) == Some(JsonView::Text("image"@))
            &&& content_json(block).get("data"@) == Some(JsonView::Text(data))
            &&& content_json(block).get("mimeType"@) == Some(JsonView::Text(mime_type))
        },
        block matches ContentView::Audio { data, mime_type } ==> {
            &&& content_json(block).get("type"@) == Some(JsonView::Text("audio"@))
            &&& content_json(block).get("data"@) == Some(JsonView::Text(data))
            &&& content_json(block).get("mimeType"@) == Some(JsonView::Text(mime_type))
        },
        block matches ContentView::ResourceLink { name, uri } ==> {
            &&& content_json(block).get("type"@) == Some(JsonView::Text("resource_link"@))
            &&& content_json(block).get("name"@) == Some(JsonView::Text(name))
            &&& content_json(block).get("uri"@) == Some(JsonView::Text(uri))
        },
        block matches ContentView::EmbeddedText { uri, mime_type, text } ==> {
            &&& content_json(block).get("type"@) == Some(JsonView::Text("resource"@))
            &&& content_json(block).get("resource"@) matches Some(resource) && {
                &&& resource.get("uri"@) == Some(JsonView::Text(uri))
                &&& resource.get("text"@) == Some(JsonView::Text(text))
                &&& resource.get("mimeType"@) == text_if_any(mime_type)
                &&& resource.get("blob"@) is None
            }
        },
        block matches ContentView::EmbeddedBlob { uri, mime_type, blob } ==> {
            &&& content_json(block).get("type"@) == Some(JsonView::Text("resource"@))
            &&& content_json(block).get("resource"@) matches Some(resource) && {
                &&& resource.get("uri"@) == Some(JsonView::Text(uri))
                &&& resource.get("blob"@) == Some(JsonView::Text(blob))
                &&& resource.get("mimeType"@) == text_if_any(mime_type)
                &&& resource.get("text"@) is None
            }
        },
{
    reveal_strlit("type");
    reveal_strlit("text");
    reveal_strlit("data");
    reveal_strlit("mimeType");
    reveal_strlit("name");
    reveal_strlit("uri");
    reveal_strlit("resource");
    reveal_strlit("blob");
    assert("type"@[1] == 'y' && "text"@[1] == 'e' && "data"@[0] == 'd' && "mimeType"@[0] == 'm'
        && "name"@[0] == 'n' && "uri"@[0] == 'u' && "resource"@[0] == 'r' && "blob"@[0] == 'b'
        && "type"@[0] == 't' && "text"@[0] == 't');
    reveal_with_fuel(lookup, 5);
}

/// A result holds its blocks in their order, says whether the call failed, and holds structured
/// content exactly if there is any.
pub proof fn results_hold_their_parts(result: CallResultView)
    ensures
        result_json(result).get("isError"@) == Some(JsonView::Bool(result.is_error)),
        result_json(result).get("structuredContent"@) == result.structured,
        result_json(result).get("content"@) matches Some(JsonView::Array(blocks)) && blocks.len()
            == result.content.len() && forall|i: int|
            0 <= i < blocks.len() ==> #[trigger] blocks[i] == content_json(result.content[i]),
{
    reveal_strlit("content");
    reveal_strlit("isError");
    reveal_strlit("structuredContent");
    assert("content"@[0] == 'c' && "isError"@[0] == 'i' && "structuredContent"@[0] == 's');
    reveal_with_fuel(lookup, 5);
}

/// A definition is listed with its name, its description and its schema.
pub proof fn definitions_hold_their_parts(definition: DefinitionView)
    ensures
        definition_json(definition).get("name"@) == Some(JsonView::Text(definition.name)),
        definition_json(definition).get("description"@) == Some(
            JsonView::Text(definition.description),
        ),
        definition_json(definition).get("inputSchema"@) == Some(input_json(definition)),
{
    reveal_strlit("name");
    reveal_strlit("description");
    reveal_strlit("inputSchema");
    assert("name"@[0] == 'n' && "description"@[0] == 'd' && "inputSchema"@[0] == 'i');
    reveal_with_fuel(lookup, 5);
}

/// A schema says that it is an object, lists its properties if they are known, and the required
/// ones if there are any, in their order.
pub proof fn schemas_hold_their_parts(definition: DefinitionView)
    ensures
        input_json(definition).get("type"@) == Some(JsonView::Text("object"@)),
        input_json(definition).get("properties"@) == (match definition.input.properties {
            Some(fields) => Some(JsonView::Object(fields)),
            None => None,
        }),
        definition.input.required.len() == 0 ==> input_json(definition).get("required"@) is None,
        definition.input.required.len() > 0 ==> input_json(definition).get("required"@) == Some(
            JsonView::Array(
                Seq::new(
                    definition.input.required.len(),
                    |i: int| JsonView::Text(definition.input.required[i]),
                ),
            ),
        ),
{
    reveal_strlit("type");
    reveal_strlit("properties");
    reveal_strlit("required");
    assert("type"@[0] == 't' && "properties"@[0] == 'p' && "required"@[0] == 'r');
    reveal_with_fuel(lookup, 5);
}

/// A list of tools holds every definition, in their order.
pub proof fn tool_lists_hold_every_definition(definitions: Seq<DefinitionView>, id: IdView)
    ensures
        tool_list(definitions, id) matches MessageView::ResultResponse { id: answered, result }
            && answered == id && result.get("tools"@) == Some(
            JsonView::Array(
                Seq::new(definitions.len(), |i: int| definition_json(definitions[i])),
            ),
        ),
{
}

/// A server says its name and version, its title and instructions if it has any, and that it has
/// tools exactly if it has, whose list never changes.
pub proof fn servers_say_who_they_are(builder: BuilderView, enabled: bool)
    ensures
        ({
            let said = initialize_json(built_identity(builder, enabled));
            &&& said.get("protocolVersion"@) is Some
            &&& said.get("instructions"@) == text_if_any(builder.instructions)
            &&& said.get("serverInfo"@) matches Some(info) && {
                &&& info.get("name"@) == Some(JsonView::Text(builder.name))
                &&& info.get("version"@) == Some(JsonView::Text(builder.version))
                &&& info.get("title"@) == text_if_any(builder.title)
            }
            &&& said.get("capabilities"@) matches Some(abilities) && {
                &&& !enabled ==> abilities.get("tools"@) is None
                &&& enabled ==> (abilities.get("tools"@) matches Some(tools) && tools.get(
                    "listChanged"@,
                ) == Some(JsonView::Bool(false)))
            }
        }),
{
    reveal_strlit("protocolVersion");
    reveal_strlit("instructions");
    reveal_strlit("serverInfo");
    reveal_strlit("capabilities");
    reveal_strlit("name");
    reveal_strlit("version");
    reveal_strlit("title");
    assert("protocolVersion"@[0] == 'p' && "instructions"@[0] == 'i' && "serverInfo"@[0] == 's'
        && "capabilities"@[0] == 'c' && "name"@[0] == 'n' && "version"@[0] == 'v' && "title"@[0]
        == 't');
    reveal_with_fuel(lookup, 6);
}

/// A call that a registry does not accept is answered by what is wrong with it: a tool that does
/// not exist as an error of the parameters, input that the tool does not take as a failed call
/// whose one block tells why, and anything else as an internal error.
pub proof fn refused_calls_say_why(error: RpcErrorView, id: IdView)
    ensures
        error matches RpcErrorView::MethodNotFound { msg } ==> refused_call(error, id)
            == (MessageView::ErrorResponse {
            id: Some(id),
            code: -32602,
            message: "invalid params: "@ + msg,
            data: None,
        }),
        error matches RpcErrorView::InternalError { msg } ==> refused_call(error, id)
            == (MessageView::ErrorResponse {
            id: Some(id),
            code: -32603,
            message: "internal error: "@ + msg,
            data: None,
        }),
        error matches RpcErrorView::InvalidParams { msg } ==> refused_call(error, id)
            == tool_response(
            (CallResultView {
                content: seq![ContentView::Text { text: "invalid params: "@ + msg }],
                is_error: true,
                structured: None,
            }),
            id,
        ),
{
    if let RpcErrorView::InvalidParams { msg } = error {
        let block = ContentView::Text { text: "invalid params: "@ + msg };
        assert(Seq::<ContentView>::empty().push(block) =~= seq![block]);
    }
}

} // verus!
