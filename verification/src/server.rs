//! IO-less MCP server state machine.

use std::marker::PhantomData;

use vstd::prelude::*;
use vstd::string::StringExecFns;

use crate::error::{
    error_code, error_text, JsonRpcError, ProtocolError, ProtocolErrorView, RpcErrorView,
};
use crate::json::{
    canonical, canonical_is_settled, json_of, settled, settled_is_canonical, Json, JsonView,
};
use crate::message::{
    describe_message, described, opt_json, opt_value, ErrorBody, ErrorResponse, IdView, Message,
    MessageId, MessageView, ResultResponse,
};
use crate::registry::{
    definition_json, definitions_text, no_tools_is_disabled, DefinitionView, NoTools,
    ToolDefinition, ToolDefinitions, ToolRegistry,
};
use crate::text::{copy_opt, opt_text, same_text};
use crate::tools::{
    as_result, empty_output, result_json, with_text, CallResultView, IntoText, IntoToolResponse,
    ToolOutput,
};
use crate::wire::{initialize_json, initialize_value, list_tools_value, tools_json, IdentityView};

verus! {

// ---------------------------------------------------------------------------------------------
// Clients

/// `rust_mcp_schema`'s implementation details.
#[verifier::external_type_specification]
#[verifier::external_body]
pub struct ExImplementation(rust_mcp_schema::Implementation);

/// `rust_mcp_schema`'s client capabilities.
#[verifier::external_type_specification]
#[verifier::external_body]
pub struct ExClientCapabilities(rust_mcp_schema::ClientCapabilities);

/// The connected MCP client.
///
/// Represents the client on the other end of the connection after successful initialization.
/// Available via [`McpServer::client`] once the handshake completes.
#[derive(Debug)]
pub struct Client {
    /// Client implementation details (`clientInfo` in `initialize`).
    pub info: rust_mcp_schema::Implementation,
    /// Features the client supports, such as sampling or roots.
    pub capabilities: rust_mcp_schema::ClientCapabilities,
}

/// The client that the parameters of `initialize` describe, or the text of the error that
/// `serde_json::from_value` reports.
pub uninterp spec fn client_of(params: JsonView) -> Result<Client, Seq<char>>;

/// The tool name and arguments that the parameters of `tools/call` hold, or the text of the error
/// that `serde_json::from_value` reports.
pub uninterp spec fn call_of(params: JsonView) -> Result<
    (Seq<char>, Option<JsonView>),
    Seq<char>,
>;

/// Whether parameters of `initialize` hold the protocol version, no capabilities, a client's name
/// and version, and nothing else.
pub open spec fn minimal_client(params: JsonView) -> bool {
    &&& params matches JsonView::Object(fields) && fields.len() == 3
    &&& params.get_text("protocolVersion"@) is Some
    &&& params.get("capabilities"@) == Some(JsonView::Object(Seq::empty()))
    &&& params.get("clientInfo"@) matches Some(info) && {
        &&& info matches JsonView::Object(members) && members.len() == 2
        &&& info.get_text("name"@) is Some
        &&& info.get_text("version"@) is Some
    }
}

/// Whether parameters of `tools/call` hold a tool name, perhaps an object of arguments, and nothing
/// else.
pub open spec fn plain_call(params: JsonView) -> bool {
    &&& params.get_text("name"@) is Some
    &&& params matches JsonView::Object(fields) && (match params.get("arguments"@) {
        Some(arguments) => arguments is Object && fields.len() == 2,
        None => fields.len() == 1,
    })
}

/// `serde_json::from_value` on a `rust_mcp_schema::InitializeRequestParams`. An error comes as its
/// text. A version, empty capabilities, and a client's name and version are enough.
#[verifier::external_body]
fn parse_initialize(params: serde_json::Value) -> (r: Result<Client, String>)
    ensures
        match r {
            Ok(client) => client_of(json_of(params)) == Ok::<Client, Seq<char>>(client),
            Err(error) => client_of(json_of(params)) == Err::<Client, Seq<char>>(error@),
        },
        minimal_client(json_of(params)) && canonical(json_of(params)) ==> r is Ok,
{
    serde_json::from_value::<rust_mcp_schema::InitializeRequestParams>(params)
        .map(|parsed| Client { info: parsed.client_info, capabilities: parsed.capabilities })
        .map_err(|error| error.to_string())
}

/// `serde_json::from_value` on a `rust_mcp_schema::CallToolRequestParams`. An error comes as its
/// text. A name, alone or with an object of arguments, is enough.
#[verifier::external_body]
fn parse_call(params: serde_json::Value) -> (r: Result<(String, Option<serde_json::Value>), String>)
    ensures
        match r {
            Ok((name, arguments)) => call_of(json_of(params)) == Ok::<
                (Seq<char>, Option<JsonView>),
                Seq<char>,
            >((name@, opt_value(arguments))),
            Err(error) => call_of(json_of(params)) == Err::<
                (Seq<char>, Option<JsonView>),
                Seq<char>,
            >(error@),
        },
        plain_call(json_of(params)) && canonical(json_of(params)) ==> r is Ok && Some(r->Ok_0.0@)
            == json_of(params).get_text("name"@) && opt_value(r->Ok_0.1) == json_of(params).get(
            "arguments"@,
        ),
{
    serde_json::from_value::<rust_mcp_schema::CallToolRequestParams>(params)
        .map(|parsed| (parsed.name, parsed.arguments.map(serde_json::Value::Object)))
        .map_err(|error| error.to_string())
}

// ---------------------------------------------------------------------------------------------
// Configuration

/// Tool capabilities that a server advertises.
#[derive(Debug)]
pub struct ServerCapabilitiesTools {
    /// Whether changes of the tool list are announced.
    pub list_changed: Option<bool>,
}

/// Capabilities that a server advertises.
#[derive(Debug)]
pub struct ServerCapabilities {
    pub tools: Option<ServerCapabilitiesTools>,
}

/// Server implementation info.
#[derive(Debug)]
pub struct ServerInfo {
    pub name: String,
    pub version: String,
    pub title: Option<String>,
}

/// Server configuration for MCP initialization.
#[derive(Debug)]
pub struct ServerConfig {
    /// Server implementation info sent during initialization.
    pub info: ServerInfo,
    /// Server capabilities advertised to the client.
    pub capabilities: ServerCapabilities,
    /// Optional LLM instructions sent during initialization.
    pub instructions: Option<String>,
}

impl View for ServerConfig {
    type V = IdentityView;

    open spec fn view(&self) -> IdentityView {
        IdentityView {
            name: self.info.name@,
            version: self.info.version@,
            title: opt_text(self.info.title),
            tools: match self.capabilities.tools {
                Some(tools) => Some(tools.list_changed),
                None => None,
            },
            instructions: opt_text(self.instructions),
        }
    }
}

/// Builder for constructing an [`McpServer`].
pub struct McpServerBuilder<R: ToolRegistry> {
    /// Server name.
    name: String,
    /// Server version.
    version: String,
    /// Optional human-readable title.
    title: Option<String>,
    /// Optional LLM instructions.
    instructions: Option<String>,
    /// Tool registry marker.
    marker: PhantomData<R>,
}

/// A server builder as mathematics.
pub struct BuilderView {
    pub name: Seq<char>,
    pub version: Seq<char>,
    pub title: Option<Seq<char>>,
    pub instructions: Option<Seq<char>>,
}

/// The identity that a builder gives a server.
pub open spec fn built_identity(builder: BuilderView, enabled: bool) -> IdentityView {
    IdentityView {
        name: builder.name,
        version: builder.version,
        title: builder.title,
        tools: if enabled {
            Some(Some(false))
        } else {
            None
        },
        instructions: builder.instructions,
    }
}

impl<R: ToolRegistry> View for McpServerBuilder<R> {
    type V = BuilderView;

    closed spec fn view(&self) -> BuilderView {
        BuilderView {
            name: self.name@,
            version: self.version@,
            title: opt_text(self.title),
            instructions: opt_text(self.instructions),
        }
    }
}

impl<R: ToolRegistry> McpServerBuilder<R> {
    /// Creates a new builder with default values.
    pub fn new() -> (r: McpServerBuilder<R>)
        ensures
            r@ == (BuilderView {
                name: "unnamed-mcp-server"@,
                version: "0.0.0"@,
                title: None,
                instructions: None,
            }),
    {
        McpServerBuilder {
            name: "unnamed-mcp-server".to_owned(),
            version: "0.0.0".to_owned(),
            title: None,
            instructions: None,
            marker: PhantomData,
        }
    }

    /// Copies a builder.
    pub fn copy(&self) -> (r: McpServerBuilder<R>)
        ensures
            r@ == self@,
    {
        McpServerBuilder {
            name: self.name.clone(),
            version: self.version.clone(),
            title: copy_opt(&self.title),
            instructions: copy_opt(&self.instructions),
            marker: PhantomData,
        }
    }

    /// Sets the server name sent to clients during initialization.
    pub fn name<S: IntoText>(&mut self, name: S) -> (r: &mut McpServerBuilder<R>)
        ensures
            r@ == (BuilderView { name: name.as_text(), ..old(self)@ }),
            *final(self) == *final(r),
    {
        self.name = name.into_text();
        self
    }

    /// Sets the server version sent to clients during initialization.
    pub fn version<S: IntoText>(&mut self, version: S) -> (r: &mut McpServerBuilder<R>)
        ensures
            r@ == (BuilderView { version: version.as_text(), ..old(self)@ }),
            *final(self) == *final(r),
    {
        self.version = version.into_text();
        self
    }

    /// Sets a human-readable title sent to clients during initialization.
    pub fn title<S: IntoText>(&mut self, title: S) -> (r: &mut McpServerBuilder<R>)
        ensures
            r@ == (BuilderView { title: Some(title.as_text()), ..old(self)@ }),
            *final(self) == *final(r),
    {
        self.title = Some(title.into_text());
        self
    }

    /// Sets instructions for the LLM on how to use this server.
    pub fn instructions<S: IntoText>(&mut self, instructions: S) -> (r: &mut McpServerBuilder<R>)
        ensures
            r@ == (BuilderView { instructions: Some(instructions.as_text()), ..old(self)@ }),
            *final(self) == *final(r),
    {
        self.instructions = Some(instructions.into_text());
        self
    }

    /// Builds the [`McpServer`].
    pub fn build(&self) -> (r: McpServer<R>)
        ensures
            r.identity() == built_identity(self@, R::ENABLED),
            r.phase() == Phase::WaitingForInitialize,
    {
        let tools: Option<ServerCapabilitiesTools> = if R::ENABLED {
            Some(ServerCapabilitiesTools { list_changed: Some(false) })
        } else {
            None
        };
        McpServer {
            config: ServerConfig {
                info: ServerInfo {
                    name: self.name.clone(),
                    version: self.version.clone(),
                    title: copy_opt(&self.title),
                },
                capabilities: ServerCapabilities { tools },
                instructions: copy_opt(&self.instructions),
            },
            phase: Phase::WaitingForInitialize,
            marker: PhantomData,
        }
    }
}

// ---------------------------------------------------------------------------------------------
// Outgoing messages

/// Outgoing message that must be sent to the client.
#[must_use]
pub struct OutgoingMessage(Message);

impl View for OutgoingMessage {
    type V = MessageView;

    closed spec fn view(&self) -> MessageView {
        self.0@
    }
}

/// The response that reports a request-level error.
pub open spec fn error_response(error: RpcErrorView, id: IdView) -> MessageView {
    MessageView::ErrorResponse {
        id: Some(id),
        code: error_code(error),
        message: error_text(error),
        data: None,
    }
}

/// The response to a tool call.
pub open spec fn tool_response(result: CallResultView, id: IdView) -> MessageView {
    MessageView::ResultResponse { id, result: result_json(result) }
}

impl OutgoingMessage {
    /// The message carries canonical values and, if it is a result, an object.
    #[verifier::type_invariant]
    spec fn sound(&self) -> bool {
        crate::message::message_sound(self.0@)
    }

    /// Consumes the wrapper and returns the inner message.
    pub fn into_inner(self) -> (r: Message)
        ensures
            r@ == self@,
            crate::message::message_sound(r@),
    {
        proof {
            use_type_invariant(&self);
        }
        self.0
    }

    /// Returns a reference to the inner message.
    pub fn as_inner(&self) -> (r: &Message)
        ensures
            r@ == self@,
            crate::message::message_sound(r@),
    {
        proof {
            use_type_invariant(self);
        }
        &self.0
    }

    /// Creates an empty success response.
    pub fn empty_response(id: MessageId) -> (r: OutgoingMessage)
        ensures
            r@ == (MessageView::ResultResponse {
                id: id@,
                result: JsonView::Object(Seq::empty()),
            }),
    {
        let result = Json::Object(Vec::new());
        assert(result@ == JsonView::Object(Seq::empty()));
        OutgoingMessage(Message::ResultResponse(ResultResponse { id, result }))
    }

    /// Creates a success response with an object that serialization gave.
    fn result_response(id: MessageId, value: serde_json::Value) -> (r: OutgoingMessage)
        requires
            json_of(value) is Object,
        ensures
            r@ == (MessageView::ResultResponse { id: id@, result: json_of(value) }),
    {
        OutgoingMessage(
            Message::ResultResponse(ResultResponse { id, result: Json::from_value(value) }),
        )
    }
}

impl JsonRpcError {
    /// Converts this error into an outgoing JSON-RPC error response.
    pub fn into_response(self, id: MessageId) -> (r: OutgoingMessage)
        ensures
            r@ == error_response(self@, id@),
    {
        let error = ErrorBody { code: self.code(), message: self.to_string(), data: None };
        OutgoingMessage(Message::ErrorResponse(ErrorResponse { id: Some(id), error }))
    }
}

/// Response builder for tool calls.
#[must_use]
#[derive(Debug)]
pub struct Responder {
    /// Request ID to respond to.
    id: MessageId,
}

impl View for Responder {
    type V = IdView;

    closed spec fn view(&self) -> IdView {
        self.id@
    }
}

impl Responder {
    /// Creates a new responder for the given request ID.
    pub fn new(id: MessageId) -> (r: Responder)
        ensures
            r@ == id@,
    {
        Responder { id }
    }

    /// Sends a tool response.
    ///
    /// Bare values and `Ok(v)` become successful responses; `Err(e)` becomes a tool error with the
    /// error's text.
    pub fn respond<V: IntoToolResponse>(self, value: V) -> (r: OutgoingMessage)
        ensures
            r@ == tool_response(value.as_response(), self@),
    {
        let result = value.into_tool_response().to_json();
        OutgoingMessage(Message::ResultResponse(ResultResponse { id: self.id, result }))
    }

    /// Sends a JSON-RPC error response.
    ///
    /// Use this for protocol-level failures only.
    pub fn rpc_error(self, error: JsonRpcError) -> (r: OutgoingMessage)
        ensures
            r@ == error_response(error@, self@),
    {
        error.into_response(self.id)
    }
}

// ---------------------------------------------------------------------------------------------
// The server

/// Protocol phase tracking initialization state.
#[derive(Debug)]
pub enum Phase {
    /// Waiting for `initialize` request.
    WaitingForInitialize,
    /// Received `initialize`, waiting for `notifications/initialized`.
    WaitingForInitialized(Client),
    /// Fully initialized and ready for requests.
    Ready(Client),
}

/// IO-less MCP server state machine.
///
/// The server proceeds through three phases: it waits for `initialize`, then for
/// `notifications/initialized`, and then is ready for tool requests. `ping` is answered in all
/// phases. Other requests are rejected until the handshake completes.
pub struct McpServer<R: ToolRegistry = NoTools> {
    /// Server configuration.
    config: ServerConfig,
    /// Current protocol phase.
    phase: Phase,
    /// Tool registry marker.
    marker: PhantomData<R>,
}

/// Output from handling a message.
#[must_use]
pub enum Output<R: ToolRegistry> {
    /// Send this message to the client.
    Send(OutgoingMessage),
    /// Tool call with parsed input and responder for the result.
    ToolCall {
        /// Parsed tool input.
        tool: R,
        /// Responder for sending the tool result.
        responder: Responder,
    },
    /// No action needed.
    Nothing,
    /// Protocol error - caller should close connection.
    ProtocolError(ProtocolError),
}

/// What a server that is not in the phase for a message expected.
pub open spec fn expectation_of(phase: Phase) -> Seq<char> {
    match phase {
        Phase::WaitingForInitialize => "initialize"@,
        Phase::WaitingForInitialized(_) => "notifications/initialized"@,
        Phase::Ready(_) => "anything, really"@,
    }
}

/// The parameters of a request; absent ones count as an empty object.
pub open spec fn given_params(params: Option<JsonView>) -> JsonView {
    match params {
        Some(value) => settled(value),
        None => JsonView::Object(Seq::empty()),
    }
}

/// The arguments of a tool call; absent ones count as an empty object.
pub open spec fn given_arguments(arguments: Option<JsonView>) -> JsonView {
    match arguments {
        Some(value) => value,
        None => JsonView::Object(Seq::empty()),
    }
}

/// The reply to a tool call that a registry does not accept: an unknown tool is an error of the
/// parameters, invalid input of a known tool is a failed execution.
pub open spec fn refused_call(error: RpcErrorView, id: IdView) -> MessageView {
    match error {
        RpcErrorView::MethodNotFound { msg } => error_response(
            RpcErrorView::InvalidParams { msg },
            id,
        ),
        RpcErrorView::InvalidParams { .. } => tool_response(
            as_result(with_text(empty_output(), error_text(error)), true),
            id,
        ),
        RpcErrorView::InternalError { .. } => error_response(error, id),
    }
}

/// The JSON of definitions.
pub open spec fn definitions_json(definitions: Seq<DefinitionView>) -> Seq<JsonView> {
    Seq::new(definitions.len(), |i: int| definition_json(definitions[i]))
}

/// The response to `tools/list`.
pub open spec fn tool_list(definitions: Seq<DefinitionView>, id: IdView) -> MessageView {
    MessageView::ResultResponse {
        id,
        result: JsonView::Object(
            seq![("tools"@, JsonView::Array(definitions_json(definitions)))],
        ),
    }
}

/// Whether output is to send a message.
pub open spec fn sends<R: ToolRegistry>(output: Output<R>, message: MessageView) -> bool {
    output matches Output::Send(sent) && sent@ == message
}

/// Whether output is to close the connection because a message did not fit the phase.
pub open spec fn closes<R: ToolRegistry>(
    output: Output<R>,
    phase: Phase,
    got: Seq<char>,
) -> bool {
    output matches Output::ProtocolError(error) && error@ == (ProtocolErrorView {
        expected: expectation_of(phase),
        got,
    })
}

/// Whether output is what a parsed tool call leads to.
pub open spec fn call_outcome<R: ToolRegistry>(
    parsed: Result<R, JsonRpcError>,
    id: IdView,
    output: Output<R>,
) -> bool {
    match parsed {
        Ok(tool) => output matches Output::ToolCall { tool: made, responder } && made == tool
            && responder@ == id,
        Err(error) => sends(output, refused_call(error@, id)),
    }
}

/// Whether output answers a `tools/call` request: the registry parses the named tool with the
/// arguments, which are an empty object where none are given.
pub open spec fn answers_call<R: ToolRegistry>(
    params: JsonView,
    id: IdView,
    output: Output<R>,
) -> bool {
    match call_of(params) {
        Err(error) => sends(
            output,
            error_response(RpcErrorView::InvalidParams { msg: "tools/call: "@ + error }, id),
        ),
        Ok((name, arguments)) => exists|tool: &str, given: Json, parsed: Result<R, JsonRpcError>|
            tool@ == name && given@ == given_arguments(arguments) && #[trigger] call_ensures(
                R::parse,
                (tool, given),
                parsed,
            ) && call_outcome(parsed, id, output),
    }
}

/// Parameters of `initialize` that hold what a client has to say are read.
pub open spec fn reads_client(params: JsonView) -> bool {
    minimal_client(params) ==> client_of(params) is Ok
}

/// Parameters of `tools/call` that hold a name, alone or with an object of arguments, are read as
/// that.
pub open spec fn reads_call(params: JsonView) -> bool {
    plain_call(params) ==> call_of(params) == Ok::<(Seq<char>, Option<JsonView>), Seq<char>>(
        (params.get_text("name"@)->0, params.get("arguments"@)),
    )
}

/// Whether output and the next phase answer a request other than `ping`.
pub open spec fn answers_request<R: ToolRegistry>(
    identity: IdentityView,
    phase: Phase,
    id: IdView,
    method: Seq<char>,
    params: JsonView,
    output: Output<R>,
    next: Phase,
) -> bool {
    match phase {
        Phase::WaitingForInitialize => if method == "initialize"@ {
            reads_client(params) && match client_of(params) {
                Ok(client) => next == Phase::WaitingForInitialized(client) && sends(
                    output,
                    MessageView::ResultResponse { id, result: initialize_json(identity) },
                ),
                Err(error) => next == phase && sends(
                    output,
                    error_response(RpcErrorView::InvalidParams { msg: "initialize: "@ + error }, id),
                ),
            }
        } else {
            next == phase && closes(output, phase, "request:"@ + method)
        },
        Phase::WaitingForInitialized(_) => next == phase && closes(
            output,
            phase,
            "request:"@ + method,
        ),
        Phase::Ready(_) => next == phase && (if method == "tools/list"@ && R::ENABLED {
            exists|definitions: ToolDefinitions| #[trigger]
                call_ensures(R::definitions, (), definitions) && sends(
                    output,
                    tool_list(definitions@, id),
                )
        } else if method == "tools/call"@ && R::ENABLED {
            reads_call(params) && answers_call(params, id, output)
        } else {
            sends(output, error_response(RpcErrorView::MethodNotFound { msg: method }, id))
        }),
    }
}

/// Whether output and the next phase are what a message leads to.
pub open spec fn answers<R: ToolRegistry>(
    identity: IdentityView,
    phase: Phase,
    message: MessageView,
    output: Output<R>,
    next: Phase,
) -> bool {
    match message {
        MessageView::Request { id, method, params } => if method == "ping"@ {
            next == phase && sends(
                output,
                MessageView::ResultResponse { id, result: JsonView::Object(Seq::empty()) },
            )
        } else {
            answers_request(identity, phase, id, method, given_params(params), output, next)
        },
        MessageView::Notification { method, .. } => match phase {
            Phase::WaitingForInitialized(client) => if method == "notifications/initialized"@ {
                next == Phase::Ready(client) && output is Nothing
            } else {
                next == phase && closes(output, phase, described(message))
            },
            Phase::Ready(_) => next == phase && output is Nothing,
            Phase::WaitingForInitialize => next == phase && closes(
                output,
                phase,
                described(message),
            ),
        },
        _ => next == phase && closes(output, phase, described(message)),
    }
}

/// Makes the reply to a tool call that a registry does not accept.
pub fn refuse_call(error: JsonRpcError, id: MessageId) -> (r: OutgoingMessage)
    ensures
        r@ == refused_call(error@, id@),
{
    match error {
        JsonRpcError::MethodNotFound { msg } => JsonRpcError::InvalidParams { msg }.into_response(
            id,
        ),
        JsonRpcError::InvalidParams { msg } => {
            let text = JsonRpcError::InvalidParams { msg }.to_string();
            let failed: Result<ToolOutput, String> = Err(text);
            Responder::new(id).respond(failed)
        },
        JsonRpcError::InternalError { msg } => JsonRpcError::InternalError { msg }.into_response(
            id,
        ),
    }
}

/// The parameters of a request are canonical.
proof fn given_params_are_canonical(params: Option<JsonView>)
    ensures
        canonical(given_params(params)),
{
    if let Some(value) = params {
        settled_is_canonical(value);
    }
}

/// The value that request parameters stand for.
fn params_value(params: &Option<Json>) -> (r: serde_json::Value)
    ensures
        json_of(r) == given_params(opt_json(*params)),
{
    match params {
        Some(value) => value.to_value(),
        None => {
            let empty = Json::Object(Vec::new());
            assert(empty@ == JsonView::Object(Seq::empty()));
            proof {
                canonical_is_settled(empty@);
            }
            empty.to_value()
        },
    }
}

/// What a server shows of itself: its name, version, instructions, and its tools if it has any.
pub open spec fn server_text(
    identity: IdentityView,
    tools: Option<Seq<DefinitionView>>,
) -> Seq<char> {
    let head = "# "@ + identity.name + "\n\nVersion: "@ + identity.version + "\n"@;
    let about = match identity.instructions {
        Some(text) => "\n## Instructions\n\n"@ + text + "\n"@,
        None => Seq::empty(),
    };
    let list = match tools {
        Some(definitions) => "\n"@ + definitions_text(definitions),
        None => Seq::empty(),
    };
    head + about + list
}

impl<R: ToolRegistry> McpServer<R> {
    /// What the server says of itself.
    pub closed spec fn identity(&self) -> IdentityView {
        self.config@
    }

    /// The current protocol phase.
    pub closed spec fn phase(&self) -> Phase {
        self.phase
    }

    /// Returns a builder for constructing an [`McpServer`].
    pub fn builder() -> (r: McpServerBuilder<R>)
        ensures
            r@ == (BuilderView {
                name: "unnamed-mcp-server"@,
                version: "0.0.0"@,
                title: None,
                instructions: None,
            }),
    {
        McpServerBuilder::new()
    }

    /// Returns the server's configuration.
    pub fn config(&self) -> (r: &ServerConfig)
        ensures
            r@ == self.identity(),
    {
        &self.config
    }

    /// Returns whether the server is in the ready phase.
    pub fn is_ready(&self) -> (r: bool)
        ensures
            r == (self.phase() is Ready),
    {
        matches!(self.phase, Phase::Ready(_))
    }

    /// Returns the connected client after initialization completes.
    pub fn client(&self) -> (r: Option<&Client>)
        ensures
            match self.phase() {
                Phase::Ready(client) => r == Some(&client),
                _ => r is None,
            },
    {
        match &self.phase {
            Phase::Ready(client) => Some(client),
            _ => None,
        }
    }

    /// Returns what the server expects in its phase.
    fn expectation(&self) -> (r: &'static str)
        ensures
            r@ == expectation_of(self.phase()),
    {
        match self.phase {
            Phase::WaitingForInitialize => "initialize",
            Phase::WaitingForInitialized(_) => "notifications/initialized",
            Phase::Ready(_) => "anything, really",
        }
    }

    /// Handles an incoming message and returns the appropriate output.
    pub fn handle(&mut self, message: Message) -> (r: Output<R>)
        ensures
            answers(old(self).identity(), old(self).phase(), message@, r, final(self).phase()),
            final(self).identity() == old(self).identity(),
    {
        match message {
            Message::Request(request) => {
                if same_text(request.method.as_str(), "ping") {
                    return Output::Send(OutgoingMessage::empty_response(request.id));
                }
                let id = request.id.copy();
                match self.handle_request(request.id, request.method.as_str(), &request.params) {
                    Ok(output) => output,
                    Err(error) => Output::Send(error.into_response(id)),
                }
            },
            Message::Notification(notification) => {
                if self.is_ready() {
                    return Output::Nothing;
                }
                let completes: bool = matches!(self.phase, Phase::WaitingForInitialized(_))
                    && same_text(notification.method.as_str(), "notifications/initialized");
                if completes {
                    let mut waiting = Phase::WaitingForInitialize;
                    std::mem::swap(&mut waiting, &mut self.phase);
                    match waiting {
                        Phase::WaitingForInitialized(client) => {
                            self.phase = Phase::Ready(client);
                        },
                        other => {
                            self.phase = other;
                        },
                    }
                    return Output::Nothing;
                }
                let message = Message::Notification(notification);
                self.unexpected(describe_message(&message))
            },
            _ => self.unexpected(describe_message(&message)),
        }
    }

    /// Reports a message that does not fit the phase.
    fn unexpected(&self, got: String) -> (r: Output<R>)
        ensures
            closes(r, self.phase(), got@),
    {
        Output::ProtocolError(
            ProtocolError::UnexpectedMessage { expected: self.expectation(), got },
        )
    }

    /// Handles the `initialize` request.
    fn handle_initialize(&mut self, id: MessageId, params: &Option<Json>) -> (r: Result<
        Output<R>,
        JsonRpcError,
    >)
        ensures
            final(self).identity() == old(self).identity(),
            reads_client(given_params(opt_json(*params))),
            match client_of(given_params(opt_json(*params))) {
                Ok(client) => final(self).phase() == Phase::WaitingForInitialized(client) && (
                r matches Ok(output) && sends(
                    output,
                    MessageView::ResultResponse {
                        id: id@,
                        result: initialize_json(old(self).identity()),
                    },
                )),
                Err(error) => final(self).phase() == old(self).phase() && (r matches Err(reported)
                    && reported@ == (RpcErrorView::InvalidParams { msg: "initialize: "@ + error })),
            },
    {
        proof {
            given_params_are_canonical(opt_json(*params));
        }
        let client = match parse_initialize(params_value(params)) {
            Ok(client) => client,
            Err(error) => {
                let mut msg = "initialize: ".to_owned();
                msg.append(error.as_str());
                return Err(JsonRpcError::InvalidParams { msg });
            },
        };
        let tools: Option<Option<bool>> = match &self.config.capabilities.tools {
            Some(tools) => Some(tools.list_changed),
            None => None,
        };
        // Version negotiation is a client-side affair: the server reports the version it supports.
        let result = initialize_value(
            self.config.info.name.clone(),
            self.config.info.version.clone(),
            copy_opt(&self.config.info.title),
            tools,
            copy_opt(&self.config.instructions),
        );
        self.phase = Phase::WaitingForInitialized(client);
        Ok(Output::Send(OutgoingMessage::result_response(id, result)))
    }

    /// Handles a `tools/call` request.
    fn handle_tool_call(&self, id: MessageId, params: &Option<Json>) -> (r: Result<
        Output<R>,
        JsonRpcError,
    >)
        ensures
            reads_call(given_params(opt_json(*params))),
            match r {
                Ok(output) => answers_call(given_params(opt_json(*params)), id@, output),
                Err(error) => call_of(given_params(opt_json(*params))) matches Err(reason) && error@
                    == (RpcErrorView::InvalidParams { msg: "tools/call: "@ + reason }),
            },
    {
        proof {
            given_params_are_canonical(opt_json(*params));
        }
        let (name, arguments) = match parse_call(params_value(params)) {
            Ok(call) => call,
            Err(error) => {
                let mut msg = "tools/call: ".to_owned();
                msg.append(error.as_str());
                return Err(JsonRpcError::InvalidParams { msg });
            },
        };
        let given: Json = match arguments {
            Some(value) => Json::from_value(value),
            None => Json::Object(Vec::new()),
        };
        let ghost asked = given;
        let tool_name: &str = name.as_str();
        let parsed = R::parse(tool_name, given);
        assert(call_ensures(R::parse, (tool_name, asked), parsed));
        match parsed {
            Ok(tool) => Ok(Output::ToolCall { tool, responder: Responder::new(id) }),
            Err(error) => Ok(Output::Send(refuse_call(error, id))),
        }
    }

    /// Handles a `tools/list` request.
    fn handle_tool_list(&self, id: MessageId) -> (r: Output<R>)
        ensures
            exists|definitions: ToolDefinitions| #[trigger]
                call_ensures(R::definitions, (), definitions) && sends(
                    r,
                    tool_list(definitions@, id@),
                ),
    {
        let definitions = R::definitions();
        let ghost listed = definitions;
        let mut definitions: Vec<ToolDefinition> = definitions.into_vec();
        let ghost all = definitions@;
        let mut tools: Vec<rust_mcp_schema::Tool> = Vec::new();
        while definitions.len() > 0
            invariant
                definitions.len() + tools.len() == all.len(),
                definitions@ == all.skip(tools.len() as int),
                forall|k: int|
                    0 <= k < tools.len() ==> crate::wire::tool_json(#[trigger] tools@[k])
                        == definition_json(all[k]@),
            decreases definitions.len(),
        {
            let ghost n = tools.len() as int;
            let definition = definitions.remove(0);
            assert(definition == all[n]);
            tools.push(definition.into_mcp_tool());
            assert(definitions@ =~= all.skip(n + 1));
        }
        assert(tools_json(tools@) =~= definitions_json(listed@));
        assert(call_ensures(R::definitions, (), listed));
        Output::Send(OutgoingMessage::result_response(id, list_tools_value(tools)))
    }

    /// Dispatches a request to the appropriate handler based on method and phase.
    fn handle_request(&mut self, id: MessageId, method: &str, params: &Option<Json>) -> (r: Result<
        Output<R>,
        JsonRpcError,
    >)
        ensures
            final(self).identity() == old(self).identity(),
            forall|output: Output<R>|
                match r {
                    Ok(made) => output == made,
                    Err(error) => sends(output, error_response(error@, id@)),
                } ==> #[trigger] answers_request(
                    old(self).identity(),
                    old(self).phase(),
                    id@,
                    method@,
                    given_params(opt_json(*params)),
                    output,
                    final(self).phase(),
                ),
    {
        let waiting: bool = matches!(self.phase, Phase::WaitingForInitialize);
        if waiting && same_text(method, "initialize") {
            return self.handle_initialize(id, params);
        }
        if !self.is_ready() {
            let mut got = "request:".to_owned();
            got.append(method);
            return Ok(self.unexpected(got));
        }
        if same_text(method, "tools/list") && R::ENABLED {
            Ok(self.handle_tool_list(id))
        } else if same_text(method, "tools/call") && R::ENABLED {
            self.handle_tool_call(id, params)
        } else {
            Err(JsonRpcError::MethodNotFound { msg: method.to_owned() })
        }
    }

    /// Shows the server and its tools to readers.
    pub fn to_string(&self) -> (r: String)
        ensures
            R::ENABLED ==> exists|definitions: ToolDefinitions| #[trigger]
                call_ensures(R::definitions, (), definitions) && r@ == server_text(
                    self.identity(),
                    Some(definitions@),
                ),
            !R::ENABLED ==> r@ == server_text(self.identity(), None),
    {
        let mut out = "# ".to_owned();
        out.append(self.config.info.name.as_str());
        out.append("\n\nVersion: ");
        out.append(self.config.info.version.as_str());
        out.append("\n");
        let ghost head = out@;
        if let Some(text) = &self.config.instructions {
            out.append("\n## Instructions\n\n");
            out.append(text.as_str());
            out.append("\n");
        }
        let ghost about = match self.identity().instructions {
            Some(text) => "\n## Instructions\n\n"@ + text + "\n"@,
            None => Seq::empty(),
        };
        assert(out@ =~= head + about);
        if R::ENABLED {
            let definitions = R::definitions();
            out.append("\n");
            out.append(definitions.to_string().as_str());
            proof {
                assert(call_ensures(R::definitions, (), definitions));
                assert(out@ =~= server_text(self.identity(), Some(definitions@)));
            }
        } else {
            assert(out@ =~= server_text(self.identity(), None));
        }
        out
    }
}

// ---------------------------------------------------------------------------------------------
// Laws

/// `ping` is answered with an empty result in every phase and changes nothing.
pub proof fn ping_is_always_answered<R: ToolRegistry>(
    identity: IdentityView,
    phase: Phase,
    id: IdView,
    params: Option<JsonView>,
    output: Output<R>,
    next: Phase,
)
    requires
        answers(
            identity,
            phase,
            MessageView::Request { id, method: "ping"@, params },
            output,
            next,
        ),
    ensures
        next == phase,
        sends(
            output,
            MessageView::ResultResponse { id, result: JsonView::Object(Seq::empty()) },
        ),
{
}

/// A server becomes ready only by the `notifications/initialized` notification after
/// `initialize`, with the client that `initialize` introduced, and then stays so.
pub proof fn ready_only_by_handshake<R: ToolRegistry>(
    identity: IdentityView,
    phase: Phase,
    message: MessageView,
    output: Output<R>,
    next: Phase,
)
    requires
        answers(identity, phase, message, output, next),
    ensures
        phase is Ready ==> next == phase,
        next is Ready && !(phase is Ready) ==> {
            &&& phase matches Phase::WaitingForInitialized(client)
            &&& next == Phase::Ready(client)
            &&& message matches MessageView::Notification { method, .. }
            &&& method == "notifications/initialized"@
        },
{
}

/// A server waits for `notifications/initialized` only after an `initialize` request whose
/// parameters introduced the client.
pub proof fn waits_only_after_initialize<R: ToolRegistry>(
    identity: IdentityView,
    phase: Phase,
    message: MessageView,
    output: Output<R>,
    next: Phase,
)
    requires
        answers(identity, phase, message, output, next),
    ensures
        next is WaitingForInitialized && next != phase ==> {
            &&& phase is WaitingForInitialize
            &&& message matches MessageView::Request { id, method, params }
            &&& method == "initialize"@
            &&& client_of(given_params(params)) == Ok::<Client, Seq<char>>(
                next->WaitingForInitialized_0,
            )
        },
        phase is WaitingForInitialized ==> !(next is WaitingForInitialize),
{
}

/// `initialize` with acceptable parameters and then `notifications/initialized` make a server
/// ready, with the client that the parameters introduce.
pub proof fn handshake_completes<R: ToolRegistry>(
    identity: IdentityView,
    id: IdView,
    params: Option<JsonView>,
    more: Option<JsonView>,
    first: Output<R>,
    between: Phase,
    second: Output<R>,
    after: Phase,
)
    requires
        client_of(given_params(params)) is Ok,
        answers(
            identity,
            Phase::WaitingForInitialize,
            MessageView::Request { id, method: "initialize"@, params },
            first,
            between,
        ),
        answers(
            identity,
            between,
            MessageView::Notification { method: "notifications/initialized"@, params: more },
            second,
            after,
        ),
    ensures
        sends(first, MessageView::ResultResponse { id, result: initialize_json(identity) }),
        second is Nothing,
        after == Phase::Ready(client_of(given_params(params))->Ok_0),
{
    reveal_strlit("initialize");
    reveal_strlit("ping");
    assert("initialize"@.len() != "ping"@.len());
}

/// The protocol version, empty capabilities, and a client's name and version are enough to begin
/// the handshake.
pub proof fn minimal_clients_are_accepted<R: ToolRegistry>(
    identity: IdentityView,
    id: IdView,
    params: Option<JsonView>,
    output: Output<R>,
    next: Phase,
)
    requires
        minimal_client(given_params(params)),
        answers(
            identity,
            Phase::WaitingForInitialize,
            MessageView::Request { id, method: "initialize"@, params },
            output,
            next,
        ),
    ensures
        sends(output, MessageView::ResultResponse { id, result: initialize_json(identity) }),
        next is WaitingForInitialized,
{
    reveal_strlit("initialize");
    reveal_strlit("ping");
    assert("initialize"@.len() != "ping"@.len());
}

/// A ready server with tools hands the name and the arguments of a plain call to its registry,
/// where absent arguments are an empty object.
pub proof fn plain_calls_reach_the_registry<R: ToolRegistry>(
    identity: IdentityView,
    phase: Phase,
    id: IdView,
    params: Option<JsonView>,
    output: Output<R>,
    next: Phase,
)
    requires
        R::ENABLED,
        phase is Ready,
        plain_call(given_params(params)),
        answers(
            identity,
            phase,
            MessageView::Request { id, method: "tools/call"@, params },
            output,
            next,
        ),
    ensures
        exists|tool: &str, given: Json, parsed: Result<R, JsonRpcError>|
            tool@ == given_params(params).get_text("name"@)->0 && given@ == given_arguments(
                given_params(params).get("arguments"@),
            ) && #[trigger] call_ensures(R::parse, (tool, given), parsed) && call_outcome(
                parsed,
                id,
                output,
            ),
{
    reveal_strlit("ping");
    reveal_strlit("tools/list");
    reveal_strlit("tools/call");
    assert("tools/call"@.len() != "ping"@.len());
    assert("tools/call"@[6] != "tools/list"@[6]);
}

/// The identifier that a reply carries.
pub open spec fn reply_id(message: MessageView) -> Option<IdView> {
    match message {
        MessageView::ResultResponse { id, .. } => Some(id),
        MessageView::ErrorResponse { id, .. } => id,
        _ => None,
    }
}

/// A message is sent only in reply to a request, and carries its identifier.
pub proof fn replies_carry_the_request_id<R: ToolRegistry>(
    identity: IdentityView,
    phase: Phase,
    message: MessageView,
    output: Output<R>,
    next: Phase,
)
    requires
        answers(identity, phase, message, output, next),
    ensures
        output matches Output::Send(sent) ==> message matches MessageView::Request { id, .. }
            && reply_id(sent@) == Some(id),
        output matches Output::ToolCall { responder, .. } ==> message matches MessageView::Request {
            id,
            ..
        } && responder@ == id,
{
}

/// Every request is answered, handed on as a tool call, or closes the connection.
pub proof fn requests_are_never_ignored<R: ToolRegistry>(
    identity: IdentityView,
    phase: Phase,
    message: MessageView,
    output: Output<R>,
    next: Phase,
)
    requires
        answers(identity, phase, message, output, next),
        message is Request,
    ensures
        !(output is Nothing),
{
}

/// Until the handshake is complete a server answers nothing but `ping` and the `initialize` that
/// begins it; every other request closes the connection and leaves the phase as it is.
pub proof fn requests_wait_for_handshake<R: ToolRegistry>(
    identity: IdentityView,
    phase: Phase,
    id: IdView,
    method: Seq<char>,
    params: Option<JsonView>,
    output: Output<R>,
    next: Phase,
)
    requires
        answers(identity, phase, MessageView::Request { id, method, params }, output, next),
        !(phase is Ready),
        method != "ping"@,
        !(phase is WaitingForInitialize && method == "initialize"@),
    ensures
        next == phase,
        closes(output, phase, "request:"@ + method),
{
}

/// A tool is called only on a ready server with tools.
pub proof fn tools_wait_for_handshake<R: ToolRegistry>(
    identity: IdentityView,
    phase: Phase,
    message: MessageView,
    output: Output<R>,
    next: Phase,
)
    requires
        answers(identity, phase, message, output, next),
        output is ToolCall,
    ensures
        phase is Ready,
        R::ENABLED,
        message matches MessageView::Request { method, .. } && method == "tools/call"@,
{
}

/// A ready server without tools refuses `tools/list` and `tools/call` as unknown methods.
pub proof fn no_tools_means_no_methods<R: ToolRegistry>(
    identity: IdentityView,
    phase: Phase,
    id: IdView,
    method: Seq<char>,
    params: Option<JsonView>,
    output: Output<R>,
    next: Phase,
)
    requires
        !R::ENABLED,
        phase is Ready,
        method == "tools/list"@ || method == "tools/call"@,
        answers(identity, phase, MessageView::Request { id, method, params }, output, next),
    ensures
        sends(output, error_response(RpcErrorView::MethodNotFound { msg: method }, id)),
{
    reveal_strlit("ping");
    reveal_strlit("tools/list");
    reveal_strlit("tools/call");
    assert(method.len() != "ping"@.len());
}

/// A ready server on the empty registry refuses `tools/list` and `tools/call` as unknown methods,
/// and stays ready.
pub proof fn empty_registry_refuses_tools(
    identity: IdentityView,
    phase: Phase,
    id: IdView,
    method: Seq<char>,
    params: Option<JsonView>,
    output: Output<NoTools>,
    next: Phase,
)
    requires
        phase is Ready,
        method == "tools/list"@ || method == "tools/call"@,
        answers(identity, phase, MessageView::Request { id, method, params }, output, next),
    ensures
        sends(output, error_response(RpcErrorView::MethodNotFound { msg: method }, id)),
        next == phase,
{
    no_tools_is_disabled();
    no_tools_means_no_methods::<NoTools>(identity, phase, id, method, params, output, next);
    reveal_strlit("ping");
    reveal_strlit("tools/list");
    reveal_strlit("tools/call");
    assert(method.len() != "ping"@.len());
}

/// A server built on the empty registry advertises no tools.
pub proof fn empty_registry_advertises_no_tools(template: BuilderView)
    ensures
        built_identity(template, <NoTools as ToolRegistry>::ENABLED).tools is None,
{
    no_tools_is_disabled();
}

/// A ready server refuses a method that it does not have, and stays ready.
pub proof fn unknown_methods_are_refused<R: ToolRegistry>(
    identity: IdentityView,
    phase: Phase,
    id: IdView,
    method: Seq<char>,
    params: Option<JsonView>,
    output: Output<R>,
    next: Phase,
)
    requires
        phase is Ready,
        method != "ping"@ && method != "tools/list"@ && method != "tools/call"@,
        answers(identity, phase, MessageView::Request { id, method, params }, output, next),
    ensures
        next == phase,
        sends(
            output,
            MessageView::ErrorResponse {
                id: Some(id),
                code: -32601,
                message: "method not found: "@ + method,
                data: None,
            },
        ),
{
}

/// A ready server with tools lists what its registry defines.
pub proof fn defined_tools_are_listed<R: ToolRegistry>(
    identity: IdentityView,
    phase: Phase,
    id: IdView,
    params: Option<JsonView>,
    output: Output<R>,
    next: Phase,
)
    requires
        R::ENABLED,
        phase is Ready,
        answers(
            identity,
            phase,
            MessageView::Request { id, method: "tools/list"@, params },
            output,
            next,
        ),
    ensures
        next == phase,
        exists|definitions: ToolDefinitions| #[trigger]
            call_ensures(R::definitions, (), definitions) && sends(
                output,
                tool_list(definitions@, id),
            ),
{
    reveal_strlit("ping");
    reveal_strlit("tools/list");
    assert("tools/list"@.len() != "ping"@.len());
}

/// Whether a server in a phase reads the parameters of a method, and cannot for a reason.
pub open spec fn cannot_read(
    phase: Phase,
    method: Seq<char>,
    params: JsonView,
    reason: Seq<char>,
) -> bool {
    match phase {
        Phase::WaitingForInitialize => method == "initialize"@ && client_of(params) == Err::<
            Client,
            Seq<char>,
        >(reason),
        Phase::Ready(_) => method == "tools/call"@ && call_of(params) == Err::<
            (Seq<char>, Option<JsonView>),
            Seq<char>,
        >(reason),
        _ => false,
    }
}

/// Parameters that cannot be read are refused as such, with the reason, and change nothing.
pub proof fn unreadable_parameters_are_refused<R: ToolRegistry>(
    identity: IdentityView,
    phase: Phase,
    id: IdView,
    method: Seq<char>,
    params: Option<JsonView>,
    reason: Seq<char>,
    output: Output<R>,
    next: Phase,
)
    requires
        answers(identity, phase, MessageView::Request { id, method, params }, output, next),
        cannot_read(phase, method, given_params(params), reason),
        phase is Ready ==> R::ENABLED,
    ensures
        next == phase,
        sends(
            output,
            MessageView::ErrorResponse {
                id: Some(id),
                code: -32602,
                message: "invalid params: "@ + (method + ": "@ + reason),
                data: None,
            },
        ),
{
    reveal_strlit("ping");
    reveal_strlit("initialize");
    reveal_strlit("tools/list");
    reveal_strlit("tools/call");
    reveal_strlit(": ");
    reveal_strlit("initialize: ");
    reveal_strlit("tools/call: ");
    assert("initialize"@.len() != "ping"@.len() && "tools/call"@.len() != "ping"@.len());
    assert("tools/call"@[6] != "tools/list"@[6]);
    assert("initialize: "@ + reason =~= "initialize"@ + ": "@ + reason);
    assert("tools/call: "@ + reason =~= "tools/call"@ + ": "@ + reason);
}

/// What a server expects in a phase in which it does not take every message.
pub proof fn unexpected_messages_close_the_connection<R: ToolRegistry>(
    identity: IdentityView,
    phase: Phase,
    message: MessageView,
    output: Output<R>,
    next: Phase,
)
    requires
        answers(identity, phase, message, output, next),
    ensures
        message is ResultResponse || message is ErrorResponse ==> output is ProtocolError,
        message is Notification && phase is WaitingForInitialize ==> output is ProtocolError,
        message is Notification && phase is Ready ==> output is Nothing,
        output matches Output::ProtocolError(error) ==> {
            &&& next == phase
            &&& phase is WaitingForInitialize ==> error@.expected == "initialize"@
            &&& phase is WaitingForInitialized ==> error@.expected == "notifications/initialized"@
            &&& phase is Ready ==> error@.expected == "anything, really"@
            &&& message matches MessageView::Request { method, .. } ==> error@.got == "request:"@
                + method
            &&& message matches MessageView::Notification { method, .. } ==> error@.got
                == "notification:"@ + method
            &&& message is ResultResponse ==> error@.got == "response"@
            &&& message is ErrorResponse ==> error@.got == "error"@
        },
{
}

/// A request without parameters is answered like one with an empty object of them, and a call
/// without arguments like one with an empty object of arguments.
pub proof fn absent_parameters_are_empty_objects<R: ToolRegistry>(
    identity: IdentityView,
    phase: Phase,
    id: IdView,
    method: Seq<char>,
    output: Output<R>,
    next: Phase,
)
    ensures
        answers(
            identity,
            phase,
            MessageView::Request { id, method, params: None },
            output,
            next,
        ) <==> answers(
            identity,
            phase,
            MessageView::Request { id, method, params: Some(JsonView::Object(Seq::empty())) },
            output,
            next,
        ),
        given_arguments(None) == given_arguments(Some(JsonView::Object(Seq::empty()))),
{
    let none = JsonView::Object(Seq::empty());
    assert(canonical(none));
    canonical_is_settled(none);
}

/// Parameters that are canonical, and arguments, are handed on as they are.
pub proof fn parameters_are_handed_on(params: JsonView, arguments: JsonView)
    requires
        canonical(params),
    ensures
        given_params(Some(params)) == params,
        given_arguments(Some(arguments)) == arguments,
{
    canonical_is_settled(params);
}

} // verus!
