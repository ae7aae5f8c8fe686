//! JSON-RPC messages.

use vstd::prelude::*;
use vstd::string::StringExecFns;

use crate::json::{
    canonical, canonical_is_settled, compact_json, compact_value, json_of, settled, Json, JsonView,
};

verus! {

// ---------------------------------------------------------------------------------------------
// The model

/// Identifier of a request.
#[derive(Debug)]
pub enum MessageId {
    String(String),
    Integer(i64),
}

/// An identifier as mathematics.
pub enum IdView {
    Text(Seq<char>),
    Integer(int),
}

impl View for MessageId {
    type V = IdView;

    open spec fn view(&self) -> IdView {
        match self {
            MessageId::String(text) => IdView::Text(text@),
            MessageId::Integer(n) => IdView::Integer(*n as int),
        }
    }
}

impl MessageId {
    /// Copies an identifier.
    pub fn copy(&self) -> (r: MessageId)
        ensures
            r@ == self@,
    {
        match self {
            MessageId::String(text) => MessageId::String(text.clone()),
            MessageId::Integer(n) => MessageId::Integer(*n),
        }
    }
}

/// Request that expects a response.
pub struct Request {
    pub id: MessageId,
    pub method: String,
    /// Parameters, always an object.
    pub params: Option<Json>,
}

/// Message that expects no response.
pub struct Notification {
    pub method: String,
    /// Parameters, always an object.
    pub params: Option<Json>,
}

/// Successful response.
pub struct ResultResponse {
    pub id: MessageId,
    /// Result, always an object.
    pub result: Json,
}

/// Error that a response reports.
pub struct ErrorBody {
    pub code: i64,
    pub message: String,
    pub data: Option<Json>,
}

/// Error response.
pub struct ErrorResponse {
    pub id: Option<MessageId>,
    pub error: ErrorBody,
}

/// JSON-RPC message.
pub enum Message {
    Request(Request),
    Notification(Notification),
    ResultResponse(ResultResponse),
    ErrorResponse(ErrorResponse),
}

/// A message as mathematics.
#[allow(inconsistent_fields)]
pub enum MessageView {
    Request { id: IdView, method: Seq<char>, params: Option<JsonView> },
    Notification { method: Seq<char>, params: Option<JsonView> },
    ResultResponse { id: IdView, result: JsonView },
    ErrorResponse { id: Option<IdView>, code: int, message: Seq<char>, data: Option<JsonView> },
}

/// An optional value as mathematics.
pub open spec fn opt_json(value: Option<Json>) -> Option<JsonView> {
    match value {
        Some(value) => Some(value@),
        None => None,
    }
}

/// An optional identifier as mathematics.
pub open spec fn opt_id(id: Option<MessageId>) -> Option<IdView> {
    match id {
        Some(id) => Some(id@),
        None => None,
    }
}

impl View for Message {
    type V = MessageView;

    open spec fn view(&self) -> MessageView {
        match self {
            Message::Request(request) => MessageView::Request {
                id: request.id@,
                method: request.method@,
                params: opt_json(request.params),
            },
            Message::Notification(notification) => MessageView::Notification {
                method: notification.method@,
                params: opt_json(notification.params),
            },
            Message::ResultResponse(response) => MessageView::ResultResponse {
                id: response.id@,
                result: response.result@,
            },
            Message::ErrorResponse(response) => MessageView::ErrorResponse {
                id: opt_id(response.id),
                code: response.error.code as int,
                message: response.error.message@,
                data: opt_json(response.error.data),
            },
        }
    }
}

impl Request {
    /// Creates a request.
    pub fn new(id: MessageId, method: String, params: Option<Json>) -> (r: Request)
        ensures
            r == (Request { id, method, params }),
    {
        Request { id, method, params }
    }
}

impl Notification {
    /// Creates a notification.
    pub fn new(method: String, params: Option<Json>) -> (r: Notification)
        ensures
            r == (Notification { method, params }),
    {
        Notification { method, params }
    }
}

/// The JSON of an identifier.
pub open spec fn id_json(id: IdView) -> JsonView {
    match id {
        IdView::Text(text) => JsonView::Text(text),
        IdView::Integer(n) => JsonView::Integer(n),
    }
}

/// An object member that is there if it has a value.
pub open spec fn optional_member(key: Seq<char>, value: Option<JsonView>) -> Seq<
    (Seq<char>, JsonView),
> {
    match value {
        Some(value) => seq![(key, value)],
        None => Seq::empty(),
    }
}

/// The JSON object of a message.
pub open spec fn message_json(message: MessageView) -> JsonView {
    let version = ("jsonrpc"@, JsonView::Text("2.0"@));
    JsonView::Object(
        match message {
            MessageView::Request { id, method, params } => seq![
                ("id"@, id_json(id)),
                version,
                ("method"@, JsonView::Text(method)),
            ] + optional_member("params"@, params),
            MessageView::Notification { method, params } => seq![
                version,
                ("method"@, JsonView::Text(method)),
            ] + optional_member("params"@, params),
            MessageView::ResultResponse { id, result } => seq![
                ("id"@, id_json(id)),
                version,
                ("result"@, result),
            ],
            MessageView::ErrorResponse { id, code, message, data } => seq![
                (
                    "error"@,
                    JsonView::Object(
                        seq![("code"@, JsonView::Integer(code))] + optional_member("data"@, data)
                            + seq![("message"@, JsonView::Text(message))],
                    ),
                ),
            ] + optional_member(
                "id"@,
                match id {
                    Some(id) => Some(id_json(id)),
                    None => None,
                },
            ) + seq![version],
        },
    )
}

/// Whether the values that a message carries are canonical, and its parameters and its result
/// objects.
pub open spec fn message_sound(message: MessageView) -> bool {
    match message {
        MessageView::Request { params, .. } => params matches Some(value) ==> value is Object
            && canonical(value),
        MessageView::Notification { params, .. } => params matches Some(value) ==> value is Object
            && canonical(value),
        MessageView::ResultResponse { result, .. } => result is Object && canonical(result),
        MessageView::ErrorResponse { data, .. } => data matches Some(value) ==> canonical(value),
    }
}

// ---------------------------------------------------------------------------------------------
// Messages of `rust_mcp_schema`

/// `rust_mcp_schema`'s message.
#[verifier::external_type_specification]
#[verifier::external_body]
pub struct ExMessage(rust_mcp_schema::JsonrpcMessage);

/// `rust_mcp_schema`'s request identifier.
#[verifier::external_type_specification]
#[verifier::external_body]
pub struct ExRequestId(rust_mcp_schema::RequestId);

/// What a `rust_mcp_schema` message holds.
pub uninterp spec fn message_of(message: rust_mcp_schema::JsonrpcMessage) -> MessageView;

/// What a `rust_mcp_schema` identifier holds.
pub uninterp spec fn id_of(id: rust_mcp_schema::RequestId) -> IdView;

/// The message that `serde_json::from_str` reads, or the text of its error.
pub uninterp spec fn parsed_message(line: Seq<char>) -> Result<MessageView, Seq<char>>;

/// A message with its values still of `serde_json`.
pub enum RawMessage {
    Request(rust_mcp_schema::RequestId, String, Option<serde_json::Value>),
    Notification(String, Option<serde_json::Value>),
    ResultResponse(rust_mcp_schema::RequestId, serde_json::Value),
    ErrorResponse(
        Option<rust_mcp_schema::RequestId>,
        i64,
        String,
        Option<serde_json::Value>,
    ),
}

/// An optional value of `serde_json` as mathematics.
pub open spec fn opt_value(value: Option<serde_json::Value>) -> Option<JsonView> {
    match value {
        Some(value) => Some(json_of(value)),
        None => None,
    }
}

impl View for RawMessage {
    type V = MessageView;

    open spec fn view(&self) -> MessageView {
        match self {
            RawMessage::Request(id, method, params) => MessageView::Request {
                id: id_of(*id),
                method: method@,
                params: opt_value(*params),
            },
            RawMessage::Notification(method, params) => MessageView::Notification {
                method: method@,
                params: opt_value(*params),
            },
            RawMessage::ResultResponse(id, result) => MessageView::ResultResponse {
                id: id_of(*id),
                result: json_of(*result),
            },
            RawMessage::ErrorResponse(id, code, message, data) => MessageView::ErrorResponse {
                id: match id {
                    Some(id) => Some(id_of(*id)),
                    None => None,
                },
                code: *code as int,
                message: message@,
                data: opt_value(*data),
            },
        }
    }
}

/// Takes a `rust_mcp_schema::RequestId` apart.
#[verifier::external_body]
fn open_id(id: rust_mcp_schema::RequestId) -> (r: MessageId)
    ensures
        r@ == id_of(id),
{
    match id {
        rust_mcp_schema::RequestId::String(text) => MessageId::String(text),
        rust_mcp_schema::RequestId::Integer(n) => MessageId::Integer(n),
    }
}

/// Makes a `rust_mcp_schema::RequestId`.
#[verifier::external_body]
fn close_id(id: MessageId) -> (r: rust_mcp_schema::RequestId)
    ensures
        id_of(r) == id@,
{
    match id {
        MessageId::String(text) => rust_mcp_schema::RequestId::String(text),
        MessageId::Integer(n) => rust_mcp_schema::RequestId::Integer(n),
    }
}

/// Takes a `rust_mcp_schema::JsonrpcMessage` apart by its variant. Parameters and results are
/// objects.
#[verifier::external_body]
fn open_message(message: rust_mcp_schema::JsonrpcMessage) -> (r: RawMessage)
    ensures
        r@ == message_of(message),
        match r@ {
            MessageView::Request { params, .. } => params matches Some(value) ==> value is Object,
            MessageView::Notification { params, .. } => params matches Some(value) ==> value is Object,
            MessageView::ResultResponse { result, .. } => result is Object,
            MessageView::ErrorResponse { .. } => true,
        },
{
    match message {
        rust_mcp_schema::JsonrpcMessage::Request(m) => {
            RawMessage::Request(m.id, m.method, m.params.map(serde_json::Value::Object))
        }
        rust_mcp_schema::JsonrpcMessage::Notification(m) => {
            RawMessage::Notification(m.method, m.params.map(serde_json::Value::Object))
        }
        rust_mcp_schema::JsonrpcMessage::ResultResponse(m) => {
            RawMessage::ResultResponse(m.id, serde_json::to_value(m.result).unwrap_or_default())
        }
        rust_mcp_schema::JsonrpcMessage::ErrorResponse(m) => {
            RawMessage::ErrorResponse(m.id, m.error.code, m.error.message, m.error.data)
        }
    }
}

/// Makes a `rust_mcp_schema::JsonrpcRequest`.
#[verifier::external_body]
fn close_request(
    id: rust_mcp_schema::RequestId,
    method: String,
    params: Option<serde_json::Value>,
) -> (r: rust_mcp_schema::JsonrpcMessage)
    requires
        opt_value(params) matches Some(value) ==> value is Object,
    ensures
        message_of(r) == (MessageView::Request {
            id: id_of(id),
            method: method@,
            params: opt_value(params),
        }),
{
    let params = params.and_then(|value| value.as_object().cloned());
    rust_mcp_schema::JsonrpcRequest::new(id, method, params).into()
}

/// Makes a `rust_mcp_schema::JsonrpcNotification`.
#[verifier::external_body]
fn close_notification(method: String, params: Option<serde_json::Value>) -> (r:
    rust_mcp_schema::JsonrpcMessage)
    requires
        opt_value(params) matches Some(value) ==> value is Object,
    ensures
        message_of(r) == (MessageView::Notification { method: method@, params: opt_value(params) }),
{
    let params = params.and_then(|value| value.as_object().cloned());
    rust_mcp_schema::JsonrpcNotification::new(method, params).into()
}

/// Makes a `rust_mcp_schema::JsonrpcResultResponse`.
#[verifier::external_body]
fn close_result(id: rust_mcp_schema::RequestId, result: serde_json::Value) -> (r:
    rust_mcp_schema::JsonrpcMessage)
    requires
        json_of(result) is Object,
    ensures
        message_of(r) == (MessageView::ResultResponse { id: id_of(id), result: json_of(result) }),
{
    let result = rust_mcp_schema::Result { meta: None, extra: result.as_object().cloned() };
    rust_mcp_schema::JsonrpcResultResponse::new(id, result).into()
}

/// Makes a `rust_mcp_schema::JsonrpcErrorResponse`.
#[verifier::external_body]
fn close_error(
    id: Option<rust_mcp_schema::RequestId>,
    code: i64,
    message: String,
    data: Option<serde_json::Value>,
) -> (r: rust_mcp_schema::JsonrpcMessage)
    ensures
        message_of(r) == (MessageView::ErrorResponse {
            id: match id {
                Some(id) => Some(id_of(id)),
                None => None,
            },
            code: code as int,
            message: message@,
            data: opt_value(data),
        }),
{
    let error = rust_mcp_schema::RpcError { code, data, message };
    rust_mcp_schema::JsonrpcErrorResponse::new(error, id).into()
}

/// `serde_json::from_str` on a `rust_mcp_schema::JsonrpcMessage`: reads one message. An error comes
/// as its text.
#[verifier::external_body]
fn decode_message(line: &str) -> (r: Result<rust_mcp_schema::JsonrpcMessage, String>)
    ensures
        match r {
            Ok(message) => parsed_message(line@) == Ok::<MessageView, Seq<char>>(
                message_of(message),
            ),
            Err(error) => parsed_message(line@) == Err::<MessageView, Seq<char>>(error@),
        },
{
    serde_json::from_str(line).map_err(|error| error.to_string())
}

/// `serde_json::to_value` on a `rust_mcp_schema::JsonrpcMessage`: the message's JSON object. A message
/// always has one.
#[verifier::external_body]
fn message_value(message: rust_mcp_schema::JsonrpcMessage) -> (r: serde_json::Value)
    ensures
        json_of(r) == message_json(message_of(message)),
{
    serde_json::to_value(message).unwrap_or_default()
}

// ---------------------------------------------------------------------------------------------
// Reading and writing

/// Reads an optional value of `serde_json`.
fn read_opt(value: Option<serde_json::Value>) -> (r: Option<Json>)
    ensures
        opt_json(r) == opt_value(value),
        opt_json(r) matches Some(view) ==> canonical(view),
{
    match value {
        Some(value) => Some(Json::from_value(value)),
        None => None,
    }
}

/// Makes an optional value of `serde_json`.
fn write_opt(value: &Option<Json>) -> (r: Option<serde_json::Value>)
    ensures
        match *value {
            Some(value) => opt_value(r) == Some(settled(value@)),
            None => opt_value(r) is None,
        },
{
    match value {
        Some(value) => Some(value.to_value()),
        None => None,
    }
}

/// Error returned when parsing a line fails.
#[derive(Debug)]
pub struct ParseError(String);

impl ParseError {
    /// Why the line could not be read.
    pub closed spec fn reason(&self) -> Seq<char> {
        self.0@
    }

    /// States the error.
    pub fn to_string(&self) -> (r: String)
        ensures
            r@ == "failed to parse JSON-RPC message: "@ + self.reason(),
    {
        let mut out = "failed to parse JSON-RPC message: ".to_owned();
        out.append(self.0.as_str());
        out
    }
}

/// Parses a line of input into a JSON-RPC message.
pub fn parse_line(line: &str) -> (r: Result<Message, ParseError>)
    ensures
        match r {
            Ok(message) => parsed_message(line@) == Ok::<MessageView, Seq<char>>(message@)
                && message_sound(message@),
            Err(error) => parsed_message(line@) == Err::<MessageView, Seq<char>>(error.reason()),
        },
{
    match decode_message(line) {
        Ok(message) => Ok(
            match open_message(message) {
                RawMessage::Request(id, method, params) => Message::Request(
                    Request { id: open_id(id), method, params: read_opt(params) },
                ),
                RawMessage::Notification(method, params) => Message::Notification(
                    Notification { method, params: read_opt(params) },
                ),
                RawMessage::ResultResponse(id, result) => Message::ResultResponse(
                    ResultResponse { id: open_id(id), result: Json::from_value(result) },
                ),
                RawMessage::ErrorResponse(id, code, message, data) => {
                    let id: Option<MessageId> = match id {
                        Some(id) => Some(open_id(id)),
                        None => None,
                    };
                    Message::ErrorResponse(
                        ErrorResponse {
                            id,
                            error: ErrorBody { code, message, data: read_opt(data) },
                        },
                    )
                },
            },
        ),
        Err(error) => Err(ParseError(error)),
    }
}

impl Message {
    /// Writes the message as one line of JSON, without the line break.
    pub fn to_text(&self) -> (r: String)
        requires
            message_sound(self@),
        ensures
            r@ == compact_json(message_json(self@)),
    {
        let message = match self {
            Message::Request(request) => {
                proof {
                    if request.params is Some {
                        canonical_is_settled(request.params->0@);
                    }
                }
                close_request(
                    close_id(request.id.copy()),
                    request.method.clone(),
                    write_opt(&request.params),
                )
            },
            Message::Notification(notification) => {
                proof {
                    if notification.params is Some {
                        canonical_is_settled(notification.params->0@);
                    }
                }
                close_notification(notification.method.clone(), write_opt(&notification.params))
            },
            Message::ResultResponse(response) => {
                proof {
                    canonical_is_settled(response.result@);
                }
                close_result(close_id(response.id.copy()), response.result.to_value())
            },
            Message::ErrorResponse(response) => {
                proof {
                    if response.error.data is Some {
                        canonical_is_settled(response.error.data->0@);
                    }
                }
                let id: Option<rust_mcp_schema::RequestId> = match &response.id {
                    Some(id) => Some(close_id(id.copy())),
                    None => None,
                };
                close_error(
                    id,
                    response.error.code,
                    response.error.message.clone(),
                    write_opt(&response.error.data),
                )
            },
        };
        compact_value(&message_value(message))
    }
}

/// What an error report calls a message.
pub open spec fn described(message: MessageView) -> Seq<char> {
    match message {
        MessageView::Request { method, .. } => "request:"@ + method,
        MessageView::ResultResponse { .. } => "response"@,
        MessageView::Notification { method, .. } => "notification:"@ + method,
        MessageView::ErrorResponse { .. } => "error"@,
    }
}

/// Describes a message for error reporting.
pub fn describe_message(message: &Message) -> (r: String)
    ensures
        r@ == described(message@),
{
    match message {
        Message::Request(request) => {
            let mut out = "request:".to_owned();
            out.append(request.method.as_str());
            out
        },
        Message::ResultResponse(_) => "response".to_owned(),
        Message::Notification(notification) => {
            let mut out = "notification:".to_owned();
            out.append(notification.method.as_str());
            out
        },
        Message::ErrorResponse(_) => "error".to_owned(),
    }
}

} // verus!
