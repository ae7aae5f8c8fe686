//! HTTP exchanges of the Streamable HTTP transport.
//!
//! One endpoint serves `POST` for client messages and `DELETE` for session termination. `GET` is
//! not allowed. A session is created by a `POST` without a session ID.

use vstd::prelude::*;
use vstd::string::StringExecFns;
use vstd::utf8::{decode_utf8, valid_utf8};

use crate::error::ProtocolError;
use crate::io::session_id::{parsed_id, McpSessionId, ParseSessionIdError};
use crate::io::storage::{
    hands_on, stores, InMemoryStorage, SessionEntry, DEFAULT_CAPACITY, DEFAULT_MIN_EVICTION_AGE,
};
use crate::json::{compact_json, JsonView};
use crate::message::{
    message_json, message_sound, parse_line, parsed_message, IdView, Message, MessageView,
};
use crate::registry::ToolRegistry;
use crate::server::{
    built_identity, client_of, given_params, tool_response, BuilderView, McpServer,
    McpServerBuilder, OutgoingMessage, Output, Phase, Responder,
};
use crate::tools::IntoToolResponse;
use crate::wire::initialize_json;

verus! {

// ---------------------------------------------------------------------------------------------
// Session headers

/// The session header of a request.
pub enum SessionHeader {
    /// There is none.
    Absent,
    /// Its value is not text.
    NotText,
    /// Its value.
    Text(String),
}

/// Rejection type when session ID extraction fails.
#[derive(Debug)]
pub enum SessionIdRejection {
    /// The `Mcp-Session-Id` header is missing.
    Missing,
    /// The header value is not valid UTF-8.
    InvalidUtf8,
    /// The header value failed to parse.
    InvalidFormat(ParseSessionIdError),
}

/// The text of a rejection.
pub open spec fn rejection_text(rejection: SessionIdRejection) -> Seq<char> {
    match rejection {
        SessionIdRejection::Missing => "missing session ID header `mcp-session-id`"@,
        SessionIdRejection::InvalidUtf8 => "session ID header not valid UTF-8"@,
        SessionIdRejection::InvalidFormat(_) => "invalid session ID"@,
    }
}

impl SessionIdRejection {
    /// States the rejection.
    pub fn to_string(&self) -> (r: String)
        ensures
            r@ == rejection_text(*self),
    {
        match self {
            SessionIdRejection::Missing => "missing session ID header `mcp-session-id`".to_owned(),
            SessionIdRejection::InvalidUtf8 => "session ID header not valid UTF-8".to_owned(),
            SessionIdRejection::InvalidFormat(_) => "invalid session ID".to_owned(),
        }
    }

    /// Makes the response to a rejected request.
    pub fn into_response(self) -> (r: HttpResponse)
        ensures
            r@ == text_reply(400, rejection_text(self)),
    {
        HttpResponse::text(400, self.to_string())
    }
}

/// Extractor for an optional session ID.
#[derive(Clone, Copy, Debug)]
pub struct OptionalSessionId(pub Option<McpSessionId>);

impl McpSessionId {
    /// Extracts the session ID from a request's session header.
    pub fn from_header(header: &SessionHeader) -> (r: Result<McpSessionId, SessionIdRejection>)
        ensures
            match *header {
                SessionHeader::Absent => r matches Err(rejection) && rejection is Missing,
                SessionHeader::NotText => r matches Err(rejection) && rejection is InvalidUtf8,
                SessionHeader::Text(text) => match r {
                    Ok(id) => parsed_id(text@) == Some(id.raw()),
                    Err(rejection) => parsed_id(text@) is None && rejection is InvalidFormat,
                },
            },
    {
        match header {
            SessionHeader::Absent => Err(SessionIdRejection::Missing),
            SessionHeader::NotText => Err(SessionIdRejection::InvalidUtf8),
            SessionHeader::Text(text) => match McpSessionId::parse(text.as_str()) {
                Ok(id) => Ok(id),
                Err(error) => Err(SessionIdRejection::InvalidFormat(error)),
            },
        }
    }
}

impl OptionalSessionId {
    /// Extracts the session ID from a request's session header, if it has one.
    pub fn from_header(header: &SessionHeader) -> (r: Result<
        OptionalSessionId,
        SessionIdRejection,
    >)
        ensures
            match *header {
                SessionHeader::Absent => r matches Ok(id) && id.0 is None,
                SessionHeader::NotText => r matches Err(rejection) && rejection is InvalidUtf8,
                SessionHeader::Text(text) => match r {
                    Ok(id) => id.0 matches Some(found) && parsed_id(text@) == Some(found.raw()),
                    Err(rejection) => parsed_id(text@) is None && rejection is InvalidFormat,
                },
            },
    {
        match header {
            SessionHeader::Absent => Ok(OptionalSessionId(None)),
            _ => match McpSessionId::from_header(header) {
                Ok(id) => Ok(OptionalSessionId(Some(id))),
                Err(rejection) => Err(rejection),
            },
        }
    }
}

// ---------------------------------------------------------------------------------------------
// Responses

/// Body of a response.
#[derive(Debug)]
pub enum ResponseBody {
    /// Nothing.
    Empty,
    /// Plain text.
    Text(String),
    /// JSON, sent as `application/json`.
    Json(String),
}

/// Response to a request.
#[derive(Debug)]
pub struct HttpResponse {
    /// Status code.
    pub status: u16,
    /// Body.
    pub body: ResponseBody,
    /// Session to name in the session header.
    pub session: Option<McpSessionId>,
}

/// The body of a response as mathematics.
pub enum BodyView {
    Empty,
    Text(Seq<char>),
    Json(Seq<char>),
}

/// A response as mathematics.
pub struct ReplyView {
    pub status: u16,
    pub body: BodyView,
    pub session: Option<u128>,
}

impl View for HttpResponse {
    type V = ReplyView;

    open spec fn view(&self) -> ReplyView {
        ReplyView {
            status: self.status,
            body: match self.body {
                ResponseBody::Empty => BodyView::Empty,
                ResponseBody::Text(text) => BodyView::Text(text@),
                ResponseBody::Json(text) => BodyView::Json(text@),
            },
            session: match self.session {
                Some(id) => Some(id.raw()),
                None => None,
            },
        }
    }
}

/// A response without a body.
pub open spec fn empty_reply(status: u16) -> ReplyView {
    ReplyView { status, body: BodyView::Empty, session: None }
}

/// A response with a text.
pub open spec fn text_reply(status: u16, text: Seq<char>) -> ReplyView {
    ReplyView { status, body: BodyView::Text(text), session: None }
}

/// A response with a message, which names its session.
pub open spec fn message_reply(message: MessageView, session: u128) -> ReplyView {
    ReplyView {
        status: 200,
        body: BodyView::Json(compact_json(message_json(message))),
        session: Some(session),
    }
}

impl HttpResponse {
    /// Makes a response without a body.
    pub fn empty(status: u16) -> (r: HttpResponse)
        ensures
            r@ == empty_reply(status),
    {
        HttpResponse { status, body: ResponseBody::Empty, session: None }
    }

    /// Makes a response with a text.
    pub fn text(status: u16, text: String) -> (r: HttpResponse)
        ensures
            r@ == text_reply(status, text@),
    {
        HttpResponse { status, body: ResponseBody::Text(text), session: None }
    }
}

/// Makes the response that carries a message.
pub fn json_response(message: &OutgoingMessage, session_id: McpSessionId) -> (r: HttpResponse)
    ensures
        r@ == message_reply(message@, session_id.raw()),
{
    HttpResponse {
        status: 200,
        body: ResponseBody::Json(message.as_inner().to_text()),
        session: Some(session_id),
    }
}

/// Makes the response to a failed creation of a session.
pub fn creation_failure(reason: &str) -> (r: HttpResponse)
    ensures
        r@ == text_reply(503, "storage error: "@ + reason@),
{
    let mut text = "storage error: ".to_owned();
    text.append(reason);
    HttpResponse::text(503, text)
}

/// Makes the response to a failed access to a session.
pub fn access_failure(reason: &str) -> (r: HttpResponse)
    ensures
        r@ == text_reply(500, "storage error: "@ + reason@),
{
    let mut text = "storage error: ".to_owned();
    text.append(reason);
    HttpResponse::text(500, text)
}

/// Responds to `GET`, which is not allowed.
pub fn handle_get() -> (r: HttpResponse)
    ensures
        r@ == empty_reply(405),
{
    HttpResponse::empty(405)
}

/// Responds to a removed session, or to one that was not there.
pub fn deletion_response(existed: bool) -> (r: HttpResponse)
    ensures
        r@ == empty_reply(
            if existed {
                204
            } else {
                404
            },
        ),
{
    if existed {
        HttpResponse::empty(204)
    } else {
        HttpResponse::empty(404)
    }
}

/// `std`'s `str::from_utf8`: the text that bytes encode, if they are UTF-8.
#[verifier::external_body]
fn decode_text(bytes: &[u8]) -> (r: Option<&str>)
    ensures
        match r {
            Some(text) => valid_utf8(bytes@) && text@ == decode_utf8(bytes@),
            None => !valid_utf8(bytes@) && r is None,
        },
{
    std::str::from_utf8(bytes).ok()
}

/// The message that a request body holds, or the response to a bad one.
pub open spec fn body_message(body: Seq<u8>) -> Result<MessageView, ReplyView> {
    if !valid_utf8(body) {
        Err(text_reply(400, "invalid UTF-8"@))
    } else {
        match parsed_message(decode_utf8(body)) {
            Ok(message) => Ok(message),
            Err(reason) => Err(
                text_reply(
                    400,
                    "invalid JSON-RPC: "@ + ("failed to parse JSON-RPC message: "@ + reason),
                ),
            ),
        }
    }
}

/// Reads the message of a request body.
pub fn read_body(body: &[u8]) -> (r: Result<Message, HttpResponse>)
    ensures
        match r {
            Ok(message) => body_message(body@) == Ok::<MessageView, ReplyView>(message@)
                && message_sound(message@),
            Err(response) => body_message(body@) == Err::<MessageView, ReplyView>(response@),
        },
{
    let text = match decode_text(body) {
        Some(text) => text,
        None => {
            return Err(HttpResponse::text(400, "invalid UTF-8".to_owned()));
        },
    };
    match parse_line(text) {
        Ok(message) => Ok(message),
        Err(error) => {
            let mut out = "invalid JSON-RPC: ".to_owned();
            out.append(error.to_string().as_str());
            Err(HttpResponse::text(400, out))
        },
    }
}

/// What a transport does after a session's output.
pub enum ExchangeAction<R: ToolRegistry> {
    /// Respond, and remove the session first if it is over.
    Respond {
        /// Response to send.
        response: HttpResponse,
        /// Whether the session is over.
        remove: bool,
    },
    /// Call the tool, then respond with its result.
    Call {
        /// Session of the call.
        session: McpSessionId,
        /// Parsed tool input.
        tool: R,
        /// Responder for the tool's result.
        responder: Responder,
    },
}

/// Whether an action is what a session's output asks for. No output stands for no such session.
pub open spec fn exchange_follows<R: ToolRegistry>(
    output: Option<Output<R>>,
    session: u128,
    action: ExchangeAction<R>,
) -> bool {
    match output {
        None => action matches ExchangeAction::Respond { response, remove } && response@
            == empty_reply(404) && !remove,
        Some(Output::Send(message)) => action matches ExchangeAction::Respond { response, remove }
            && response@ == message_reply(message@, session) && !remove,
        Some(Output::ToolCall { tool, responder }) => action matches ExchangeAction::Call {
            session: caller,
            tool: called,
            responder: answer,
        } && caller.raw() == session && called == tool && answer == responder,
        Some(Output::Nothing) => action matches ExchangeAction::Respond { response, remove }
            && response@ == empty_reply(202) && !remove,
        Some(Output::ProtocolError(error)) => action matches ExchangeAction::Respond {
            response,
            remove,
        } && remove && response@ == text_reply(
            400,
            "protocol error: "@ + ("unexpected message: expected "@ + error@.expected + ", got "@
                + error@.got),
        ),
    }
}

/// Decides what follows a session's output.
pub fn session_action<R: ToolRegistry>(output: Option<Output<R>>, session_id: McpSessionId) -> (r:
    ExchangeAction<R>)
    ensures
        exchange_follows(output, session_id.raw(), r),
{
    match output {
        None => ExchangeAction::Respond { response: HttpResponse::empty(404), remove: false },
        Some(Output::Send(message)) => ExchangeAction::Respond {
            response: json_response(&message, session_id),
            remove: false,
        },
        Some(Output::ToolCall { tool, responder }) => ExchangeAction::Call {
            session: session_id,
            tool,
            responder,
        },
        Some(Output::Nothing) => ExchangeAction::Respond {
            response: HttpResponse::empty(202),
            remove: false,
        },
        Some(Output::ProtocolError(error)) => {
            let mut out = "protocol error: ".to_owned();
            out.append(error.to_string().as_str());
            ExchangeAction::Respond { response: HttpResponse::text(400, out), remove: true }
        },
    }
}

/// Makes the response to a tool call.
pub fn tool_reply<V: IntoToolResponse>(session: McpSessionId, responder: Responder, value: V) -> (r:
    HttpResponse)
    ensures
        r@ == message_reply(tool_response(value.as_response(), responder@), session.raw()),
{
    json_response(&responder.respond(value), session)
}

// ---------------------------------------------------------------------------------------------
// The service

/// Starting point of an HTTP service.
pub struct McpRouter;

impl McpRouter {
    /// Creates a builder for a service with the default storage.
    pub fn builder<R: ToolRegistry>(builder: McpServerBuilder<R>) -> (r: McpRouterBuilder<R>)
        ensures
            r.template() == builder@,
            r.sessions().contents() == Map::<u128, SessionEntry<R>>::empty(),
            r.sessions().limit() == DEFAULT_CAPACITY,
            r.sessions().eviction_age() == DEFAULT_MIN_EVICTION_AGE,
    {
        McpRouterBuilder {
            builder,
            storage: InMemoryStorage::new(DEFAULT_CAPACITY, DEFAULT_MIN_EVICTION_AGE),
        }
    }
}

/// Builder for an HTTP service.
pub struct McpRouterBuilder<R: ToolRegistry> {
    builder: McpServerBuilder<R>,
    storage: InMemoryStorage<R>,
}

impl<R: ToolRegistry> McpRouterBuilder<R> {
    /// What new servers are built from.
    pub closed spec fn template(&self) -> BuilderView {
        self.builder@
    }

    /// The session storage.
    pub closed spec fn sessions(&self) -> InMemoryStorage<R> {
        self.storage
    }

    /// Sets the session storage.
    pub fn storage(self, storage: InMemoryStorage<R>) -> (r: McpRouterBuilder<R>)
        ensures
            r.template() == self.template(),
            r.sessions() == storage,
    {
        McpRouterBuilder { builder: self.builder, storage }
    }

    /// Builds the service.
    pub fn build(self) -> (r: McpService<R>)
        ensures
            r.template() == self.template(),
            r.sessions() == self.sessions(),
    {
        McpService { builder: self.builder, storage: self.storage }
    }
}

/// HTTP service with sessions in memory.
pub struct McpService<R: ToolRegistry> {
    builder: McpServerBuilder<R>,
    storage: InMemoryStorage<R>,
}

/// Whether an exchange with a session went as it should.
pub open spec fn exchanges<R: ToolRegistry>(
    before: Map<u128, SessionEntry<R>>,
    session: u128,
    message: MessageView,
    now: u128,
    action: ExchangeAction<R>,
    after: Map<u128, SessionEntry<R>>,
) -> bool {
    exists|output: Option<Output<R>>, between: Map<u128, SessionEntry<R>>| #[trigger]
        hands_on(before, session, message, now, output, between) && exchange_follows(
            output,
            session,
            action,
        ) && after == (if output matches Some(Output::ProtocolError(_)) {
            between.remove(session)
        } else {
            between
        })
}

/// Whether the action is to send a response and keep the sessions as they are.
pub open spec fn responds<R: ToolRegistry>(action: ExchangeAction<R>, reply: ReplyView) -> bool {
    action matches ExchangeAction::Respond { response, remove } && response@ == reply && !remove
}

/// Whether a message without a session was served as it should: it creates a session from the
/// template and is exchanged with it, unless the storage is full.
pub open spec fn serves_new<R: ToolRegistry>(
    before: Map<u128, SessionEntry<R>>,
    limit: usize,
    age: u128,
    template: BuilderView,
    fresh: u128,
    message: MessageView,
    now: u128,
    action: ExchangeAction<R>,
    after: Map<u128, SessionEntry<R>>,
) -> bool {
    exists|server: McpServer<R>, stored: bool, between: Map<u128, SessionEntry<R>>|
        server.identity() == built_identity(template, R::ENABLED) && server.phase()
            == Phase::WaitingForInitialize && #[trigger] stores(
            before,
            limit,
            age,
            fresh,
            server,
            now,
            stored,
            between,
        ) && (if stored {
            exchanges(between, fresh, message, now, action, after)
        } else {
            after == between && responds(
                action,
                text_reply(503, "storage error: "@ + "session storage at capacity"@),
            )
        })
}

impl<R: ToolRegistry> McpService<R> {
    /// What new servers are built from.
    pub closed spec fn template(&self) -> BuilderView {
        self.builder@
    }

    /// The session storage.
    pub closed spec fn sessions(&self) -> InMemoryStorage<R> {
        self.storage
    }

    /// Hands a message to a session.
    fn handle_session(&mut self, session_id: McpSessionId, message: Message, now: u128) -> (r:
        ExchangeAction<R>)
        ensures
            final(self).template() == old(self).template(),
            final(self).sessions().limit() == old(self).sessions().limit(),
            final(self).sessions().eviction_age() == old(self).sessions().eviction_age(),
            exchanges(
                old(self).sessions().contents(),
                session_id.raw(),
                message@,
                now,
                r,
                final(self).sessions().contents(),
            ),
    {
        let ghost view = message@;
        let ghost before = self.storage.contents();
        let output = self.storage.handle(session_id, message, now);
        let ghost between = self.storage.contents();
        let ghost made = output;
        let action = session_action(output, session_id);
        assert(hands_on(before, session_id.raw(), view, now, made, between));
        if let ExchangeAction::Respond { remove, .. } = &action {
            if *remove {
                let _removed: bool = self.storage.remove(session_id);
            }
        }
        action
    }

    /// Serves a `POST` request. A message without a session opens one under the fresh identifier.
    pub fn handle_post(
        &mut self,
        header: &SessionHeader,
        body: &[u8],
        fresh: McpSessionId,
        now: u128,
    ) -> (r: ExchangeAction<R>)
        ensures
            final(self).template() == old(self).template(),
            final(self).sessions().limit() == old(self).sessions().limit(),
            final(self).sessions().eviction_age() == old(self).sessions().eviction_age(),
            ({
                let before = old(self).sessions();
                let after = final(self).sessions().contents();
                match *header {
                    SessionHeader::NotText => after == before.contents() && responds(
                        r,
                        text_reply(400, "session ID header not valid UTF-8"@),
                    ),
                    SessionHeader::Text(value) => match (parsed_id(value@), body_message(body@)) {
                        (None, _) => after == before.contents() && responds(
                            r,
                            text_reply(400, "invalid session ID"@),
                        ),
                        (Some(_), Err(reply)) => after == before.contents() && responds(r, reply),
                        (Some(session), Ok(message)) => exchanges(
                            before.contents(),
                            session,
                            message,
                            now,
                            r,
                            after,
                        ),
                    },
                    SessionHeader::Absent => match body_message(body@) {
                        Err(reply) => after == before.contents() && responds(r, reply),
                        Ok(message) => serves_new(
                            before.contents(),
                            before.limit(),
                            before.eviction_age(),
                            old(self).template(),
                            fresh.raw(),
                            message,
                            now,
                            r,
                            after,
                        ),
                    },
                }
            }),
    {
        let session = match OptionalSessionId::from_header(header) {
            Ok(OptionalSessionId(session)) => session,
            Err(rejection) => {
                return ExchangeAction::Respond {
                    response: rejection.into_response(),
                    remove: false,
                };
            },
        };
        let message = match read_body(body) {
            Ok(message) => message,
            Err(response) => {
                return ExchangeAction::Respond { response, remove: false };
            },
        };
        match session {
            Some(id) => self.handle_session(id, message, now),
            None => {
                let server = self.builder.build();
                let ghost made = server;
                let ghost before = self.storage;
                match self.storage.create(fresh, server, now) {
                    Ok(id) => {
                        assert(stores(
                            before.contents(),
                            before.limit(),
                            before.eviction_age(),
                            fresh.raw(),
                            made,
                            now,
                            true,
                            self.storage.contents(),
                        ));
                        self.handle_session(id, message, now)
                    },
                    Err(error) => {
                        assert(stores(
                            before.contents(),
                            before.limit(),
                            before.eviction_age(),
                            fresh.raw(),
                            made,
                            now,
                            false,
                            self.storage.contents(),
                        ));
                        ExchangeAction::Respond {
                            response: creation_failure(error.to_string().as_str()),
                            remove: false,
                        }
                    },
                }
            },
        }
    }

    /// Serves a `DELETE` request, which ends a session.
    pub fn handle_delete(&mut self, header: &SessionHeader) -> (r: HttpResponse)
        ensures
            final(self).template() == old(self).template(),
            final(self).sessions().limit() == old(self).sessions().limit(),
            final(self).sessions().eviction_age() == old(self).sessions().eviction_age(),
            ({
                let before = old(self).sessions().contents();
                let after = final(self).sessions().contents();
                match *header {
                    SessionHeader::Absent => after == before && r@ == text_reply(
                        400,
                        "missing session ID header `mcp-session-id`"@,
                    ),
                    SessionHeader::NotText => after == before && r@ == text_reply(
                        400,
                        "session ID header not valid UTF-8"@,
                    ),
                    SessionHeader::Text(value) => match parsed_id(value@) {
                        None => after == before && r@ == text_reply(400, "invalid session ID"@),
                        Some(session) => after == before.remove(session) && r@ == empty_reply(
                            if before.contains_key(session) {
                                204
                            } else {
                                404
                            },
                        ),
                    },
                }
            }),
    {
        match McpSessionId::from_header(header) {
            Ok(id) => deletion_response(self.storage.remove(id)),
            Err(rejection) => rejection.into_response(),
        }
    }
}

// ---------------------------------------------------------------------------------------------
// Laws

/// A message for a session that does not exist is answered with 404, and nothing changes.
pub proof fn unknown_sessions_are_not_found<R: ToolRegistry>(
    before: Map<u128, SessionEntry<R>>,
    session: u128,
    message: MessageView,
    now: u128,
    action: ExchangeAction<R>,
    after: Map<u128, SessionEntry<R>>,
)
    requires
        exchanges(before, session, message, now, action, after),
        !before.contains_key(session),
    ensures
        after == before,
        responds(action, empty_reply(404)),
{
}

/// A session that was deleted is not found afterwards.
pub proof fn deleted_sessions_are_not_found<R: ToolRegistry>(
    before: Map<u128, SessionEntry<R>>,
    session: u128,
    message: MessageView,
    now: u128,
    action: ExchangeAction<R>,
    after: Map<u128, SessionEntry<R>>,
)
    requires
        exchanges(before.remove(session), session, message, now, action, after),
    ensures
        responds(action, empty_reply(404)),
{
    unknown_sessions_are_not_found(before.remove(session), session, message, now, action, after);
}

/// A message for one session leaves every other session as it is.
pub proof fn sessions_do_not_interfere<R: ToolRegistry>(
    before: Map<u128, SessionEntry<R>>,
    session: u128,
    message: MessageView,
    now: u128,
    action: ExchangeAction<R>,
    after: Map<u128, SessionEntry<R>>,
    other: u128,
)
    requires
        exchanges(before, session, message, now, action, after),
        other != session,
    ensures
        after.contains_key(other) == before.contains_key(other),
        before.contains_key(other) ==> after[other] == before[other],
{
    let (output, between): (Option<Output<R>>, Map<u128, SessionEntry<R>>) = choose|
        output: Option<Output<R>>,
        between: Map<u128, SessionEntry<R>>,
    | #[trigger]
        hands_on(before, session, message, now, output, between) && exchange_follows(
            output,
            session,
            action,
        ) && after == (if output matches Some(Output::ProtocolError(_)) {
            between.remove(session)
        } else {
            between
        });
    assert(between.dom().contains(other) == before.dom().contains(other));
}

/// A protocol error ends its session; every other exchange with a session keeps it.
pub proof fn only_protocol_errors_end_sessions<R: ToolRegistry>(
    before: Map<u128, SessionEntry<R>>,
    session: u128,
    message: MessageView,
    now: u128,
    action: ExchangeAction<R>,
    after: Map<u128, SessionEntry<R>>,
)
    requires
        exchanges(before, session, message, now, action, after),
        before.contains_key(session),
    ensures
        after.contains_key(session) <==> !(action matches ExchangeAction::Respond {
            remove: true,
            ..
        }),
        action matches ExchangeAction::Respond { response, remove: true } ==> response@.status
            == 400,
{
    let (output, between): (Option<Output<R>>, Map<u128, SessionEntry<R>>) = choose|
        output: Option<Output<R>>,
        between: Map<u128, SessionEntry<R>>,
    | #[trigger]
        hands_on(before, session, message, now, output, between) && exchange_follows(
            output,
            session,
            action,
        ) && after == (if output matches Some(Output::ProtocolError(_)) {
            between.remove(session)
        } else {
            between
        });
    assert(between.dom().contains(session) == before.dom().contains(session));
}

/// A response with a message names the session that it belongs to.
pub proof fn messages_name_their_session<R: ToolRegistry>(
    before: Map<u128, SessionEntry<R>>,
    session: u128,
    message: MessageView,
    now: u128,
    action: ExchangeAction<R>,
    after: Map<u128, SessionEntry<R>>,
)
    requires
        exchanges(before, session, message, now, action, after),
    ensures
        action matches ExchangeAction::Respond { response, .. } ==> (response@.body is Json
            ==> response@.status == 200 && response@.session == Some(session)),
        action matches ExchangeAction::Call { session: caller, .. } ==> caller.raw() == session,
{
}

/// `initialize` without a session opens one where there is room for it: the response carries the
/// server's answer and names the session, which then waits for the client to confirm.
pub proof fn initialize_opens_a_session<R: ToolRegistry>(
    before: Map<u128, SessionEntry<R>>,
    limit: usize,
    age: u128,
    template: BuilderView,
    fresh: u128,
    id: IdView,
    params: Option<JsonView>,
    now: u128,
    action: ExchangeAction<R>,
    after: Map<u128, SessionEntry<R>>,
)
    requires
        before.len() < limit,
        client_of(given_params(params)) is Ok,
        serves_new(
            before,
            limit,
            age,
            template,
            fresh,
            MessageView::Request { id, method: "initialize"@, params },
            now,
            action,
            after,
        ),
    ensures
        responds(
            action,
            message_reply(
                MessageView::ResultResponse {
                    id,
                    result: initialize_json(built_identity(template, R::ENABLED)),
                },
                fresh,
            ),
        ),
        after.contains_key(fresh),
        after[fresh].server.phase() == Phase::WaitingForInitialized(
            client_of(given_params(params))->Ok_0,
        ),
        after[fresh].last_accessed == now,
{
    reveal_strlit("initialize");
    reveal_strlit("ping");
    assert("initialize"@.len() != "ping"@.len());
    let message = MessageView::Request { id, method: "initialize"@, params };
    let (server, stored, held): (McpServer<R>, bool, Map<u128, SessionEntry<R>>) = choose|
        server: McpServer<R>,
        stored: bool,
        held: Map<u128, SessionEntry<R>>,
    |
        server.identity() == built_identity(template, R::ENABLED) && server.phase()
            == Phase::WaitingForInitialize && #[trigger] stores(
            before,
            limit,
            age,
            fresh,
            server,
            now,
            stored,
            held,
        ) && (if stored {
            exchanges(held, fresh, message, now, action, after)
        } else {
            after == held && responds(
                action,
                text_reply(503, "storage error: "@ + "session storage at capacity"@),
            )
        });
    let (output, between): (Option<Output<R>>, Map<u128, SessionEntry<R>>) = choose|
        output: Option<Output<R>>,
        between: Map<u128, SessionEntry<R>>,
    | #[trigger]
        hands_on(held, fresh, message, now, output, between) && exchange_follows(
            output,
            fresh,
            action,
        ) && after == (if output matches Some(Output::ProtocolError(_)) {
            between.remove(fresh)
        } else {
            between
        });
    assert(between.dom().contains(fresh));
}

/// A notification to a session that is ready is accepted without a body, and the session stays.
pub proof fn notifications_are_accepted<R: ToolRegistry>(
    before: Map<u128, SessionEntry<R>>,
    session: u128,
    method: Seq<char>,
    params: Option<JsonView>,
    now: u128,
    action: ExchangeAction<R>,
    after: Map<u128, SessionEntry<R>>,
)
    requires
        before.contains_key(session),
        before[session].server.phase() is Ready,
        exchanges(
            before,
            session,
            MessageView::Notification { method, params },
            now,
            action,
            after,
        ),
    ensures
        responds(action, empty_reply(202)),
        after.contains_key(session),
        after[session].last_accessed == now,
        after[session].server.phase() == before[session].server.phase(),
{
    let message = MessageView::Notification { method, params };
    let (output, between): (Option<Output<R>>, Map<u128, SessionEntry<R>>) = choose|
        output: Option<Output<R>>,
        between: Map<u128, SessionEntry<R>>,
    | #[trigger]
        hands_on(before, session, message, now, output, between) && exchange_follows(
            output,
            session,
            action,
        ) && after == (if output matches Some(Output::ProtocolError(_)) {
            between.remove(session)
        } else {
            between
        });
    assert(between.dom().contains(session));
}

/// A body that is not UTF-8, or holds no message, is a bad request.
pub proof fn bad_bodies_are_bad_requests(body: Seq<u8>)
    ensures
        body_message(body) matches Err(reply) ==> reply.status == 400 && reply.body is Text
            && reply.session is None,
        body_message(body) matches Ok(message) ==> valid_utf8(body) && parsed_message(
            decode_utf8(body),
        ) == Ok::<MessageView, Seq<char>>(message),
        valid_utf8(body) && parsed_message(decode_utf8(body)) is Ok ==> body_message(body) is Ok,
{
}

} // verus!
