//! Errors of requests and of the protocol.

use vstd::prelude::*;
use vstd::string::StringExecFns;

verus! {

/// Request-level JSON-RPC errors.
///
/// These represent errors in handling a specific request. They are converted to JSON-RPC error
/// responses and sent to the client; the connection remains open for further requests.
#[derive(Debug)]
pub enum JsonRpcError {
    /// Method not found.
    MethodNotFound {
        /// Error message to show.
        msg: String,
    },
    /// Invalid parameters.
    InvalidParams {
        /// Error message to show.
        msg: String,
    },
    /// Internal error.
    InternalError {
        /// Error message to show.
        msg: String,
    },
}

/// A request-level error as mathematics.
pub enum RpcErrorView {
    MethodNotFound { msg: Seq<char> },
    InvalidParams { msg: Seq<char> },
    InternalError { msg: Seq<char> },
}

impl View for JsonRpcError {
    type V = RpcErrorView;

    open spec fn view(&self) -> RpcErrorView {
        match self {
            JsonRpcError::MethodNotFound { msg } => RpcErrorView::MethodNotFound { msg: msg@ },
            JsonRpcError::InvalidParams { msg } => RpcErrorView::InvalidParams { msg: msg@ },
            JsonRpcError::InternalError { msg } => RpcErrorView::InternalError { msg: msg@ },
        }
    }
}

/// The JSON-RPC code of an error.
pub open spec fn error_code(error: RpcErrorView) -> int {
    match error {
        RpcErrorView::MethodNotFound { .. } => -32601,
        RpcErrorView::InvalidParams { .. } => -32602,
        RpcErrorView::InternalError { .. } => -32603,
    }
}

/// The text of an error.
pub open spec fn error_text(error: RpcErrorView) -> Seq<char> {
    match error {
        RpcErrorView::MethodNotFound { msg } => "method not found: "@ + msg,
        RpcErrorView::InvalidParams { msg } => "invalid params: "@ + msg,
        RpcErrorView::InternalError { msg } => "internal error: "@ + msg,
    }
}

impl JsonRpcError {
    /// Returns the JSON-RPC error code.
    pub fn code(&self) -> (r: i64)
        ensures
            r == error_code(self@),
    {
        match self {
            JsonRpcError::MethodNotFound { .. } => -32601,
            JsonRpcError::InvalidParams { .. } => -32602,
            JsonRpcError::InternalError { .. } => -32603,
        }
    }

    /// States the error.
    pub fn to_string(&self) -> (r: String)
        ensures
            r@ == error_text(self@),
    {
        match self {
            JsonRpcError::MethodNotFound { msg } => {
                let mut out = "method not found: ".to_owned();
                out.append(msg.as_str());
                out
            },
            JsonRpcError::InvalidParams { msg } => {
                let mut out = "invalid params: ".to_owned();
                out.append(msg.as_str());
                out
            },
            JsonRpcError::InternalError { msg } => {
                let mut out = "internal error: ".to_owned();
                out.append(msg.as_str());
                out
            },
        }
    }
}

/// Protocol-level errors that terminate the connection.
///
/// Unlike [`JsonRpcError`], these indicate the connection is in an unrecoverable state and must be
/// closed. They may or may not result in an error response being sent before closing.
#[derive(Debug)]
pub enum ProtocolError {
    /// Received unexpected message for current phase.
    UnexpectedMessage {
        /// What message was expected.
        expected: &'static str,
        /// What message was received.
        got: String,
    },
}

/// A protocol error as mathematics: what was expected, and what came.
pub struct ProtocolErrorView {
    pub expected: Seq<char>,
    pub got: Seq<char>,
}

impl View for ProtocolError {
    type V = ProtocolErrorView;

    open spec fn view(&self) -> ProtocolErrorView {
        match self {
            ProtocolError::UnexpectedMessage { expected, got } => ProtocolErrorView {
                expected: expected@,
                got: got@,
            },
        }
    }
}

impl ProtocolError {
    /// States the error.
    pub fn to_string(&self) -> (r: String)
        ensures
            r@ == "unexpected message: expected "@ + self@.expected + ", got "@ + self@.got,
    {
        match self {
            ProtocolError::UnexpectedMessage { expected, got } => {
                let mut out = "unexpected message: expected ".to_owned();
                out.append(expected);
                out.append(", got ");
                out.append(got.as_str());
                out
            },
        }
    }
}

} // verus!
