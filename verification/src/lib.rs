//! Server side of the Model Context Protocol.
//!
//! The core is a state machine without input or output: it takes JSON-RPC messages and says what to
//! send back. Around it stand tool registries, sessions, and command lines generated from tool
//! schemas.

pub mod base64;
pub mod cli;
pub mod error;
pub mod io;
pub mod json;
pub mod members;
pub mod message;
pub mod registry;
pub mod rfc3339;
pub mod server;
pub mod table;
pub mod text;
pub mod tools;
pub mod wire;

pub use error::{JsonRpcError, ProtocolError};
pub use json::Json;
pub use message::{parse_line, Message, MessageId, ParseError};
pub use registry::{NoTools, ToolDef, ToolDefinition, ToolDefinitions, ToolInputSchema, ToolRegistry};
pub use server::{Client, McpServer, McpServerBuilder, OutgoingMessage, Output, Responder};
pub use tools::{CallToolResult, IntoToolResponse, ToolOutput};
