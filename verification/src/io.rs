//! Transports: sessions, lines and HTTP exchanges, without input or output of their own.

pub mod http;
pub mod session_id;
pub mod sessions;
pub mod stdio;
pub mod storage;

pub use session_id::{McpSessionId, ParseSessionIdError, HTTP_SESSION_ID_HEADER};
pub use stdio::IoError;
