//! The websocket side of a session: what clients send (`reader`) and what
//! they are sent (`writer`).

pub mod reader;
pub mod writer;

pub use crate::user_session::SessionId;
pub use writer::MailboxMessage as WsResponse;
