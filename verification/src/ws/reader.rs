use vstd::prelude::*;

use crate::user_session;
use crate::ws::writer;

verus! {

/// How often, in seconds, a silent client is pinged.
pub const HEARTBEAT_INTERVAL_SECS: u64 = 5;

/// How long, in seconds, a client may stay silent before it is disconnected.
pub const CLIENT_TIMEOUT_SECS: u64 = 16;

/// What a client can ask for over its websocket.
#[derive(Debug, Clone, PartialEq)]
pub enum MailboxMessage {
    JoinRoom { room: String },
    Register { room: String, username: String },
    SendChat { room: String, message: String },
    TakeTurn { room: String },
    ResetTurn { room: String },
}

/// What happened on the websocket: a frame arrived (a text frame comes with
/// the request it parsed to, if it parsed), the stream failed or ended, or
/// nothing arrived within a heartbeat interval, in which case the time since
/// the last frame is given in nanoseconds.
pub enum Incoming {
    Text { text: String, parsed: Option<MailboxMessage> },
    Binary,
    Ping,
    Pong,
    Close,
    Failed,
    Ended,
    Silent { elapsed_nanos: u128 },
}

/// What the reader does next.
pub enum ReaderAction {
    /// Hand the request to the user session, then read on.
    Forward(user_session::MailboxMessage),
    /// Send this to the client, then read on.
    Reply(writer::MailboxMessage),
    /// Read on.
    Continue,
    /// Ping the client, then read on.
    SendPing,
    /// Send the client a close frame and stop reading.
    CloseAndStop,
    /// Stop reading.
    Stop,
}

/// The error text a client gets for a frame that is no valid request.
pub open spec fn invalid_message_error(text: Seq<char>) -> Seq<char> {
    "Invalid message: error="@ + "Can't parse json"@ + ", msg="@ + text
}

/// Whether a silence of `nanos` nanoseconds is longer than the client timeout.
pub open spec fn silence_exceeds_timeout(nanos: u128) -> bool {
    nanos > CLIENT_TIMEOUT_SECS * 1_000_000_000
}

/// The error text for a frame that did not parse, built from the frame's text.
pub fn invalid_message_text(text: &str) -> (error: String)
    ensures
        error@ == invalid_message_error(text@),
{
    let mut error = String::from_str("Invalid message: error=");
    error.append("Can't parse json");
    error.append(", msg=");
    error.append(text);
    error
}

/// Decides what the reader does with what happened on the websocket.
pub fn next_action(incoming: Incoming) -> (action: ReaderAction)
    ensures
        match incoming {
            Incoming::Text { text, parsed } => match parsed {
                Some(msg) => action == ReaderAction::Forward(
                    user_session::MailboxMessage::WsMessage(msg),
                ),
                None => match action {
                    ReaderAction::Reply(writer::MailboxMessage::Error { error }) => error@
                        == invalid_message_error(text@),
                    _ => false,
                },
            },
            Incoming::Ping | Incoming::Pong => action is Continue,
            Incoming::Binary | Incoming::Close | Incoming::Failed | Incoming::Ended => action is Stop,
            Incoming::Silent { elapsed_nanos } => if silence_exceeds_timeout(elapsed_nanos) {
                action is CloseAndStop
            } else {
                action is SendPing
            },
        },
{
    match incoming {
        Incoming::Text { text, parsed } => match parsed {
            Some(msg) => ReaderAction::Forward(user_session::MailboxMessage::WsMessage(msg)),
            None => ReaderAction::Reply(
                writer::MailboxMessage::Error { error: invalid_message_text(text.as_str()) },
            ),
        },
        Incoming::Ping | Incoming::Pong => ReaderAction::Continue,
        Incoming::Binary | Incoming::Close | Incoming::Failed | Incoming::Ended => ReaderAction::Stop,
        Incoming::Silent { elapsed_nanos } => {
            if elapsed_nanos > (CLIENT_TIMEOUT_SECS as u128) * 1_000_000_000 {
                ReaderAction::CloseAndStop
            } else {
                ReaderAction::SendPing
            }
        },
    }
}

} // verus!
