use vstd::prelude::*;

use crate::room::{ChatNotification, RoomState};

verus! {

/// What a client is sent over its websocket.
#[derive(Debug, PartialEq)]
pub enum MailboxMessage {
    Room(RoomState),
    Chat(ChatNotification),
    Error { error: String },
}

} // verus!
