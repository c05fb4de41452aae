//! Decision logic of a turn-taking chat service: rooms where users register,
//! chat and queue up for turns, a broker that hands out session ids and keeps
//! one room per name, user sessions that route client requests, and the
//! websocket reader's frame handling.

pub mod broker;
pub mod names;
pub mod room;
pub mod user_session;
pub mod ws;
pub mod server;
