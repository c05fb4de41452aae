use my_turn::room::{self, ChatNotification, RoomState};
use my_turn::user_session::{MailboxMessage, UserSession, UserSessionAction};
use my_turn::ws::reader;
use my_turn::ws::writer;

fn s(x: &str) -> String {
    x.to_string()
}

fn ws(m: reader::MailboxMessage) -> MailboxMessage {
    MailboxMessage::WsMessage(m)
}

#[test]
fn new_session_has_no_id_and_no_room() {
    let session: UserSession<u32> = UserSession::new();
    assert_eq!(session.id(), 0);
    assert_eq!(session.room_addr("abc"), None);
}

#[test]
fn join_room_asks_the_broker() {
    let session: UserSession<u32> = UserSession::new();
    let action = session.handle_message::<u32>(ws(reader::MailboxMessage::JoinRoom { room: s("abc") }));
    match action {
        UserSessionAction::JoinRoom { room } => assert_eq!(room, "abc"),
        _ => panic!("expected a join request"),
    }
}

#[test]
fn requests_for_unjoined_rooms_are_dropped() {
    let mut session: UserSession<u32> = UserSession::new();
    session.connected(4);
    for req in [
        reader::MailboxMessage::Register { room: s("abc"), username: s("me") },
        reader::MailboxMessage::SendChat { room: s("abc"), message: s("hi") },
        reader::MailboxMessage::TakeTurn { room: s("abc") },
        reader::MailboxMessage::ResetTurn { room: s("abc") },
    ] {
        assert!(matches!(session.handle_message::<u32>(ws(req)), UserSessionAction::Nothing));
    }
}

#[test]
fn requests_for_joined_rooms_carry_the_session_id() {
    let mut session: UserSession<u32> = UserSession::new();
    session.connected(4);
    session.joined_room(s("abc"), 77);
    assert_eq!(session.room_addr("abc"), Some(&77));
    match session.handle_message::<u32>(ws(reader::MailboxMessage::Register {
        room: s("abc"),
        username: s("me"),
    })) {
        UserSessionAction::ToRoom { room, message: room::MailboxMessage::Register { session_id, username } } => {
            assert_eq!(room, "abc");
            assert_eq!(session_id, 4);
            assert_eq!(username, "me");
        }
        _ => panic!("expected a register request"),
    }
    match session.handle_message::<u32>(ws(reader::MailboxMessage::SendChat {
        room: s("abc"),
        message: s("hi"),
    })) {
        UserSessionAction::ToRoom { room, message: room::MailboxMessage::Chat { session_id, message } } => {
            assert_eq!(room, "abc");
            assert_eq!(session_id, 4);
            assert_eq!(message, "hi");
        }
        _ => panic!("expected a chat request"),
    }
    assert!(matches!(
        session.handle_message::<u32>(ws(reader::MailboxMessage::TakeTurn { room: s("abc") })),
        UserSessionAction::ToRoom { message: room::MailboxMessage::TakeTurn { session_id: 4 }, .. }
    ));
    assert!(matches!(
        session.handle_message::<u32>(ws(reader::MailboxMessage::ResetTurn { room: s("abc") })),
        UserSessionAction::ToRoom { message: room::MailboxMessage::ResetTurn { session_id: 4 }, .. }
    ));
}

#[test]
fn room_news_goes_to_the_writer() {
    let session: UserSession<u32> = UserSession::new();
    let state = RoomState { name: s("abc"), users: vec![s("a")], turns: vec![] };
    match session.handle_message::<u32>(MailboxMessage::RoomNotification(state.clone())) {
        UserSessionAction::ToWriter(msg) => assert_eq!(msg, writer::MailboxMessage::Room(state)),
        _ => panic!("expected a room notification"),
    }
    let chat = ChatNotification { room: s("abc"), username: s("a"), message: s("m") };
    match session.handle_message::<u32>(MailboxMessage::ChatNotification(chat.clone())) {
        UserSessionAction::ToWriter(msg) => assert_eq!(msg, writer::MailboxMessage::Chat(chat)),
        _ => panic!("expected a chat notification"),
    }
}

#[test]
fn close_stops_the_session() {
    let session: UserSession<u32> = UserSession::new();
    assert!(matches!(session.handle_message::<u32>(MailboxMessage::Close), UserSessionAction::Stop));
}

#[test]
fn session_stops_once_at_the_first_close() {
    let mut session: UserSession<u32> = UserSession::new();
    session.connected(3);
    let msgs = vec![
        ws(reader::MailboxMessage::JoinRoom { room: s("abc") }),
        ws(reader::MailboxMessage::TakeTurn { room: s("abc") }),
        MailboxMessage::Close,
        ws(reader::MailboxMessage::ResetTurn { room: s("abc") }),
        MailboxMessage::Close,
    ];
    let mut actions = Vec::new();
    for msg in msgs {
        let action = session.handle_message::<u32>(msg);
        if let UserSessionAction::JoinRoom { room } = &action {
            session.joined_room(room.clone(), 1);
        }
        let stop = matches!(action, UserSessionAction::Stop);
        actions.push(action);
        if stop {
            break;
        }
    }
    assert_eq!(actions.len(), 3);
    assert!(matches!(actions[0], UserSessionAction::JoinRoom { .. }));
    assert!(matches!(
        actions[1],
        UserSessionAction::ToRoom { message: room::MailboxMessage::TakeTurn { session_id: 3 }, .. }
    ));
    assert!(matches!(actions[2], UserSessionAction::Stop));
}
