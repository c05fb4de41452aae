use my_turn::room::{ChatNotification, MailboxMessage, Room, RoomEffect, RoomState};

fn s(x: &str) -> String {
    x.to_string()
}

fn joined_room() -> Room<u32> {
    let mut room: Room<u32> = Room::new(s("abc"));
    for id in 1..=3usize {
        room.handle_message(MailboxMessage::Join { session_id: id, client_addr: id as u32 * 10 });
    }
    room
}

fn is_broadcast_state(e: &RoomEffect) -> bool {
    matches!(e, RoomEffect::BroadcastState)
}

fn is_nothing(e: &RoomEffect) -> bool {
    matches!(e, RoomEffect::Nothing)
}

#[test]
fn new_room_is_empty() {
    let room: Room<u32> = Room::new(s("abc"));
    assert_eq!(
        room.state(),
        &RoomState { name: s("abc"), users: Vec::new(), turns: Vec::new() }
    );
    assert_eq!(room.sessions().len(), 0);
}

#[test]
fn join_sends_state_to_the_joining_session_only() {
    let mut room: Room<u32> = Room::new(s("abc"));
    let effect = room.handle_message(MailboxMessage::Join { session_id: 7, client_addr: 70 });
    assert!(matches!(effect, RoomEffect::SendState { session_id: 7 }));
    assert_eq!(room.sessions().get(&7), Some(&70));
    assert_eq!(room.state().users.len(), 0);
}

#[test]
fn register_needs_a_joined_session() {
    let mut room: Room<u32> = Room::new(s("abc"));
    let effect =
        room.handle_message(MailboxMessage::Register { session_id: 1, username: s("client 1") });
    assert!(is_nothing(&effect));
    assert!(room.state().users.is_empty());
}

#[test]
fn register_adds_each_name_once() {
    let mut room = joined_room();
    let e1 = room.handle_message(MailboxMessage::Register { session_id: 1, username: s("client 1") });
    assert!(is_broadcast_state(&e1));
    assert_eq!(room.state().users, vec![s("client 1")]);
    let e2 = room.handle_message(MailboxMessage::Register { session_id: 2, username: s("client 2") });
    assert!(is_broadcast_state(&e2));
    assert_eq!(room.state().users, vec![s("client 1"), s("client 2")]);
    // a third session choosing a name already taken adds no second entry
    room.handle_message(MailboxMessage::Register { session_id: 3, username: s("client 1") });
    assert_eq!(room.state().users, vec![s("client 1"), s("client 2")]);
}

#[test]
fn chat_from_registered_user_is_broadcast() {
    let mut room = joined_room();
    room.handle_message(MailboxMessage::Register { session_id: 1, username: s("client 1") });
    let effect = room.handle_message(MailboxMessage::Chat { session_id: 1, message: s("my message") });
    match effect {
        RoomEffect::BroadcastChat(chat) => assert_eq!(
            chat,
            ChatNotification { room: s("abc"), username: s("client 1"), message: s("my message") }
        ),
        _ => panic!("expected a chat broadcast"),
    }
}

#[test]
fn chat_from_watcher_is_ignored() {
    let mut room = joined_room();
    let before = room.state().clone();
    let effect = room.handle_message(MailboxMessage::Chat { session_id: 3, message: s("hi") });
    assert!(is_nothing(&effect));
    assert_eq!(room.state(), &before);
}

#[test]
fn turns_follow_the_order_they_were_taken() {
    let mut room = joined_room();
    room.handle_message(MailboxMessage::Register { session_id: 1, username: s("client 1") });
    room.handle_message(MailboxMessage::Register { session_id: 2, username: s("client 2") });
    let e = room.handle_message(MailboxMessage::TakeTurn { session_id: 2 });
    assert!(is_broadcast_state(&e));
    room.handle_message(MailboxMessage::TakeTurn { session_id: 1 });
    assert_eq!(room.state().turns, vec![s("client 2"), s("client 1")]);
}

#[test]
fn taking_a_turn_twice_counts_once() {
    let mut room = joined_room();
    room.handle_message(MailboxMessage::Register { session_id: 1, username: s("client 1") });
    room.handle_message(MailboxMessage::TakeTurn { session_id: 1 });
    let once = room.state().clone();
    let e = room.handle_message(MailboxMessage::TakeTurn { session_id: 1 });
    // the state is broadcast again, unchanged
    assert!(is_broadcast_state(&e));
    assert_eq!(room.state(), &once);
    assert_eq!(room.state().turns, vec![s("client 1")]);
}

#[test]
fn watcher_cannot_take_or_reset_turns() {
    let mut room = joined_room();
    room.handle_message(MailboxMessage::Register { session_id: 1, username: s("client 1") });
    room.handle_message(MailboxMessage::TakeTurn { session_id: 1 });
    assert!(is_nothing(&room.handle_message(MailboxMessage::TakeTurn { session_id: 3 })));
    assert!(is_nothing(&room.handle_message(MailboxMessage::ResetTurn { session_id: 3 })));
    assert_eq!(room.state().turns, vec![s("client 1")]);
}

#[test]
fn reset_empties_the_queue_and_keeps_users() {
    let mut room = joined_room();
    room.handle_message(MailboxMessage::Register { session_id: 1, username: s("client 1") });
    room.handle_message(MailboxMessage::Register { session_id: 2, username: s("client 2") });
    room.handle_message(MailboxMessage::TakeTurn { session_id: 1 });
    room.handle_message(MailboxMessage::TakeTurn { session_id: 2 });
    let e = room.handle_message(MailboxMessage::ResetTurn { session_id: 2 });
    assert!(is_broadcast_state(&e));
    assert!(room.state().turns.is_empty());
    assert_eq!(room.state().users, vec![s("client 1"), s("client 2")]);
}

#[test]
fn remove_sessions_drops_exactly_the_closed_ones() {
    let mut room = joined_room();
    room.handle_message(MailboxMessage::Register { session_id: 1, username: s("client 1") });
    room.remove_sessions(&vec![1, 3, 9]);
    assert_eq!(room.sessions().len(), 1);
    assert_eq!(room.sessions().get(&2), Some(&20));
    // the room state is untouched
    assert_eq!(room.state().users, vec![s("client 1")]);
}

#[test]
fn room_states_compare_users_as_a_set() {
    let a = RoomState { name: s("abc"), users: vec![s("x"), s("y")], turns: vec![s("y")] };
    let b = RoomState { name: s("abc"), users: vec![s("y"), s("x")], turns: vec![s("y")] };
    assert_eq!(a, b);
    let c = RoomState { name: s("abc"), users: vec![s("y")], turns: vec![s("y")] };
    assert_ne!(a, c);
    // the turn queue is ordered
    let d = RoomState { name: s("abc"), users: vec![s("x"), s("y")], turns: vec![s("y"), s("x")] };
    let e = RoomState { name: s("abc"), users: vec![s("x"), s("y")], turns: vec![s("x"), s("y")] };
    assert_ne!(d, e);
    let f = RoomState { name: s("abd"), users: vec![s("x"), s("y")], turns: vec![s("y")] };
    assert_ne!(a, f);
}

#[test]
fn users_are_the_accepted_registrations() {
    let mut room: Room<u32> = Room::new(s("abc"));
    // not joined yet: refused
    room.handle_message(MailboxMessage::Register { session_id: 1, username: s("early") });
    room.handle_message(MailboxMessage::Join { session_id: 1, client_addr: 10 });
    room.handle_message(MailboxMessage::Register { session_id: 1, username: s("a") });
    room.handle_message(MailboxMessage::Register { session_id: 1, username: s("b") });
    room.remove_sessions(&vec![1]);
    // dropped while broadcasting: refused again
    room.handle_message(MailboxMessage::Register { session_id: 1, username: s("late") });
    assert_eq!(room.state().name, "abc");
    assert_eq!(room.state().users, vec![s("a"), s("b")]);
}
