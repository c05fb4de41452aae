use my_turn::user_session;
use my_turn::ws::reader::{
    invalid_message_text, next_action, Incoming, MailboxMessage, ReaderAction, CLIENT_TIMEOUT_SECS,
    HEARTBEAT_INTERVAL_SECS,
};
use my_turn::ws::WsResponse;

#[test]
fn invalid_text_gets_the_parse_error() {
    assert_eq!(invalid_message_text("Ok"), "Invalid message: error=Can't parse json, msg=Ok");
    let action = next_action(Incoming::Text { text: "Ok".to_string(), parsed: None });
    match action {
        ReaderAction::Reply(reply) => assert_eq!(
            reply,
            WsResponse::Error { error: "Invalid message: error=Can't parse json, msg=Ok".to_string() }
        ),
        _ => panic!("expected an error reply"),
    }
}

#[test]
fn parsed_text_is_forwarded() {
    let msg = MailboxMessage::JoinRoom { room: "abc".to_string() };
    let action = next_action(Incoming::Text {
        text: "{\"JoinRoom\":{\"room\":\"abc\"}}".to_string(),
        parsed: Some(msg.clone()),
    });
    match action {
        ReaderAction::Forward(user_session::MailboxMessage::WsMessage(m)) => assert_eq!(m, msg),
        _ => panic!("expected a forwarded request"),
    }
}

#[test]
fn control_frames() {
    assert!(matches!(next_action(Incoming::Ping), ReaderAction::Continue));
    assert!(matches!(next_action(Incoming::Pong), ReaderAction::Continue));
    assert!(matches!(next_action(Incoming::Binary), ReaderAction::Stop));
    assert!(matches!(next_action(Incoming::Close), ReaderAction::Stop));
    assert!(matches!(next_action(Incoming::Failed), ReaderAction::Stop));
    assert!(matches!(next_action(Incoming::Ended), ReaderAction::Stop));
}

#[test]
fn heartbeat_pings_until_the_timeout() {
    assert_eq!(HEARTBEAT_INTERVAL_SECS, 5);
    assert_eq!(CLIENT_TIMEOUT_SECS, 16);
    let silent = |secs: u128, nanos: u128| Incoming::Silent {
        elapsed_nanos: secs * 1_000_000_000 + nanos,
    };
    assert!(matches!(next_action(silent(5, 0)), ReaderAction::SendPing));
    assert!(matches!(next_action(silent(16, 0)), ReaderAction::SendPing));
    assert!(matches!(next_action(silent(16, 1)), ReaderAction::CloseAndStop));
    assert!(matches!(next_action(silent(17, 0)), ReaderAction::CloseAndStop));
    assert!(matches!(next_action(silent(1_000_000, 999_999_999)), ReaderAction::CloseAndStop));
}
