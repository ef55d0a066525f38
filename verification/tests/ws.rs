use ragent::ws_events::{SocketAction, SocketInput, SocketState, WsEvent};
use uuid::Uuid;

fn chat_msg() -> SocketInput {
    SocketInput::Text(Ok(WsEvent::ChatMessage { session_id: Uuid::from_u128(9), content: "hi".into(), content_type: None }))
}

#[test]
fn chat_before_auth_is_refused() {
    let mut s = SocketState::new();
    match s.step(chat_msg()) {
        SocketAction::Send(WsEvent::Error { code, message }) => {
            assert_eq!((code.as_str(), message.as_str()), ("UNAUTHORIZED", "Authenticate first"));
        }
        _ => panic!("expected an error"),
    }
    assert!(s.user_id.is_none());
}

#[test]
fn auth_then_echo() {
    let mut s = SocketState::new();
    match s.step(SocketInput::Text(Ok(WsEvent::Auth { token: "tok".into() }))) {
        SocketAction::CheckToken(t) => assert_eq!(t, "tok"),
        _ => panic!("expected a token check"),
    }
    let u = Uuid::from_u128(42);
    match s.step(SocketInput::TokenChecked(Ok(u))) {
        SocketAction::Send(WsEvent::AuthResult { ok, user_id, error }) => {
            assert!(ok);
            assert_eq!(user_id, Some(u));
            assert!(error.is_none());
        }
        _ => panic!("expected an auth result"),
    }
    match s.step(chat_msg()) {
        SocketAction::Echo(r) => {
            assert_eq!(r.content, "[Echo] hi");
            assert_eq!(r.content_type, "text");
            match r.into_event(Uuid::from_u128(1), "2024-01-01T00:00:00+00:00".into()) {
                WsEvent::Message { sender_type, session_id, sender_id, content, .. } => {
                    assert_eq!(sender_type, 2);
                    assert_eq!(session_id, Uuid::from_u128(9));
                    assert!(sender_id.is_none());
                    assert_eq!(content, "[Echo] hi");
                }
                _ => panic!("expected a message"),
            }
        }
        _ => panic!("expected an echo"),
    }
    // a failed check later keeps the connection authenticated
    match s.step(SocketInput::TokenChecked(Err("expired".into()))) {
        SocketAction::Send(WsEvent::AuthResult { ok, user_id, error }) => {
            assert!(!ok);
            assert!(user_id.is_none());
            assert_eq!(error.as_deref(), Some("expired"));
        }
        _ => panic!("expected an auth result"),
    }
    assert_eq!(s.user_id, Some(u));
}

#[test]
fn ping_parse_error_close() {
    let mut s = SocketState::new();
    assert!(matches!(s.step(SocketInput::Text(Ok(WsEvent::Ping { ts: 77 }))), SocketAction::Send(WsEvent::Pong { ts: 77 })));
    match s.step(SocketInput::Text(Err("eof".into()))) {
        SocketAction::Send(WsEvent::Error { code, message }) => {
            assert_eq!((code.as_str(), message.as_str()), ("PARSE_ERROR", "Invalid message: eof"));
        }
        _ => panic!("expected an error"),
    }
    assert!(matches!(s.step(SocketInput::Text(Ok(WsEvent::StopGeneration))), SocketAction::Ignore));
    assert!(matches!(s.step(SocketInput::Other), SocketAction::Ignore));
    assert!(matches!(s.step(SocketInput::Close), SocketAction::Stop));
}

#[test]
fn chat_event_builder() {
    match WsEvent::chat(Uuid::from_u128(3), "yo".to_string()) {
        WsEvent::ChatMessage { session_id, content, content_type } => {
            assert_eq!(session_id, Uuid::from_u128(3));
            assert_eq!(content, "yo");
            assert!(content_type.is_none());
        }
        _ => panic!("expected a chat message"),
    }
}

#[test]
fn authentication_follows_the_last_successful_check() {
    let mut s = SocketState::new();
    let a = Uuid::from_u128(1);
    let b = Uuid::from_u128(2);
    s.step(SocketInput::TokenChecked(Err("Invalid token".into())));
    assert_eq!(s.user_id, None);
    s.step(SocketInput::Other);
    s.step(SocketInput::TokenChecked(Ok(a)));
    assert_eq!(s.user_id, Some(a));
    s.step(SocketInput::TokenChecked(Err("Invalid token".into())));
    s.step(chat_msg());
    assert_eq!(s.user_id, Some(a));
    s.step(SocketInput::TokenChecked(Ok(b)));
    assert_eq!(s.user_id, Some(b));
}
