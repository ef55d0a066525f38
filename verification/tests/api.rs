use ragent::api::{
    authenticate, bearer_token, check_login_input, check_refresh_input, chronological, conflict_error,
    message_content_type, message_limit, require_active_user, require_session, session_settings, validate_registration, Pagination,
};
use ragent::auth::hash_password;
use ragent::error::AppError;
use ragent::models::{CreateSession, CreateUser, Message, MessageOut, SendMessage, Timestamp, User, UserPublic};
use uuid::Uuid;

fn reg(u: &str, p: &str) -> CreateUser {
    CreateUser { username: u.into(), email: "e@x".into(), password: p.into(), display_name: None }
}

#[test]
fn registration_rules() {
    assert_eq!(validate_registration(&reg("ab", "x")), Err(AppError::Validation("Username must be at least 3 characters".into())));
    assert_eq!(validate_registration(&reg("abc", "1234567")), Err(AppError::Validation("Password must be at least 8 characters".into())));
    assert_eq!(validate_registration(&reg("abc", "12345678")), Ok(()));
    // lengths are counted in UTF-8 bytes
    assert_eq!(validate_registration(&reg("üa", "12345678")), Ok(()));
}

#[test]
fn conflicts() {
    assert_eq!(conflict_error("users_username_key"), AppError::Validation("Username already exists".into()));
    assert_eq!(conflict_error("users_email_key"), AppError::Validation("Email already exists".into()));
}

#[test]
fn login_inputs() {
    assert_eq!(check_login_input("", "p"), Err(AppError::Validation("Username and password required".into())));
    assert_eq!(check_login_input("u", ""), Err(AppError::Validation("Username and password required".into())));
    assert_eq!(check_login_input("u", "p"), Ok(()));
    assert_eq!(check_refresh_input(""), Err(AppError::Unauthorized("Refresh token required".into())));
    assert_eq!(check_refresh_input("t"), Ok(()));
}

fn user(hash: String) -> User {
    User {
        id: Uuid::from_u128(1),
        username: "alice".into(),
        email: "a@x".into(),
        password_hash: hash,
        display_name: Some("Alice".into()),
        avatar_url: None,
        is_active: true,
        created_at: Timestamp { micros: 5 },
        updated_at: Timestamp { micros: 6 },
    }
}

#[test]
fn authentication() {
    assert_eq!(authenticate(None, "pw").err(), Some(AppError::Unauthorized("Invalid credentials".into())));
    let h = hash_password("password1").unwrap();
    assert!(authenticate(Some(user(h.clone())), "password1").is_ok());
    assert_eq!(authenticate(Some(user(h)), "password2").err(), Some(AppError::Unauthorized("Invalid credentials".into())));
    assert!(matches!(authenticate(Some(user("bad".into())), "x").err(), Some(AppError::Internal(_))));
}

#[test]
fn bearer_headers() {
    assert_eq!(bearer_token("Bearer abc.def"), Some("abc.def".to_string()));
    assert_eq!(bearer_token("Bearer "), Some(String::new()));
    assert_eq!(bearer_token("bearer abc"), None);
    assert_eq!(bearer_token("Basic xyz"), None);
    assert_eq!(bearer_token("Bear"), None);
}

#[test]
fn chat_defaults() {
    let (n, t) = session_settings(&CreateSession { name: None, session_type: None, agent_ids: None });
    assert_eq!((n.as_str(), t), ("New Chat", 1));
    let (n, t) = session_settings(&CreateSession { name: Some("Plan".into()), session_type: Some(2), agent_ids: None });
    assert_eq!((n.as_str(), t), ("Plan", 2));
    assert_eq!(message_content_type(&SendMessage { content: "x".into(), content_type: None }), "text");
    assert_eq!(message_content_type(&SendMessage { content: "x".into(), content_type: Some("md".into()) }), "md");
    assert_eq!(message_limit(&Pagination { before: None, limit: None }), 50);
    assert_eq!(message_limit(&Pagination { before: None, limit: Some(7) }), 7);
    assert_eq!(message_limit(&Pagination { before: None, limit: Some(1000) }), 100);
    assert!(matches!(require_session(None), Err(AppError::NotFound(m)) if m == "Session not found"));
}

fn msg(k: u128) -> Message {
    Message {
        id: Uuid::from_u128(k),
        session_id: Uuid::from_u128(100),
        sender_type: 0,
        sender_id: None,
        content: format!("m{}", k),
        content_type: "text".into(),
        token_count: 9,
        created_at: Timestamp { micros: k as i64 },
    }
}

#[test]
fn listing_is_chronological() {
    let out: Vec<MessageOut> = chronological(vec![msg(3), msg(2), msg(1)]);
    let ids: Vec<u128> = out.iter().map(|m| m.id.as_u128()).collect();
    assert_eq!(ids, vec![1, 2, 3]);
    assert_eq!(out[0].content, "m1");
    assert_eq!(out[2].created_at, Timestamp { micros: 3 });
}

#[test]
fn public_user_view() {
    let p = UserPublic::from(user("h".into()));
    assert_eq!(p.username, "alice");
    assert_eq!(p.display_name.as_deref(), Some("Alice"));
    assert_eq!(p.created_at, Timestamp { micros: 5 });
}

#[test]
fn refresh_needs_an_active_user() {
    let got = require_active_user(Some(user("h".into()))).ok().unwrap();
    assert_eq!((got.id, got.username.as_str(), got.password_hash.as_str()), (Uuid::from_u128(1), "alice", "h"));
    let mut inactive = user("h".into());
    inactive.is_active = false;
    let refused = Some(AppError::Unauthorized("User not found or inactive".into()));
    assert_eq!(require_active_user(Some(inactive)).err(), refused);
    assert_eq!(require_active_user(None).err(), refused);
}
