//! The data models of users, chat sessions, members, agents, messages and
//! tasks, as the database stores them and the API returns them.

use vstd::prelude::*;
use uuid::Uuid;

verus! {

/// `uuid::Uuid`, carried through the logic as an opaque identifier.
#[verifier::external_type_specification]
#[verifier::external_body]
pub struct ExUuid(Uuid);

/// An instant in UTC, as microseconds since the Unix epoch (the precision
/// the database keeps).
#[derive(Clone, Copy, Debug, PartialEq, Eq, Structural)]
pub struct Timestamp {
    pub micros: i64,
}

/// `serde_json::Value`, an agent's opaque tool configuration.
#[verifier::external_type_specification]
#[verifier::external_body]
pub struct ExJsonValue(serde_json::Value);

/// A registered user, with the hash of the password.
pub struct User {
    pub id: Uuid,
    pub username: String,
    pub email: String,
    pub password_hash: String,
    pub display_name: Option<String>,
    pub avatar_url: Option<String>,
    pub is_active: bool,
    pub created_at: Timestamp,
    pub updated_at: Timestamp,
}

/// The input of a registration.
pub struct CreateUser {
    pub username: String,
    pub email: String,
    pub password: String,
    pub display_name: Option<String>,
}

/// What the API shows of a user: everything but the password hash and the
/// update time.
pub struct UserPublic {
    pub id: Uuid,
    pub username: String,
    pub email: String,
    pub display_name: Option<String>,
    pub avatar_url: Option<String>,
    pub is_active: bool,
    pub created_at: Timestamp,
}

impl From<User> for UserPublic {
    fn from(u: User) -> (r: Self) {
        UserPublic {
            id: u.id,
            username: u.username,
            email: u.email,
            display_name: u.display_name,
            avatar_url: u.avatar_url,
            is_active: u.is_active,
            created_at: u.created_at,
        }
    }
}

impl vstd::std_specs::convert::FromSpecImpl<User> for UserPublic {
    open spec fn obeys_from_spec() -> bool {
        true
    }

    open spec fn from_spec(u: User) -> UserPublic {
        UserPublic {
            id: u.id,
            username: u.username,
            email: u.email,
            display_name: u.display_name,
            avatar_url: u.avatar_url,
            is_active: u.is_active,
            created_at: u.created_at,
        }
    }
}

/// A chat session.
pub struct Session {
    pub id: Uuid,
    pub name: String,
    pub session_type: i16,
    pub created_by: Uuid,
    pub is_archived: bool,
    pub created_at: Timestamp,
    pub updated_at: Timestamp,
}

/// The input of a session creation.
pub struct CreateSession {
    pub name: Option<String>,
    pub session_type: Option<i16>,
    pub agent_ids: Option<Vec<Uuid>>,
}

/// A member of a session.
pub struct MemberInfo {
    pub session_id: Uuid,
    pub user_id: Uuid,
    pub role: String,
    pub joined_at: Timestamp,
}

/// A session with its members.
pub struct SessionWithMembers {
    pub session: Session,
    pub members: Vec<MemberInfo>,
}

/// An AI agent that can take part in sessions.
pub struct Agent {
    pub id: Uuid,
    pub name: String,
    pub role: String,
    pub system_prompt: String,
    pub model: String,
    pub tools: serde_json::Value,
    pub is_active: bool,
    pub created_at: Timestamp,
    pub updated_at: Timestamp,
}

/// A stored chat message.
pub struct Message {
    pub id: Uuid,
    pub session_id: Uuid,
    pub sender_type: i16,
    pub sender_id: Option<Uuid>,
    pub content: String,
    pub content_type: String,
    pub token_count: i32,
    pub created_at: Timestamp,
}

/// The input of a message sent to a session.
pub struct SendMessage {
    pub content: String,
    pub content_type: Option<String>,
}

/// What the API shows of a message: everything but its token count.
pub struct MessageOut {
    pub id: Uuid,
    pub session_id: Uuid,
    pub sender_type: i16,
    pub sender_id: Option<Uuid>,
    pub content: String,
    pub content_type: String,
    pub created_at: Timestamp,
}

impl From<Message> for MessageOut {
    fn from(m: Message) -> (r: Self) {
        MessageOut {
            id: m.id,
            session_id: m.session_id,
            sender_type: m.sender_type,
            sender_id: m.sender_id,
            content: m.content,
            content_type: m.content_type,
            created_at: m.created_at,
        }
    }
}

impl vstd::std_specs::convert::FromSpecImpl<Message> for MessageOut {
    open spec fn obeys_from_spec() -> bool {
        true
    }

    open spec fn from_spec(m: Message) -> MessageOut {
        public_message(m)
    }
}

/// What the API shows of a stored message.
pub open spec fn public_message(m: Message) -> MessageOut {
    MessageOut {
        id: m.id,
        session_id: m.session_id,
        sender_type: m.sender_type,
        sender_id: m.sender_id,
        content: m.content,
        content_type: m.content_type,
        created_at: m.created_at,
    }
}

/// The public form of a message keeps every field of it but the token
/// count: the same id, session, sender type, sender, content, content
/// type and creation time.
pub proof fn law_public_message_keeps_fields(m: Message)
    ensures
        public_message(m).id == m.id,
        public_message(m).session_id == m.session_id,
        public_message(m).sender_type == m.sender_type,
        public_message(m).sender_id == m.sender_id,
        public_message(m).content == m.content,
        public_message(m).content_type == m.content_type,
        public_message(m).created_at == m.created_at,
{
}

/// A task within a session.
pub struct Task {
    pub id: Uuid,
    pub session_id: Uuid,
    pub assigned_to: Option<Uuid>,
    pub title: String,
    pub description: Option<String>,
    pub status: String,
    pub priority: i16,
    pub due_at: Option<Timestamp>,
    pub created_at: Timestamp,
    pub updated_at: Timestamp,
}

/// The input of a task creation.
pub struct CreateTask {
    pub title: String,
    pub description: Option<String>,
    pub assigned_to: Option<Uuid>,
    pub priority: Option<i16>,
    pub due_at: Option<Timestamp>,
}

} // verus!
