//! The events of a chat socket, and the socket's state machine: how each
//! incoming frame changes the connection and what is sent back.

use vstd::prelude::*;
use uuid::Uuid;
use crate::text::{concat, owned};

verus! {

/// All events sent over the WebSocket connection.
#[allow(inconsistent_fields)]
pub enum WsEvent {
    // ─── Client → Server ─────────────────────────────
    /// Authenticate the WebSocket connection.
    Auth { token: String },
    /// Send a chat message.
    ChatMessage { session_id: Uuid, content: String, content_type: Option<String> },
    /// Request message history.
    History { session_id: Uuid, before: Option<Uuid>, limit: Option<u32> },
    /// Start a new chat session.
    NewSession { name: Option<String>, session_type: Option<i16> },
    /// Stop the current agent generation.
    StopGeneration,
    /// Client heartbeat.
    Ping { ts: i64 },
    // ─── Server → Client ─────────────────────────────
    /// Auth result.
    AuthResult { ok: bool, user_id: Option<Uuid>, error: Option<String> },
    /// A new message was created.
    Message {
        id: Uuid,
        session_id: Uuid,
        sender_type: i16,
        sender_id: Option<Uuid>,
        content: String,
        content_type: String,
        created_at: String,
    },
    /// Agent is currently generating (streaming).
    StreamStart { session_id: Uuid, agent_id: Uuid },
    /// A chunk of streamed content.
    StreamChunk { session_id: Uuid, chunk: String },
    /// Agent finished generating.
    StreamEnd { session_id: Uuid },
    /// Task status updated.
    TaskUpdate { task_id: Uuid, status: String },
    /// Heartbeat response.
    Pong { ts: i64 },
    /// Generic error.
    Error { code: String, message: String },
}

impl WsEvent {
    /// Create a chat message event.
    pub fn chat(session_id: Uuid, content: String) -> (e: Self)
        ensures
            e matches WsEvent::ChatMessage { session_id: s, content: c, content_type: t } && s
                == session_id && c == content && t is None,
    {
        WsEvent::ChatMessage { session_id, content, content_type: None }
    }
}

/// The sender type of a message written by the system.
pub open spec fn system_sender() -> i16 {
    2
}

/// The connection's state: the authenticated user, once there is one.
pub struct SocketState {
    pub user_id: Option<Uuid>,
}

/// What the connection receives.
pub enum SocketInput {
    /// A text frame: the event it holds, or the parser's error message.
    Text(Result<WsEvent, String>),
    /// The outcome of checking an authentication token: its user, or the
    /// error's message.
    TokenChecked(Result<Uuid, String>),
    /// A close frame.
    Close,
    /// Any other frame.
    Other,
}

/// An echo of a chat message, to be sent as a system message.
pub struct EchoReply {
    pub session_id: Uuid,
    pub content: String,
    pub content_type: String,
}

/// What the connection does next.
pub enum SocketAction {
    /// Send this event.
    Send(WsEvent),
    /// Check this access token, then report the outcome.
    CheckToken(String),
    /// Send this echo as a new system message.
    Echo(EchoReply),
    /// Nothing.
    Ignore,
    /// End the connection.
    Stop,
}

/// `e` is an error event with this code and message.
pub open spec fn error_event(e: WsEvent, code: Seq<char>, message: Seq<char>) -> bool {
    e matches WsEvent::Error { code: c, message: m } && c@ == code && m@ == message
}

/// `e` is an authentication result with these fields.
pub open spec fn auth_result_is(e: WsEvent, ok: bool, user: Option<Uuid>, error: Option<Seq<char>>) -> bool {
    e matches WsEvent::AuthResult { ok: o, user_id, error: err } && o == ok && user_id == user && match err {
        Some(m) => error == Some(m@),
        None => error is None,
    }
}

/// The content type of a chat message: its own, or `text`.
pub open spec fn content_type_or_text(t: Option<String>) -> Seq<char> {
    match t {
        Some(s) => s@,
        None => "text"@,
    }
}

/// One step of the connection: from state `s`, on input `input`, the state
/// becomes `s2` and the connection does `a`.
///
/// A token check that succeeds authenticates the connection and is answered
/// with a positive `AuthResult`; one that fails leaves the state as it was
/// and is answered with a negative one.  A ping is answered with a pong of
/// the same time stamp.  A chat message is echoed once the connection is
/// authenticated and refused with `UNAUTHORIZED` before.  A text frame that
/// holds no event is answered with `PARSE_ERROR`.  A close frame ends the
/// connection; everything else is ignored.
pub open spec fn step_rel(s: SocketState, input: SocketInput, s2: SocketState, a: SocketAction) -> bool {
    match input {
        SocketInput::Text(Err(msg)) => s2 == s && (a matches SocketAction::Send(e) && error_event(
            e,
            "PARSE_ERROR"@,
            "Invalid message: "@ + msg@,
        )),
        SocketInput::Text(Ok(WsEvent::Auth { token })) => s2 == s && (a matches SocketAction::CheckToken(
            t,
        ) && t == token),
        SocketInput::Text(Ok(WsEvent::Ping { ts })) => s2 == s && (a matches SocketAction::Send(e)
            && e == WsEvent::Pong { ts }),
        SocketInput::Text(Ok(WsEvent::ChatMessage { session_id, content, content_type })) => {
            &&& s2 == s
            &&& s.user_id is None ==> (a matches SocketAction::Send(e) && error_event(
                e,
                "UNAUTHORIZED"@,
                "Authenticate first"@,
            ))
            &&& s.user_id is Some ==> (a matches SocketAction::Echo(r) && r.session_id == session_id
                && r.content@ == "[Echo] "@ + content@ && r.content_type@ == content_type_or_text(
                content_type,
            ))
        },
        SocketInput::Text(Ok(_)) => s2 == s && a is Ignore,
        SocketInput::TokenChecked(Ok(u)) => s2.user_id == Some(u) && (a matches SocketAction::Send(e)
            && auth_result_is(e, true, Some(u), None)),
        SocketInput::TokenChecked(Err(msg)) => s2 == s && (a matches SocketAction::Send(e)
            && auth_result_is(e, false, None, Some(msg@))),
        SocketInput::Close => s2 == s && a is Stop,
        SocketInput::Other => s2 == s && a is Ignore,
    }
}

impl SocketState {
    /// A new, unauthenticated connection.
    pub fn new() -> (s: Self)
        ensures
            s.user_id is None,
    {
        SocketState { user_id: None }
    }

    /// Takes one input, as `step_rel` describes.
    pub fn step(&mut self, input: SocketInput) -> (a: SocketAction)
        ensures
            step_rel(*old(self), input, *final(self), a),
    {
        match input {
            SocketInput::Text(Err(msg)) => {
                proof {
                    reveal_strlit("PARSE_ERROR");
                    reveal_strlit("Invalid message: ");
                }
                SocketAction::Send(
                    WsEvent::Error {
                        code: owned("PARSE_ERROR"),
                        message: concat("Invalid message: ", msg.as_str()),
                    },
                )
            },
            SocketInput::Text(Ok(event)) => match event {
                WsEvent::Auth { token } => SocketAction::CheckToken(token),
                WsEvent::Ping { ts } => SocketAction::Send(WsEvent::Pong { ts }),
                WsEvent::ChatMessage { session_id, content, content_type } => {
                    match self.user_id {
                        None => {
                            proof {
                                reveal_strlit("UNAUTHORIZED");
                                reveal_strlit("Authenticate first");
                            }
                            SocketAction::Send(
                                WsEvent::Error {
                                    code: owned("UNAUTHORIZED"),
                                    message: owned("Authenticate first"),
                                },
                            )
                        },
                        Some(_) => {
                            proof {
                                reveal_strlit("[Echo] ");
                                reveal_strlit("text");
                            }
                            let content_type = match content_type {
                                Some(t) => t,
                                None => owned("text"),
                            };
                            SocketAction::Echo(
                                EchoReply {
                                    session_id,
                                    content: concat("[Echo] ", content.as_str()),
                                    content_type,
                                },
                            )
                        },
                    }
                },
                _ => SocketAction::Ignore,
            },
            SocketInput::TokenChecked(Ok(u)) => {
                self.user_id = Some(u);
                SocketAction::Send(WsEvent::AuthResult { ok: true, user_id: Some(u), error: None })
            },
            SocketInput::TokenChecked(Err(msg)) => SocketAction::Send(
                WsEvent::AuthResult { ok: false, user_id: None, error: Some(msg) },
            ),
            SocketInput::Close => SocketAction::Stop,
            SocketInput::Other => SocketAction::Ignore,
        }
    }
}

impl EchoReply {
    /// The system message that carries the echo, with a fresh id and its
    /// creation time (RFC 3339).
    pub fn into_event(self, id: Uuid, created_at: String) -> (e: WsEvent)
        ensures
            e matches WsEvent::Message {
                id: i,
                session_id,
                sender_type,
                sender_id,
                content,
                content_type,
                created_at: c,
            } && i == id && session_id == self.session_id && sender_type == system_sender()
                && sender_id is None && content == self.content && content_type == self.content_type
                && c == created_at,
    {
        WsEvent::Message {
            id,
            session_id: self.session_id,
            sender_type: 2,
            sender_id: None,
            content: self.content,
            content_type: self.content_type,
            created_at,
        }
    }
}

/// A connection answers chat messages only once authenticated: from an
/// unauthenticated state, a chat message is never echoed.
pub proof fn law_no_echo_before_auth(s: SocketState, input: SocketInput, s2: SocketState, a: SocketAction)
    requires
        s.user_id is None,
        input matches SocketInput::Text(Ok(WsEvent::ChatMessage { .. })),
        step_rel(s, input, s2, a),
    ensures
        !(a is Echo),
        s2.user_id is None,
{
}

/// Authentication sticks: once a connection has a user, no input takes it
/// away (a failed token check leaves it authenticated).
pub proof fn law_auth_sticks(s: SocketState, input: SocketInput, s2: SocketState, a: SocketAction)
    requires
        s.user_id is Some,
        step_rel(s, input, s2, a),
    ensures
        s2.user_id is Some,
{
}

/// An authenticated connection echoes a chat message to its session with
/// the `[Echo] ` prefix and with the message's own content type, or `text`
/// where it has none.
pub proof fn law_echo_keeps_content_type(
    s: SocketState,
    session_id: Uuid,
    content: String,
    content_type: Option<String>,
    s2: SocketState,
    a: SocketAction,
)
    requires
        s.user_id is Some,
        step_rel(
            s,
            SocketInput::Text(Ok(WsEvent::ChatMessage { session_id, content, content_type })),
            s2,
            a,
        ),
    ensures
        a is Echo,
        a->Echo_0.session_id == session_id,
        a->Echo_0.content@ == "[Echo] "@ + content@,
        content_type matches Some(t) ==> a->Echo_0.content_type@ == t@,
        content_type is None ==> a->Echo_0.content_type@ == "text"@,
        s2 == s,
{
}

/// After a successful token check, the next chat message is echoed to its
/// session with the `[Echo] ` prefix.
pub proof fn law_echo_after_auth(
    s0: SocketState,
    u: Uuid,
    s1: SocketState,
    a1: SocketAction,
    msg: WsEvent,
    s2: SocketState,
    a2: SocketAction,
)
    requires
        step_rel(s0, SocketInput::TokenChecked(Ok(u)), s1, a1),
        msg is ChatMessage,
        step_rel(s1, SocketInput::Text(Ok(msg)), s2, a2),
    ensures
        a2 matches SocketAction::Echo(r) && r.session_id == msg->ChatMessage_session_id && r.content@
            == "[Echo] "@ + msg->ChatMessage_content@,
        s2.user_id == Some(u),
{
}

/// The user of the last successful token check among the first `n` inputs.
pub open spec fn last_checked_user(inputs: Seq<SocketInput>, n: int) -> Option<Uuid>
    decreases n,
{
    if n <= 0 {
        None
    } else {
        match inputs[n - 1] {
            SocketInput::TokenChecked(Ok(u)) => Some(u),
            _ => last_checked_user(inputs, n - 1),
        }
    }
}

/// `states` and `actions` are a run of a new connection on `inputs`: it
/// starts unauthenticated and each input takes one step.
pub open spec fn is_run(inputs: Seq<SocketInput>, states: Seq<SocketState>, actions: Seq<SocketAction>) -> bool {
    &&& states.len() == inputs.len() + 1
    &&& actions.len() == inputs.len()
    &&& states[0].user_id is None
    &&& forall|k: int| 0 <= k < inputs.len() ==> step_rel(#[trigger] states[k], inputs[k], states[k + 1], actions[k])
}

/// Over a whole connection: after any number of inputs, the connection is
/// authenticated exactly when some earlier token check succeeded, and its
/// user is that of the last such check; a failed check revokes nothing.
pub proof fn law_auth_history(inputs: Seq<SocketInput>, states: Seq<SocketState>, actions: Seq<SocketAction>)
    requires
        is_run(inputs, states, actions),
    ensures
        forall|n: int| 0 <= n <= inputs.len() ==> (#[trigger] states[n]).user_id == last_checked_user(inputs, n),
        forall|n: int| 0 <= n <= inputs.len() ==> ((#[trigger] states[n]).user_id is Some <==> exists|k: int|
            0 <= k < n && (#[trigger] inputs[k]) matches SocketInput::TokenChecked(Ok(_))),
{
    assert forall|n: int| 0 <= n <= inputs.len() implies (#[trigger] states[n]).user_id == last_checked_user(inputs, n) by {
        lemma_run_user(inputs, states, actions, n);
    }
    assert forall|n: int| 0 <= n <= inputs.len() implies ((#[trigger] states[n]).user_id is Some <==> exists|k: int|
        0 <= k < n && (#[trigger] inputs[k]) matches SocketInput::TokenChecked(Ok(_))) by {
        lemma_run_user(inputs, states, actions, n);
        lemma_last_checked_some(inputs, n);
    }
}

proof fn lemma_run_user(inputs: Seq<SocketInput>, states: Seq<SocketState>, actions: Seq<SocketAction>, n: int)
    requires
        is_run(inputs, states, actions),
        0 <= n <= inputs.len(),
    ensures
        states[n].user_id == last_checked_user(inputs, n),
    decreases n,
{
    if n > 0 {
        lemma_run_user(inputs, states, actions, n - 1);
        assert(step_rel(states[n - 1], inputs[n - 1], states[n], actions[n - 1]));
    }
}

proof fn lemma_last_checked_some(inputs: Seq<SocketInput>, n: int)
    requires
        0 <= n <= inputs.len(),
    ensures
        last_checked_user(inputs, n) is Some <==> exists|k: int|
            0 <= k < n && (#[trigger] inputs[k]) matches SocketInput::TokenChecked(Ok(_)),
    decreases n,
{
    if n > 0 {
        lemma_last_checked_some(inputs, n - 1);
        if last_checked_user(inputs, n) is Some && !(inputs[n - 1] matches SocketInput::TokenChecked(Ok(_))) {
            let k = choose|k: int| 0 <= k < n - 1 && (#[trigger] inputs[k]) matches SocketInput::TokenChecked(Ok(_));
            assert(0 <= k < n);
        }
        if inputs[n - 1] matches SocketInput::TokenChecked(Ok(_)) {
            assert(0 <= n - 1 < n);
        } else if exists|k: int| 0 <= k < n && (#[trigger] inputs[k]) matches SocketInput::TokenChecked(Ok(_)) {
            let k = choose|k: int| 0 <= k < n && (#[trigger] inputs[k]) matches SocketInput::TokenChecked(Ok(_));
            assert(k < n - 1);
        }
    }
}

} // verus!
