//! The rules of the HTTP API: what registration, login, token refresh and
//! the chat routes accept, the defaults they fill in, and the errors they
//! answer with.  Storage and transport are the caller's.

use vstd::prelude::*;
use vstd::utf8::encode_utf8;
use uuid::Uuid;
use crate::auth::{check_outcome, verify_password};
use crate::error::{AppError, AppResult, is_validation, is_unauthorized, is_not_found};
use crate::models::{public_message, CreateSession, CreateUser, Message, MessageOut, SendMessage, Session, User};
use crate::text::{chars_of, contains, contains_text, owned, string_from_chars};

verus! {

/// Paging of a message listing.
pub struct Pagination {
    pub before: Option<Uuid>,
    pub limit: Option<u32>,
}

/// The length of a text in UTF-8 bytes, as `str::len` counts it.
pub open spec fn byte_len(s: Seq<char>) -> nat {
    encode_utf8(s).len()
}

/// Checks a registration: the username must have at least 3 bytes and the
/// password at least 8, the username being checked first.
pub fn validate_registration(input: &CreateUser) -> (r: AppResult<()>)
    ensures
        byte_len(input.username@) < 3 ==> (r matches Err(e) && is_validation(
            e,
            "Username must be at least 3 characters"@,
        )),
        byte_len(input.username@) >= 3 && byte_len(input.password@) < 8 ==> (r matches Err(e)
            && is_validation(e, "Password must be at least 8 characters"@)),
        byte_len(input.username@) >= 3 && byte_len(input.password@) >= 8 ==> r is Ok,
{
    if input.username.as_str().as_bytes().len() < 3 {
        proof {
            reveal_strlit("Username must be at least 3 characters");
        }
        return Err(AppError::Validation(owned("Username must be at least 3 characters")));
    }
    if input.password.as_str().as_bytes().len() < 8 {
        proof {
            reveal_strlit("Password must be at least 8 characters");
        }
        return Err(AppError::Validation(owned("Password must be at least 8 characters")));
    }
    Ok(())
}

/// The error of a registration that broke a uniqueness constraint: the
/// username is taken when the constraint's name mentions `username`, the
/// email otherwise.
pub fn conflict_error(constraint: &str) -> (e: AppError)
    ensures
        contains_text(constraint@, "username"@) ==> is_validation(e, "Username already exists"@),
        !contains_text(constraint@, "username"@) ==> is_validation(e, "Email already exists"@),
{
    proof {
        reveal_strlit("username");
        reveal_strlit("Username already exists");
        reveal_strlit("Email already exists");
    }
    if contains(constraint, "username") {
        AppError::Validation(owned("Username already exists"))
    } else {
        AppError::Validation(owned("Email already exists"))
    }
}

/// Checks the fields of a login: both must be non-empty.
pub fn check_login_input(username: &str, password: &str) -> (r: AppResult<()>)
    ensures
        username@.len() == 0 || password@.len() == 0 ==> (r matches Err(e) && is_validation(
            e,
            "Username and password required"@,
        )),
        username@.len() > 0 && password@.len() > 0 ==> r is Ok,
{
    if username.is_empty() || password.is_empty() {
        proof {
            reveal_strlit("Username and password required");
        }
        return Err(AppError::Validation(owned("Username and password required")));
    }
    Ok(())
}

/// Authenticates a login against the active user found under its username
/// (if any): an unknown user and a wrong password give the same
/// `Invalid credentials`, a stored hash that is no PHC string an internal
/// error.
pub fn authenticate(user: Option<User>, password: &str) -> (r: AppResult<User>)
    ensures
        user is None ==> (r matches Err(e) && is_unauthorized(e, "Invalid credentials"@)),
        user matches Some(u) ==> match check_outcome(password@, u.password_hash@) {
            Some(true) => r == Ok::<User, AppError>(u),
            Some(false) => (r matches Err(e) && is_unauthorized(e, "Invalid credentials"@)),
            None => (r matches Err(e) && e is Internal),
        },
{
    proof {
        reveal_strlit("Invalid credentials");
    }
    match user {
        None => Err(AppError::Unauthorized(owned("Invalid credentials"))),
        Some(u) => match verify_password(password, u.password_hash.as_str()) {
            Err(e) => Err(e),
            Ok(false) => Err(AppError::Unauthorized(owned("Invalid credentials"))),
            Ok(true) => Ok(u),
        },
    }
}

/// The active user that a refresh token names, as the lookup found it: a
/// user that is missing, or no longer active, is refused with
/// `User not found or inactive`.
pub fn require_active_user(found: Option<User>) -> (r: AppResult<User>)
    ensures
        found matches Some(u) ==> (u.is_active ==> r == Ok::<User, AppError>(u)),
        found matches Some(u) ==> (!u.is_active ==> (r matches Err(e) && is_unauthorized(
            e,
            "User not found or inactive"@,
        ))),
        found is None ==> (r matches Err(e) && is_unauthorized(e, "User not found or inactive"@)),
{
    match found {
        Some(u) => {
            if u.is_active {
                return Ok(u);
            }
        },
        None => {},
    }
    proof {
        reveal_strlit("User not found or inactive");
    }
    Err(AppError::Unauthorized(owned("User not found or inactive")))
}

/// Checks that a refresh request carries a token.
pub fn check_refresh_input(refresh_token: &str) -> (r: AppResult<()>)
    ensures
        refresh_token@.len() == 0 ==> (r matches Err(e) && is_unauthorized(
            e,
            "Refresh token required"@,
        )),
        refresh_token@.len() > 0 ==> r is Ok,
{
    if refresh_token.is_empty() {
        proof {
            reveal_strlit("Refresh token required");
        }
        return Err(AppError::Unauthorized(owned("Refresh token required")));
    }
    Ok(())
}

/// The token of an `Authorization` header value of the form
/// `Bearer <token>`; `None` for any other form.
pub fn bearer_token(header: &str) -> (t: Option<String>)
    ensures
        header@.len() >= 7 && header@.take(7) == "Bearer "@ ==> (t matches Some(s) && s@
            == header@.skip(7)),
        !(header@.len() >= 7 && header@.take(7) == "Bearer "@) ==> t is None,
{
    proof {
        reveal_strlit("Bearer ");
    }
    let cs = chars_of(header);
    let prefix = chars_of("Bearer ");
    assert(prefix@.len() == 7);
    if cs.len() < 7 {
        return None;
    }
    let mut i: usize = 0;
    while i < 7
        invariant
            cs@ == header@,
            prefix@ == "Bearer "@,
            prefix@.len() == 7,
            cs.len() >= 7,
            i <= 7,
            forall|k: int| 0 <= k < i ==> cs@[k] == prefix@[k],
        decreases 7 - i,
    {
        if cs[i] != prefix[i] {
            assert(header@.take(7)[i as int] != "Bearer "@[i as int]);
            return None;
        }
        i = i + 1;
    }
    assert(header@.take(7) =~= "Bearer "@);
    let rest = string_from_chars(cs.as_slice(), 7);
    Some(rest)
}

/// The name and type of a new session: `New Chat` and type 1 unless given.
pub fn session_settings(input: &CreateSession) -> (r: (String, i16))
    ensures
        r.0@ == match input.name {
            Some(n) => n@,
            None => "New Chat"@,
        },
        r.1 == match input.session_type {
            Some(t) => t,
            None => 1i16,
        },
{
    proof {
        reveal_strlit("New Chat");
    }
    let name = match &input.name {
        Some(n) => owned(n.as_str()),
        None => owned("New Chat"),
    };
    let kind = match input.session_type {
        Some(t) => t,
        None => 1,
    };
    (name, kind)
}

/// The content type of a sent message: `text` unless given.
pub fn message_content_type(input: &SendMessage) -> (t: String)
    ensures
        t@ == match input.content_type {
            Some(c) => c@,
            None => "text"@,
        },
{
    proof {
        reveal_strlit("text");
    }
    match &input.content_type {
        Some(c) => owned(c.as_str()),
        None => owned("text"),
    }
}

/// A session that must exist.
pub fn require_session(found: Option<Session>) -> (r: AppResult<Session>)
    ensures
        found matches Some(s) ==> r == Ok::<Session, AppError>(s),
        found is None ==> (r matches Err(e) && is_not_found(e, "Session not found"@)),
{
    match found {
        Some(s) => Ok(s),
        None => {
            proof {
                reveal_strlit("Session not found");
            }
            Err(AppError::NotFound(owned("Session not found")))
        },
    }
}

/// How many messages a listing returns: 50 unless asked, at most 100.
pub fn message_limit(p: &Pagination) -> (n: i64)
    ensures
        n == match p.limit {
            Some(l) => if l < 100 { l as int } else { 100 },
            None => 50,
        },
{
    let asked = match p.limit {
        Some(l) => l,
        None => 50,
    };
    let n = if asked < 100 { asked } else { 100 };
    n as i64
}

/// The API form of a message listing fetched newest first: the same
/// messages, oldest first.
pub fn chronological(newest_first: Vec<Message>) -> (out: Vec<MessageOut>)
    ensures
        out@.len() == newest_first@.len(),
        forall|k: int| 0 <= k < out@.len() ==> #[trigger] out@[k] == public_message(newest_first@[newest_first@.len() - 1 - k]),
{
    let ghost all = newest_first@;
    let mut rest = newest_first;
    let mut out: Vec<MessageOut> = Vec::new();
    while rest.len() > 0
        invariant
            rest@ == all.take(rest@.len() as int),
            out@.len() + rest@.len() == all.len(),
            forall|k: int| 0 <= k < out@.len() ==> #[trigger] out@[k] == public_message(all[all.len() - 1 - k]),
        decreases rest.len(),
    {
        let m = rest.pop().unwrap();
        assert(all.take(rest@.len() as int + 1).drop_last() =~= all.take(rest@.len() as int));
        let o = MessageOut::from(m);
        out.push(o);
    }
    out
}

} // verus!
