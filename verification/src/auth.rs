//! Password hashing with Argon2, and the access and refresh tokens: their
//! claims, signing them as JWTs and checking them.

use vstd::prelude::*;
use argon2::password_hash::rand_core::{OsRng, RngCore};
use argon2::password_hash::{PasswordHash, PasswordHasher, PasswordVerifier, SaltString};
use argon2::Argon2;
use jsonwebtoken::{decode, encode, DecodingKey, EncodingKey, Header, Validation};
use serde_json::Value;
use uuid::Uuid;
use crate::error::{AppError, AppResult, is_unauthorized};
use crate::text::{owned, same_text};
use vstd::utf8::encode_utf8;

verus! {

/// `argon2::password_hash::Error`, the error of hashing and parsing.
#[verifier::external_type_specification]
#[verifier::external_body]
pub struct ExPasswordHashError(argon2::password_hash::Error);

/// `rand_core::Error`, a failure of the operating system's random source.
#[verifier::external_type_specification]
#[verifier::external_body]
pub struct ExRandError(argon2::password_hash::rand_core::Error);

/// Whether `PasswordHash::new` parses `phc` as a PHC string.
pub uninterp spec fn phc_parses(phc: Seq<char>) -> bool;

/// Whether `Argon2::default().verify_password` accepts `password` against
/// the parsed PHC string `phc`.
pub uninterp spec fn argon2_accepts(password: Seq<u8>, phc: Seq<char>) -> bool;

/// The PHC string of `Argon2::default().hash_password` of `password` with
/// the salt whose raw bytes are `salt`.
pub uninterp spec fn argon2_phc(password: Seq<u8>, salt: Seq<u8>) -> Seq<char>;

/// The largest password, in bytes, that Argon2 hashes (`MAX_PWD_LEN`).
pub open spec fn max_password_bytes() -> nat {
    0xFFFF_FFFF
}

/// Sixteen bytes from the operating system's random source
/// (`OsRng::try_fill_bytes`), or its error.  Nothing is stated of the bytes
/// or of when the source fails.
#[verifier::external_body]
fn random_salt_bytes() -> (r: Result<[u8; 16], argon2::password_hash::rand_core::Error>) {
    let mut bytes = [0u8; 16];
    match OsRng.try_fill_bytes(&mut bytes) {
        Ok(()) => Ok(bytes),
        Err(e) => Err(e),
    }
}

/// `SaltString::encode_b64` of the salt bytes, then
/// `Argon2::default().hash_password` with that salt, rendered as a PHC
/// string.  Stated, as the sources show: the result is a function of the
/// password and the salt (named `argon2_phc`); hashing fails exactly when the
/// password is longer than `MAX_PWD_LEN` (the B64 form of 16 bytes always
/// fits, and a 16-byte salt meets Argon2's salt limits); a produced string
/// begins with `$`, parses with `PasswordHash::new` and verifies against the
/// same password (the argon2 documentation's round trip).
#[verifier::external_body]
fn argon2_hash(password: &[u8], salt: &[u8; 16]) -> (r: Result<String, argon2::password_hash::Error>)
    ensures
        r is Ok <==> password@.len() <= max_password_bytes(),
        r matches Ok(h) ==> h@ == argon2_phc(password@, salt@) && phc_parses(h@) && argon2_accepts(
            password@,
            h@,
        ) && h@.len() > 0 && h@[0] == '$',
{
    let salt = SaltString::encode_b64(salt)?;
    match Argon2::default().hash_password(password, &salt) {
        Ok(h) => Ok(h.to_string()),
        Err(e) => Err(e),
    }
}

/// `PasswordHash::new` on `phc`, then `Argon2::default().verify_password`
/// of `password` against it, reduced to whether it succeeded.  Stated: the
/// parse error is returned exactly when `phc` does not parse, and otherwise
/// the result is whether the password is accepted.
#[verifier::external_body]
fn argon2_verify(password: &[u8], phc: &str) -> (r: Result<bool, argon2::password_hash::Error>)
    ensures
        r is Ok <==> phc_parses(phc@),
        r matches Ok(b) ==> b == argon2_accepts(password@, phc@),
{
    match PasswordHash::new(phc) {
        Ok(parsed) => Ok(Argon2::default().verify_password(password, &parsed).is_ok()),
        Err(e) => Err(e),
    }
}

/// `phc` is a PHC string that accepts the password `password`.
pub open spec fn password_matches(password: Seq<char>, phc: Seq<char>) -> bool {
    phc_parses(phc) && argon2_accepts(encode_utf8(password), phc)
}

/// What checking `password` against `phc` gives: `None` when `phc` is no
/// PHC string, else whether the password is accepted.
pub open spec fn check_outcome(password: Seq<char>, phc: Seq<char>) -> Option<bool> {
    if phc_parses(phc) {
        Some(argon2_accepts(encode_utf8(password), phc))
    } else {
        None
    }
}

/// Hashes a password with Argon2id under default parameters and the given
/// 16-byte salt, as a PHC string.  It succeeds exactly when the password
/// has at most `MAX_PWD_LEN` bytes.
pub fn hash_password_with_salt(password: &str, salt: &[u8; 16]) -> (r: AppResult<String>)
    ensures
        r is Ok <==> encode_utf8(password@).len() <= max_password_bytes(),
        r matches Ok(h) ==> h@ == argon2_phc(encode_utf8(password@), salt@) && password_matches(
            password@,
            h@,
        ) && h@[0] == '$',
        r matches Err(e) ==> e is Internal,
{
    match argon2_hash(password.as_bytes(), salt) {
        Ok(h) => Ok(h),
        Err(e) => Err(AppError::Internal(e.to_string())),
    }
}

/// Hashes a password with Argon2id under default parameters and a fresh
/// salt of 16 random bytes, as a PHC string.  Whatever the random source
/// gives: a produced hash begins with `$` and verifies against the password,
/// a password longer than `MAX_PWD_LEN` bytes is refused, and a failure is
/// an internal error.  With the salt drawn, the outcome is that of
/// `hash_password_with_salt`; the random source failing is the one other
/// way to fail.
pub fn hash_password(password: &str) -> (r: AppResult<String>)
    ensures
        r matches Ok(h) ==> password_matches(password@, h@) && h@[0] == '$',
        r matches Ok(h) ==> exists|salt: Seq<u8>|
            salt.len() == 16 && h@ == #[trigger] argon2_phc(encode_utf8(password@), salt),
        encode_utf8(password@).len() > max_password_bytes() ==> r is Err,
        r matches Err(e) ==> e is Internal,
{
    match random_salt_bytes() {
        Ok(salt) => {
            assert(salt@.len() == 16);
            hash_password_with_salt(password, &salt)
        },
        Err(e) => Err(AppError::Internal(e.to_string())),
    }
}

/// Checks a password against a PHC string.  A string that is no PHC string
/// is an internal error.
pub fn verify_password(password: &str, hash: &str) -> (r: AppResult<bool>)
    ensures
        r is Ok <==> check_outcome(password@, hash@) is Some,
        r matches Ok(b) ==> check_outcome(password@, hash@) == Some(b),
        r matches Err(e) ==> e is Internal,
{
    match argon2_verify(password.as_bytes(), hash) {
        Ok(b) => Ok(b),
        Err(e) => Err(AppError::Internal(e.to_string())),
    }
}

/// A password hash checks against the password it was made from: when
/// `hash_password(p)` gives `h`, `verify_password(p, h)` gives `Ok(true)`.
pub proof fn law_hash_then_verify(password: Seq<char>, phc: Seq<char>)
    requires
        password_matches(password, phc),
    ensures
        check_outcome(password, phc) == Some(true),
{
}


/// The signing secret and the lifetimes of the two kinds of token.
pub struct JwtConfig {
    pub secret: String,
    pub access_token_expiry_secs: i64,
    pub refresh_token_expiry_secs: i64,
}

/// The claims a token carries: the user, when it expires and was issued
/// (Unix seconds), and whether it is an access or a refresh token.
pub struct Claims {
    pub sub: Uuid,
    pub username: String,
    pub exp: i64,
    pub iat: i64,
    pub token_type: String,
}

/// The tokens handed out at login and refresh.
pub struct TokenPair {
    pub access_token: String,
    pub refresh_token: String,
    pub expires_in: i64,
}

/// The two kinds of token.
#[derive(Clone, Copy, Debug, PartialEq, Eq, Structural)]
pub enum TokenKind {
    Access,
    Refresh,
}

/// The `token_type` claim of a kind of token.
pub open spec fn kind_name(k: TokenKind) -> Seq<char> {
    match k {
        TokenKind::Access => "access"@,
        TokenKind::Refresh => "refresh"@,
    }
}

/// The message given when a token of the wrong kind is presented.
pub open spec fn wrong_kind_message(k: TokenKind) -> Seq<char> {
    match k {
        TokenKind::Access => "Not an access token"@,
        TokenKind::Refresh => "Not a refresh token"@,
    }
}

/// The earliest and latest Unix second of the instants that `chrono`
/// represents (years -262143 to 262142).
pub open spec fn min_timestamp() -> int {
    -8334601315200
}

pub open spec fn max_timestamp() -> int {
    8210266876799
}

/// Adding `secs` seconds to the instant `now` stays within what `chrono`
/// accepts: `TimeDelta::seconds` takes at most `i64::MAX / 1000` seconds
/// either way, and the sum must be a representable instant.
pub open spec fn offset_ok(now: int, secs: int) -> bool {
    &&& -(i64::MAX / 1000) <= secs <= i64::MAX / 1000
    &&& min_timestamp() <= now + secs <= max_timestamp()
}

/// `offset_ok`, computed.
pub fn check_offset(now: i64, secs: i64) -> (b: bool)
    ensures
        b == offset_ok(now as int, secs as int),
{
    let sum = now as i128 + secs as i128;
    -(i64::MAX / 1000) <= secs && secs <= i64::MAX / 1000 && -8334601315200i128 <= sum && sum
        <= 8210266876799i128
}

/// The name of a kind of token, as the `token_type` claim holds it.
pub fn kind_text(k: TokenKind) -> (s: String)
    ensures
        s@ == kind_name(k),
{
    match k {
        TokenKind::Access => {
            proof {
                reveal_strlit("access");
            }
            owned("access")
        },
        TokenKind::Refresh => {
            proof {
                reveal_strlit("refresh");
            }
            owned("refresh")
        },
    }
}

/// The claims of a token of kind `kind` for a user, issued at the Unix
/// second `now` and living `expiry_secs` seconds.
pub fn issue_claims(user_id: Uuid, username: &str, kind: TokenKind, expiry_secs: i64, now: i64) -> (c: Claims)
    requires
        offset_ok(now as int, expiry_secs as int),
    ensures
        c.sub == user_id,
        c.username@ == username@,
        c.exp == now + expiry_secs,
        c.iat == now,
        c.token_type@ == kind_name(kind),
{
    Claims {
        sub: user_id,
        username: owned(username),
        exp: now + expiry_secs,
        iat: now,
        token_type: kind_text(kind),
    }
}

/// The access and refresh claims issued together at the Unix second `now`.
pub fn token_claims(user_id: Uuid, username: &str, config: &JwtConfig, now: i64) -> (r: (Claims, Claims))
    requires
        offset_ok(now as int, config.access_token_expiry_secs as int),
        offset_ok(now as int, config.refresh_token_expiry_secs as int),
    ensures
        r.0.sub == user_id && r.1.sub == user_id,
        r.0.username@ == username@ && r.1.username@ == username@,
        r.0.iat == now && r.1.iat == now,
        r.0.exp == now + config.access_token_expiry_secs,
        r.1.exp == now + config.refresh_token_expiry_secs,
        r.0.token_type@ == kind_name(TokenKind::Access),
        r.1.token_type@ == kind_name(TokenKind::Refresh),
{
    let access = issue_claims(user_id, username, TokenKind::Access, config.access_token_expiry_secs, now);
    let refresh = issue_claims(user_id, username, TokenKind::Refresh, config.refresh_token_expiry_secs, now);
    (access, refresh)
}

/// The pair of encoded tokens, with the lifetime of the access token.
pub fn token_pair(access_token: String, refresh_token: String, config: &JwtConfig) -> (p: TokenPair)
    ensures
        p.access_token == access_token,
        p.refresh_token == refresh_token,
        p.expires_in == config.access_token_expiry_secs,
{
    TokenPair { access_token, refresh_token, expires_in: config.access_token_expiry_secs }
}

/// Accepts decoded claims only when they are of the expected kind.
pub fn check_token_kind(claims: Claims, kind: TokenKind) -> (r: AppResult<Claims>)
    ensures
        claims.token_type@ == kind_name(kind) ==> r == Ok::<Claims, AppError>(claims),
        claims.token_type@ != kind_name(kind) ==> (r matches Err(e) && is_unauthorized(
            e,
            wrong_kind_message(kind),
        )),
{
    let expected = kind_text(kind);
    if same_text(claims.token_type.as_str(), expected.as_str()) {
        Ok(claims)
    } else {
        match kind {
            TokenKind::Access => {
                proof {
                    reveal_strlit("Not an access token");
                }
                Err(AppError::Unauthorized(owned("Not an access token")))
            },
            TokenKind::Refresh => {
                proof {
                    reveal_strlit("Not a refresh token");
                }
                Err(AppError::Unauthorized(owned("Not a refresh token")))
            },
        }
    }
}

/// `jsonwebtoken::errors::Error`, the error of signing and checking tokens.
#[verifier::external_type_specification]
#[verifier::external_body]
pub struct ExJwtError(jsonwebtoken::errors::Error);

/// The claims `(sub, username, exp, iat, token_type)` that `jwt_decode`
/// gives for `token` under the HS256 secret `secret` at any moment before
/// the token expires; `None` when it gives them at no moment (a malformed
/// token, a bad signature, a missing or unusable claim).  Apart from the
/// expiry check against the clock, decoding is a function of the two.
pub uninterp spec fn jwt_claims_of(secret: Seq<char>, token: Seq<char>) -> Option<(Uuid, Seq<char>, int, int, Seq<char>)>;

/// `jsonwebtoken::encode` with the default header (HS256) and
/// `EncodingKey::from_secret`, of a JSON object with the five claims.
/// Stated, as the source shows: HMAC signing of a JSON object cannot fail;
/// and decoding the token with the same secret gives the claims back,
/// provided the expiry is not negative (`Validation` reads `exp` as an
/// unsigned number and requires it).
#[verifier::external_body]
fn jwt_encode(
    secret: &str,
    sub: Uuid,
    username: &str,
    exp: i64,
    iat: i64,
    token_type: &str,
) -> (r: Result<String, jsonwebtoken::errors::Error>)
    ensures
        r is Ok,
        r matches Ok(t) ==> (exp >= 0 ==> jwt_claims_of(secret@, t@) == Some(
            (sub, username@, exp as int, iat as int, token_type@),
        )),
{
    let mut m = serde_json::Map::new();
    m.insert("sub".to_string(), Value::String(sub.to_string()));
    m.insert("username".to_string(), Value::from(username));
    m.insert("exp".to_string(), Value::from(exp));
    m.insert("iat".to_string(), Value::from(iat));
    m.insert("token_type".to_string(), Value::from(token_type));
    encode(&Header::default(), &m, &EncodingKey::from_secret(secret.as_bytes()))
}

/// `jsonwebtoken::decode` with `DecodingKey::from_secret` and the default
/// `Validation` (HS256, `exp` required and not passed, with a minute's
/// leeway), then the five claims read out of the JSON object.  Stated: a
/// result is what `jwt_claims_of` names, and where that names nothing the
/// call fails.  Whether a token that decodes has expired depends on the
/// clock, and is not stated (the call reads the system clock, and panics
/// only when that clock reads before 1970).
#[verifier::external_body]
fn jwt_decode(secret: &str, token: &str) -> (r: Result<(Uuid, String, i64, i64, String), jsonwebtoken::errors::Error>)
    ensures
        r matches Ok(c) ==> jwt_claims_of(secret@, token@) == Some(
            (c.0, c.1@, c.2 as int, c.3 as int, c.4@),
        ),
        jwt_claims_of(secret@, token@) is None ==> r is Err,
{
    let key = DecodingKey::from_secret(secret.as_bytes());
    let c = decode::<Value>(token, &key, &Validation::default())?.claims;
    let fields = vec![c["sub"].clone(), c["username"].clone(), c["exp"].clone(), c["iat"].clone(), c["token_type"].clone()];
    Ok(serde_json::from_value(Value::Array(fields))?)
}

/// The claims as the tuple that `jwt_claims_of` gives.
pub open spec fn claims_tuple(c: Claims) -> (Uuid, Seq<char>, int, int, Seq<char>) {
    (c.sub, c.username@, c.exp as int, c.iat as int, c.token_type@)
}

/// `token`, checked with `secret`, carries the claims of a token of kind
/// `kind` for `user` named `name`, expiring at `exp` and issued at `iat`.
/// (A token whose expiry lies before 1970 is accepted at no moment.)
pub open spec fn carries_claims(
    secret: Seq<char>,
    token: Seq<char>,
    user: Uuid,
    name: Seq<char>,
    exp: int,
    iat: int,
    kind: TokenKind,
) -> bool {
    exp >= 0 ==> jwt_claims_of(secret, token) == Some((user, name, exp, iat, kind_name(kind)))
}

/// Checking `token` with `secret` as a token of kind `kind` may give `c`:
/// these are its claims, and they are of that kind.
pub open spec fn accepted_as(secret: Seq<char>, token: Seq<char>, kind: TokenKind, c: Claims) -> bool {
    jwt_claims_of(secret, token) == Some(claims_tuple(c)) && c.token_type@ == kind_name(kind)
}

/// `token` decodes under `secret`, to claims of another kind than `kind`.
pub open spec fn decodes_as_other_kind(secret: Seq<char>, token: Seq<char>, kind: TokenKind) -> bool {
    match jwt_claims_of(secret, token) {
        Some(t) => t.4 != kind_name(kind),
        None => false,
    }
}

/// Signs claims into a token with the configured secret.
fn sign_claims(c: &Claims, config: &JwtConfig) -> (r: AppResult<String>)
    ensures
        r is Ok,
        r matches Ok(t) ==> (c.exp >= 0 ==> jwt_claims_of(config.secret@, t@) == Some(claims_tuple(*c))),
{
    match jwt_encode(
        config.secret.as_str(),
        c.sub,
        c.username.as_str(),
        c.exp,
        c.iat,
        c.token_type.as_str(),
    ) {
        Ok(t) => Ok(t),
        Err(e) => Err(AppError::Jwt(e.to_string())),
    }
}

/// The access and refresh tokens for a user, issued at the Unix second
/// `now` and signed with the configured secret; `expires_in` is the access
/// token's lifetime.
pub fn generate_tokens(user_id: Uuid, username: &str, config: &JwtConfig, now: i64) -> (r: AppResult<TokenPair>)
    requires
        offset_ok(now as int, config.access_token_expiry_secs as int),
        offset_ok(now as int, config.refresh_token_expiry_secs as int),
    ensures
        r is Ok,
        r matches Ok(p) ==> {
            &&& p.expires_in == config.access_token_expiry_secs
            &&& carries_claims(
                config.secret@,
                p.access_token@,
                user_id,
                username@,
                now + config.access_token_expiry_secs,
                now as int,
                TokenKind::Access,
            )
            &&& carries_claims(
                config.secret@,
                p.refresh_token@,
                user_id,
                username@,
                now + config.refresh_token_expiry_secs,
                now as int,
                TokenKind::Refresh,
            )
        },
{
    let (access, refresh) = token_claims(user_id, username, config, now);
    let access_token = sign_claims(&access, config)?;
    let refresh_token = sign_claims(&refresh, config)?;
    Ok(token_pair(access_token, refresh_token, config))
}

/// Checks a token: its signature and expiry, then that it is of kind
/// `kind`.  A token that decodes at no moment, or has expired, is refused
/// with the token library's error; one of the other kind with
/// `Not an access token` / `Not a refresh token`.
pub fn validate_token(token: &str, config: &JwtConfig, kind: TokenKind) -> (r: AppResult<Claims>)
    ensures
        r matches Ok(c) ==> accepted_as(config.secret@, token@, kind, c),
        jwt_claims_of(config.secret@, token@) is None ==> (r matches Err(e) && e is Jwt),
        decodes_as_other_kind(config.secret@, token@, kind) ==> (r matches Err(e) && (e is Jwt
            || is_unauthorized(e, wrong_kind_message(kind)))),
        r matches Err(e) ==> (e is Jwt || (is_unauthorized(e, wrong_kind_message(kind))
            && decodes_as_other_kind(config.secret@, token@, kind))),
{
    match jwt_decode(config.secret.as_str(), token) {
        Err(e) => Err(AppError::Jwt(e.to_string())),
        Ok((sub, username, exp, iat, token_type)) => {
            let c = Claims { sub, username, exp, iat, token_type };
            check_token_kind(c, kind)
        },
    }
}

/// Checks an access token (see `validate_token`).
pub fn validate_access_token(token: &str, config: &JwtConfig) -> (r: AppResult<Claims>)
    ensures
        r matches Ok(c) ==> accepted_as(config.secret@, token@, TokenKind::Access, c),
        jwt_claims_of(config.secret@, token@) is None ==> (r matches Err(e) && e is Jwt),
        decodes_as_other_kind(config.secret@, token@, TokenKind::Access) ==> (r matches Err(e) && (
        e is Jwt || is_unauthorized(e, "Not an access token"@))),
        r matches Err(e) ==> (e is Jwt || (is_unauthorized(e, "Not an access token"@)
            && decodes_as_other_kind(config.secret@, token@, TokenKind::Access))),
{
    validate_token(token, config, TokenKind::Access)
}

/// Checks a refresh token (see `validate_token`).
pub fn validate_refresh_token(token: &str, config: &JwtConfig) -> (r: AppResult<Claims>)
    ensures
        r matches Ok(c) ==> accepted_as(config.secret@, token@, TokenKind::Refresh, c),
        jwt_claims_of(config.secret@, token@) is None ==> (r matches Err(e) && e is Jwt),
        decodes_as_other_kind(config.secret@, token@, TokenKind::Refresh) ==> (r matches Err(e) && (
        e is Jwt || is_unauthorized(e, "Not a refresh token"@))),
        r matches Err(e) ==> (e is Jwt || (is_unauthorized(e, "Not a refresh token"@)
            && decodes_as_other_kind(config.secret@, token@, TokenKind::Refresh))),
{
    validate_token(token, config, TokenKind::Refresh)
}

/// A signed token is accepted only as the kind it was issued as, and then
/// gives back exactly the claims it was issued with: checking an access
/// token as an access token yields its user, name, expiry and issue time,
/// and checking it as a refresh token (or the reverse) never succeeds.
pub proof fn law_token_round_trip(
    secret: Seq<char>,
    token: Seq<char>,
    user: Uuid,
    name: Seq<char>,
    exp: int,
    iat: int,
    issued: TokenKind,
    checked: TokenKind,
    c: Claims,
)
    requires
        carries_claims(secret, token, user, name, exp, iat, issued),
        exp >= 0,
        accepted_as(secret, token, checked, c),
    ensures
        checked == issued,
        c.sub == user,
        c.username@ == name,
        c.exp == exp,
        c.iat == iat,
        c.token_type@ == kind_name(issued),
{
    if checked != issued {
        law_issued_kind_checks(c, issued, checked);
    }
}

/// A token issued as one kind, checked as the other, is refused: it
/// decodes to claims of the other kind, so the check fails (with
/// `Not an access token` / `Not a refresh token`, or with the token
/// library's error once it has expired).
pub proof fn law_other_kind_refused(
    secret: Seq<char>,
    token: Seq<char>,
    user: Uuid,
    name: Seq<char>,
    exp: int,
    iat: int,
    issued: TokenKind,
    checked: TokenKind,
)
    requires
        carries_claims(secret, token, user, name, exp, iat, issued),
        exp >= 0,
        checked != issued,
    ensures
        decodes_as_other_kind(secret, token, checked),
        forall|c: Claims| !accepted_as(secret, token, checked, c),
{
    reveal_strlit("access");
    reveal_strlit("refresh");
    assert("access"@[0] != "refresh"@[0]);
}


/// Each kind of token passes its own check and fails the other's: claims
/// issued as kind `k` are accepted where kind `k` is expected, and refused
/// where the other kind is.
pub proof fn law_issued_kind_checks(c: Claims, k: TokenKind, other: TokenKind)
    requires
        c.token_type@ == kind_name(k),
        other != k,
    ensures
        c.token_type@ != kind_name(other),
{
    reveal_strlit("access");
    reveal_strlit("refresh");
    assert("access"@[0] != "refresh"@[0]);
}

} // verus!
