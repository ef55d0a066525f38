use ragent::auth::{
    check_offset, check_token_kind, generate_tokens, hash_password, hash_password_with_salt, issue_claims, token_claims,
    token_pair, validate_access_token, validate_refresh_token, validate_token, verify_password, Claims, JwtConfig,
    TokenKind,
};
use ragent::error::AppError;
use uuid::Uuid;

fn config() -> JwtConfig {
    JwtConfig { secret: "s3cret".to_string(), access_token_expiry_secs: 900, refresh_token_expiry_secs: 604800 }
}

#[test]
fn hash_then_verify() {
    let h = hash_password("correct horse").unwrap();
    assert!(h.starts_with("$argon2id$"));
    assert_eq!(verify_password("correct horse", &h), Ok(true));
    assert_eq!(verify_password("wrong horse", &h), Ok(false));
}

#[test]
fn hashes_are_salted() {
    let a = hash_password("pw12345678").unwrap();
    let b = hash_password("pw12345678").unwrap();
    assert_ne!(a, b);
}

#[test]
fn verify_rejects_garbage_hash() {
    assert!(matches!(verify_password("x", "not a phc string"), Err(AppError::Internal(_))));
    assert!(matches!(verify_password("x", ""), Err(AppError::Internal(_))));
}

#[test]
fn claims_of_both_tokens() {
    let id = Uuid::from_u128(7);
    let (a, r) = token_claims(id, "alice", &config(), 1_700_000_000);
    assert_eq!(a.sub, id);
    assert_eq!(a.username, "alice");
    assert_eq!(a.iat, 1_700_000_000);
    assert_eq!(a.exp, 1_700_000_900);
    assert_eq!(a.token_type, "access");
    assert_eq!(r.exp, 1_700_604_800);
    assert_eq!(r.token_type, "refresh");
    let c = issue_claims(id, "bob", TokenKind::Refresh, 60, 10);
    assert_eq!((c.exp, c.iat, c.token_type.as_str()), (70, 10, "refresh"));
}

#[test]
fn offsets_within_chrono_range() {
    assert!(check_offset(1_700_000_000, 900));
    assert!(!check_offset(1_700_000_000, i64::MAX));
    assert!(!check_offset(8_210_266_876_000, 800));
    assert!(check_offset(8_210_266_876_000, 799));
    assert!(!check_offset(-8_334_601_315_200, -1));
}

#[test]
fn pair_reports_access_lifetime() {
    let p = token_pair("a".into(), "r".into(), &config());
    assert_eq!((p.access_token.as_str(), p.refresh_token.as_str(), p.expires_in), ("a", "r", 900));
}

fn claims(kind: &str) -> Claims {
    Claims { sub: Uuid::nil(), username: "u".into(), exp: 2, iat: 1, token_type: kind.into() }
}

#[test]
fn token_kind_checks() {
    assert!(check_token_kind(claims("access"), TokenKind::Access).is_ok());
    assert!(check_token_kind(claims("refresh"), TokenKind::Refresh).is_ok());
    assert_eq!(
        check_token_kind(claims("refresh"), TokenKind::Access).err(),
        Some(AppError::Unauthorized("Not an access token".into()))
    );
    assert_eq!(
        check_token_kind(claims("access"), TokenKind::Refresh).err(),
        Some(AppError::Unauthorized("Not a refresh token".into()))
    );
}

#[test]
fn salted_hash_is_a_function_of_password_and_salt() {
    let salt = [7u8; 16];
    let a = hash_password_with_salt("pw12345678", &salt).unwrap();
    let b = hash_password_with_salt("pw12345678", &salt).unwrap();
    assert_eq!(a, b);
    assert!(a.starts_with("$argon2id$v=19$"));
    assert_ne!(a, hash_password_with_salt("pw12345678", &[8u8; 16]).unwrap());
    assert_eq!(verify_password("pw12345678", &a), Ok(true));
    assert_eq!(verify_password("pw12345679", &a), Ok(false));
    assert!(hash_password_with_salt("", &salt).is_ok());
}

fn unix_now() -> i64 {
    std::time::SystemTime::now().duration_since(std::time::UNIX_EPOCH).unwrap().as_secs() as i64
}

#[test]
fn issued_tokens_validate_to_their_claims() {
    let cfg = config();
    let user = Uuid::from_u128(0x1234);
    let now = unix_now();
    let pair = generate_tokens(user, "alice", &cfg, now).ok().unwrap();
    assert_eq!(pair.expires_in, 900);
    assert_ne!(pair.access_token, pair.refresh_token);

    let a = validate_access_token(&pair.access_token, &cfg).ok().unwrap();
    assert_eq!((a.sub, a.username.as_str(), a.exp, a.iat, a.token_type.as_str()), (user, "alice", now + 900, now, "access"));
    let r = validate_refresh_token(&pair.refresh_token, &cfg).ok().unwrap();
    assert_eq!(
        (r.sub, r.username.as_str(), r.exp, r.iat, r.token_type.as_str()),
        (user, "alice", now + 604800, now, "refresh")
    );
    let r2 = validate_token(&pair.refresh_token, &cfg, TokenKind::Refresh).ok().unwrap();
    assert_eq!(r2.exp - r2.iat, 604800);
}

#[test]
fn tokens_of_the_other_kind_are_refused() {
    let cfg = config();
    let pair = generate_tokens(Uuid::from_u128(7), "bob", &cfg, unix_now()).ok().unwrap();
    assert_eq!(
        validate_access_token(&pair.refresh_token, &cfg).err(),
        Some(AppError::Unauthorized("Not an access token".into()))
    );
    assert_eq!(
        validate_refresh_token(&pair.access_token, &cfg).err(),
        Some(AppError::Unauthorized("Not a refresh token".into()))
    );
}

#[test]
fn forged_altered_and_expired_tokens_are_refused() {
    let cfg = config();
    let now = unix_now();
    let pair = generate_tokens(Uuid::from_u128(7), "bob", &cfg, now).ok().unwrap();
    let other = JwtConfig { secret: "another".to_string(), ..config() };
    assert!(matches!(validate_access_token(&pair.access_token, &other), Err(AppError::Jwt(_))));

    let mut altered = pair.access_token.clone();
    altered.push('x');
    assert!(matches!(validate_access_token(&altered, &cfg), Err(AppError::Jwt(_))));
    assert!(matches!(validate_access_token("not a token", &cfg), Err(AppError::Jwt(_))));

    let old = generate_tokens(Uuid::from_u128(7), "bob", &cfg, now - 100_000).ok().unwrap();
    assert!(matches!(validate_access_token(&old.access_token, &cfg), Err(AppError::Jwt(_))));
    // the refresh token of that pair lives a week, so it still checks
    assert!(validate_refresh_token(&old.refresh_token, &cfg).is_ok());
}
