use std::time::{SystemTime, UNIX_EPOCH};

use likebike::{
    compute_level, create_access_token, create_refresh_token, extract_user_id_from_headers,
    issue_token, parse_token, refresh_token, strip_bearer, AppError,
};

const SECRET: &str = "test-secret-key";

fn unix_now() -> u64 {
    SystemTime::now().duration_since(UNIX_EPOCH).unwrap().as_secs()
}

#[test]
fn level_bands_lower_edges() {
    assert_eq!(compute_level(0), (1, "관심인"));
    assert_eq!(compute_level(99), (1, "관심인"));
    assert_eq!(compute_level(100), (2, "입문자"));
    assert_eq!(compute_level(199), (2, "입문자"));
    assert_eq!(compute_level(200), (3, "초보자"));
    assert_eq!(compute_level(299), (3, "초보자"));
    assert_eq!(compute_level(300), (4, "중급자"));
    assert_eq!(compute_level(399), (4, "중급자"));
    assert_eq!(compute_level(400), (5, "숙련자"));
    assert_eq!(compute_level(499), (5, "숙련자"));
    assert_eq!(compute_level(500), (6, "전문가"));
    assert_eq!(compute_level(100_000), (6, "전문가"));
    assert_eq!(compute_level(-5), (1, "관심인"));
}

#[test]
fn token_round_trip_within_ttl() {
    let token = create_access_token(42, SECRET).unwrap();
    let claims = parse_token(&token, SECRET, unix_now()).unwrap();
    assert_eq!(claims.sub, 42);
    assert_eq!(claims.token_type, "access");
    assert_eq!(claims.exp, claims.iat + 15 * 60);
}

#[test]
fn refresh_kind_token_round_trip() {
    let token = create_refresh_token(7, SECRET).unwrap();
    let claims = parse_token(&token, SECRET, unix_now()).unwrap();
    assert_eq!(claims.sub, 7);
    assert_eq!(claims.token_type, "refresh");
    assert_eq!(claims.exp, claims.iat + 7 * 24 * 60 * 60);
}

#[test]
fn token_fails_after_ttl() {
    let token = issue_token(42, "access", 1_000, 2_000, SECRET).unwrap();
    assert!(parse_token(&token, SECRET, unix_now()).is_err());
}

#[test]
fn token_expiry_has_no_grace_window() {
    let token = issue_token(42, "access", 1_000, 2_000, SECRET).unwrap();
    assert!(parse_token(&token, SECRET, 1_999).is_ok());
    assert!(parse_token(&token, SECRET, 2_000).is_err());
    assert!(parse_token(&token, SECRET, 2_001).is_err());
}

#[test]
fn token_fails_under_wrong_secret() {
    let token = create_access_token(42, SECRET).unwrap();
    assert!(parse_token(&token, "another-secret", unix_now()).is_err());
}

#[test]
fn tampered_token_fails() {
    let token = create_access_token(42, SECRET).unwrap();
    let mut tampered = token.clone();
    tampered.push('x');
    assert!(parse_token(&tampered, SECRET, unix_now()).is_err());
}

#[test]
fn strip_bearer_prefix() {
    assert_eq!(strip_bearer("Bearer abc.def.ghi"), Some("abc.def.ghi"));
    assert_eq!(strip_bearer("Bearer "), Some(""));
    assert_eq!(strip_bearer("bearer abc"), None);
    assert_eq!(strip_bearer("Token abc"), None);
    assert_eq!(strip_bearer(""), None);
}

#[test]
fn extract_user_id_happy_path() {
    let token = create_access_token(99, SECRET).unwrap();
    let header = format!("Bearer {}", token);
    assert_eq!(extract_user_id_from_headers(Some(&header), SECRET).unwrap(), 99);
}

#[test]
fn extract_user_id_missing_header() {
    let e = extract_user_id_from_headers(None, SECRET).unwrap_err();
    assert!(matches!(e, AppError::Unauthorized(_)));
    assert_eq!(e.status_code(), 401);
}

#[test]
fn extract_user_id_bad_scheme() {
    let token = create_access_token(99, SECRET).unwrap();
    let header = format!("Basic {}", token);
    let e = extract_user_id_from_headers(Some(&header), SECRET).unwrap_err();
    assert!(matches!(e, AppError::Unauthorized(_)));
}

#[test]
fn extract_user_id_rejects_refresh_kind() {
    let token = create_refresh_token(99, SECRET).unwrap();
    let header = format!("Bearer {}", token);
    let e = extract_user_id_from_headers(Some(&header), SECRET).unwrap_err();
    assert!(matches!(e, AppError::Unauthorized(_)));
}

#[test]
fn extract_user_id_garbage_token() {
    let e = extract_user_id_from_headers(Some("Bearer not.a.jwt"), SECRET).unwrap_err();
    assert!(matches!(e, AppError::Unauthorized(_)));
}

#[test]
fn refresh_with_token_valid_one_more_minute() {
    let now = unix_now();
    // An access token with only one minute of life left.
    let old = issue_token(5, "access", now - 14 * 60, now + 60, SECRET).unwrap();
    let header = format!("Bearer {}", old);
    let resp = refresh_token(Some(&header), SECRET).unwrap();
    let claims = parse_token(&resp.access_token, SECRET, unix_now()).unwrap();
    assert_eq!(claims.sub, 5);
    assert_eq!(claims.token_type, "access");
    // A fresh 15-minute window, not the old one.
    assert_eq!(claims.exp, claims.iat + 15 * 60);
    assert!(claims.exp >= now + 14 * 60);
}

#[test]
fn refresh_with_expired_token_fails() {
    let token = issue_token(5, "access", 1_000, 2_000, SECRET).unwrap();
    let header = format!("Bearer {}", token);
    let e = refresh_token(Some(&header), SECRET).unwrap_err();
    assert!(matches!(e, AppError::Unauthorized(_)));
}

#[test]
fn refresh_without_header_fails() {
    assert!(refresh_token(None, SECRET).is_err());
}

#[test]
fn error_status_codes() {
    assert_eq!(AppError::BadRequest("b".to_string()).status_code(), 400);
    assert_eq!(AppError::Unauthorized("u".to_string()).status_code(), 401);
    assert_eq!(AppError::NotFound("n".to_string()).status_code(), 404);
    assert_eq!(AppError::Internal("i".to_string()).status_code(), 500);
    assert_eq!(AppError::NotFound("n".to_string()).message(), "n");
}
