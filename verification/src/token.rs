//! The token codec: issues and parses signed, time-bound identity assertions
//! (access and refresh tokens) carrying a subject id and a kind tag.
//!
//! Signing and signature checking are done by the `jsonwebtoken` crate behind
//! two trusted wrappers; what a token carries under a given secret is named by
//! the uninterpreted function [`jwt_claims_of`], and everything else about the
//! codec is verified against that name.

use jsonwebtoken::{decode, DecodingKey, Validation};
use serde_json::Value;
use vstd::prelude::*;
use vstd::string::StringSliceAdditionalSpecFns;

use crate::error::AppError;

verus! {

/// Lifetime of an access token, in seconds (15 minutes).
pub const ACCESS_TTL_SECS: u64 = 15 * 60;

/// Lifetime of a refresh token, in seconds (7 days).
pub const REFRESH_TTL_SECS: u64 = 7 * 24 * 60 * 60;

/// UTF-8 bytes of a character sequence.
pub open spec fn bytes_of(s: Seq<char>) -> Seq<u8> {
    vstd::utf8::encode_utf8(s)
}

/// Claims embedded in a token: subject id, expiry, issue time and kind tag.
pub struct JwtClaims {
    pub sub: i64,
    pub exp: u64,
    pub iat: u64,
    pub token_type: String,
}

/// The claims `(sub, exp, iat, token_type)` that a token carries under a
/// given signing secret, or `None` when the token is not a well-formed
/// assertion signed with that secret. Both the token and the secret are
/// given as their UTF-8 bytes.
pub uninterp spec fn jwt_claims_of(token: Seq<u8>, secret: Seq<u8>) -> Option<
    (i64, u64, u64, Seq<char>),
>;

/// True when the token carries exactly the given subject and kind, with an
/// expiry that lies the given number of seconds after its issue time.
pub open spec fn valid_token_for(
    token: Seq<u8>,
    secret: Seq<u8>,
    sub: i64,
    kind: Seq<char>,
    ttl: u64,
) -> bool {
    match jwt_claims_of(token, secret) {
        Some(c) => c.0 == sub && c.3 == kind && c.1 == c.2 + ttl,
        None => false,
    }
}

/// Relies on `jsonwebtoken::encode` with the default header (HS256) and
/// `EncodingKey::from_secret`: it always succeeds — the HMAC backend accepts
/// a secret of any length and signing a JSON object cannot error — and the
/// returned token embeds exactly the given claims, recoverable by
/// `jsonwebtoken::decode` under the same secret. The unreachable error arm
/// is mapped to `Internal`, the kind a signing failure would carry.
#[verifier::external_body]
fn jwt_encode(sub: i64, exp: u64, iat: u64, token_type: &str, secret: &str) -> (r: Result<
    String,
    AppError,
>)
    ensures
        r is Ok,
        r matches Ok(t) ==> jwt_claims_of(bytes_of(t@), secret.spec_bytes()) == Some(
            (sub, exp, iat, token_type@),
        ),
{
    let mut m = serde_json::Map::new();
    m.insert("sub".to_string(), serde_json::Value::from(sub));
    m.insert("exp".to_string(), serde_json::Value::from(exp));
    m.insert("iat".to_string(), serde_json::Value::from(iat));
    m.insert("token_type".to_string(), serde_json::Value::from(token_type));
    jsonwebtoken::encode(
        &jsonwebtoken::Header::default(),
        &serde_json::Value::Object(m),
        &jsonwebtoken::EncodingKey::from_secret(secret.as_bytes()),
    ).map_err(|e| AppError::Internal(format!("JWT error: {}", e)))
}

/// Relies on `jsonwebtoken::decode` with expiry validation turned off, so
/// that the call checks only the token's structure, HS256 algorithm and
/// signature — a deterministic function of the token and the secret. It
/// succeeds exactly when the token embeds claims under the secret, and then
/// returns those claims; the expiry check is done by the caller.
/// Failures are mapped to `Unauthorized`.
#[verifier::external_body]
fn jwt_decode_signed(token: &str, secret: &str) -> (r: Result<JwtClaims, AppError>)
    ensures
        r is Ok <==> jwt_claims_of(token.spec_bytes(), secret.spec_bytes()) is Some,
        r matches Ok(c) ==> jwt_claims_of(token.spec_bytes(), secret.spec_bytes()) == Some(
            (c.sub, c.exp, c.iat, c.token_type@),
        ),
        r matches Err(e) ==> e is Unauthorized,
{
    let key = DecodingKey::from_secret(secret.as_bytes());
    let mut v = Validation::default();
    v.validate_exp = false;
    v.required_spec_claims.clear();
    let c = decode::<Value>(token, &key, &v)
        .map_err(|e| AppError::Unauthorized(format!("JWT error: {}", e)))?.claims;
    match (c.get("sub").and_then(Value::as_i64), c.get("exp").and_then(Value::as_u64),
            c.get("iat").and_then(Value::as_u64), c.get("token_type").and_then(Value::as_str)) {
        (Some(sub), Some(exp), Some(iat), Some(t)) =>
            Ok(JwtClaims { sub, exp, iat, token_type: t.to_string() }),
        _ => Err(AppError::Unauthorized("JWT error: malformed claims".to_string())),
    }
}

/// Relies on `chrono::Utc::now().timestamp()` for the current unix time.
#[verifier::external_body]
fn now_unix_seconds() -> (r: i64) {
    chrono::Utc::now().timestamp()
}

/// Current unix time, clamped below at zero so it fits the claims' fields.
pub fn current_timestamp() -> (r: u64)
    ensures
        r <= i64::MAX as u64,
{
    let t = now_unix_seconds();
    if t < 0 {
        0
    } else {
        t as u64
    }
}

/// Issue a token embedding exactly the given claims. Signing cannot fail,
/// so success is owed; the `Result` shape is kept for the callers' sake.
pub fn issue_token(user_id: i64, token_type: &str, iat: u64, exp: u64, secret: &str) -> (r: Result<
    String,
    AppError,
>)
    ensures
        r is Ok,
        r matches Ok(t) ==> jwt_claims_of(bytes_of(t@), secret.spec_bytes()) == Some(
            (user_id, exp, iat, token_type@),
        ),
{
    jwt_encode(user_id, exp, iat, token_type, secret)
}

/// Create an access token for the user: kind tag `"access"`, expiring
/// 15 minutes after its issue time. Always succeeds.
pub fn create_access_token(user_id: i64, secret: &str) -> (r: Result<String, AppError>)
    ensures
        r is Ok,
        r matches Ok(t) ==> valid_token_for(
            bytes_of(t@),
            secret.spec_bytes(),
            user_id,
            "access"@,
            ACCESS_TTL_SECS,
        ),
{
    let now = current_timestamp();
    issue_token(user_id, "access", now, now + ACCESS_TTL_SECS, secret)
}

/// Create a refresh token for the user: kind tag `"refresh"`, expiring
/// 7 days after its issue time. Always succeeds.
pub fn create_refresh_token(user_id: i64, secret: &str) -> (r: Result<String, AppError>)
    ensures
        r is Ok,
        r matches Ok(t) ==> valid_token_for(
            bytes_of(t@),
            secret.spec_bytes(),
            user_id,
            "refresh"@,
            REFRESH_TTL_SECS,
        ),
{
    let now = current_timestamp();
    issue_token(user_id, "refresh", now, now + REFRESH_TTL_SECS, secret)
}

/// Parse a token as of time `now`: it parses exactly when it embeds claims
/// under the secret and `now < expires_at` — no grace window — and then
/// yields exactly the embedded claims. A token that embeds no claims under
/// the secret (tampered, wrong secret, malformed) never parses.
pub fn parse_token(token: &str, secret: &str, now: u64) -> (r: Result<JwtClaims, AppError>)
    ensures
        r is Ok <==> (jwt_claims_of(token.spec_bytes(), secret.spec_bytes()) matches Some(c)
            && now < c.1),
        r matches Ok(c) ==> jwt_claims_of(token.spec_bytes(), secret.spec_bytes()) == Some(
            (c.sub, c.exp, c.iat, c.token_type@),
        ),
        r matches Err(e) ==> e is Unauthorized,
{
    let claims = match jwt_decode_signed(token, secret) {
        Ok(c) => c,
        Err(e) => {
            return Err(e);
        },
    };
    if now >= claims.exp {
        return Err(AppError::Unauthorized("JWT error: token expired".to_owned()));
    }
    Ok(claims)
}

/// Round trip: parsing a token issued for `(sub, exp, iat, kind)` can only
/// recover those same claims, because a token embeds one set of claims under
/// a given secret.
pub proof fn lemma_token_round_trip(
    token: Seq<u8>,
    secret: Seq<u8>,
    issued: (i64, u64, u64, Seq<char>),
    parsed: (i64, u64, u64, Seq<char>),
)
    requires
        jwt_claims_of(token, secret) == Some(issued),
        jwt_claims_of(token, secret) == Some(parsed),
    ensures
        parsed == issued,
{
}

} // verus!
