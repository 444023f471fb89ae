//! The credential verifier: locates the bearer credential in the designated
//! request header, parses it with the token codec, and yields the
//! authenticated subject id or an `Unauthorized` failure.

use vstd::prelude::*;
use vstd::string::StringSliceAdditionalSpecFns;
use vstd::utf8::{decode_utf8, encode_utf8, is_char_boundary, length_of_first_scalar,
    pop_first_scalar, valid_utf8};

use crate::error::AppError;
use crate::models::RefreshResponse;
use crate::token::{bytes_of, create_access_token, current_timestamp, jwt_claims_of, parse_token,
    valid_token_for, ACCESS_TTL_SECS};

verus! {

broadcast use vstd::utf8::encode_utf8_valid_utf8, vstd::utf8::encode_utf8_decode_utf8;

/// True when the header value starts with the scheme prefix `"Bearer "`.
pub open spec fn has_bearer_prefix(h: Seq<u8>) -> bool {
    &&& h.len() >= 7
    &&& h[0] == 66u8
    &&& h[1] == 101u8
    &&& h[2] == 97u8
    &&& h[3] == 114u8
    &&& h[4] == 101u8
    &&& h[5] == 114u8
    &&& h[6] == 32u8
}

/// The credential carried by a header value: what follows the `"Bearer "`
/// scheme prefix, or `None` when the prefix is absent.
pub open spec fn bearer_token(h: Seq<u8>) -> Option<Seq<u8>> {
    if has_bearer_prefix(h) {
        Some(h.skip(7))
    } else {
        None
    }
}

/// In valid UTF-8, a position preceded only by ASCII bytes is a character
/// boundary.
pub(crate) proof fn lemma_ascii_prefix_boundary(bytes: Seq<u8>, n: int)
    requires
        valid_utf8(bytes),
        0 <= n <= bytes.len(),
        forall|i: int| 0 <= i < n ==> bytes[i] < 0x80,
    ensures
        is_char_boundary(bytes, n),
    decreases n,
{
    if n > 0 {
        assert(length_of_first_scalar(bytes) == 1);
        let rest = pop_first_scalar(bytes);
        assert(rest =~= bytes.subrange(1, bytes.len() as int));
        lemma_ascii_prefix_boundary(rest, n - 1);
    }
}

/// Strip the `"Bearer "` scheme prefix from a header value, yielding the
/// credential, or `None` when the prefix is absent.
pub fn strip_bearer(header: &str) -> (r: Option<&str>)
    ensures
        match r {
            Some(t) => bearer_token(header.spec_bytes()) == Some(t.spec_bytes()),
            None => bearer_token(header.spec_bytes()) is None,
        },
{
    let bytes = header.as_bytes();
    if bytes.len() < 7 {
        return None;
    }
    if bytes[0] == 66 && bytes[1] == 101 && bytes[2] == 97 && bytes[3] == 114 && bytes[4] == 101
        && bytes[5] == 114 && bytes[6] == 32 {
        proof {
            let h = header.spec_bytes();
            assert(valid_utf8(encode_utf8(header@)));
            lemma_ascii_prefix_boundary(h, 7);
        }
        let (_, t) = header.split_at(7);
        proof {
            assert(t.spec_bytes() =~= header.spec_bytes().skip(7));
        }
        Some(t)
    } else {
        None
    }
}

/// Whether two strings hold the same characters.
pub fn str_eq(a: &str, b: &str) -> (r: bool)
    ensures
        r == (a@ == b@),
{
    let ab = a.as_bytes();
    let bb = b.as_bytes();
    if ab.len() != bb.len() {
        return false;
    }
    let n = ab.len();
    let mut i: usize = 0;
    while i < n
        invariant
            n == ab.len() == bb.len(),
            0 <= i <= n,
            ab@ == a.spec_bytes(),
            bb@ == b.spec_bytes(),
            forall|j: int| 0 <= j < i ==> ab@[j] == bb@[j],
        decreases n - i,
    {
        if ab[i] != bb[i] {
            return false;
        }
        i += 1;
    }
    proof {
        assert(a.spec_bytes() =~= b.spec_bytes());
        assert(decode_utf8(encode_utf8(a@)) == a@);
        assert(decode_utf8(encode_utf8(b@)) == b@);
    }
    true
}

/// The subject a header value asserts: the subject id of an access-kind
/// credential carried after the `"Bearer "` prefix, or `None` when the
/// prefix, the signature or the kind tag is wrong.
pub open spec fn verified_subject(h: Seq<u8>, secret: Seq<u8>) -> Option<i64> {
    match bearer_token(h) {
        Some(t) => match jwt_claims_of(t, secret) {
            Some(c) => if c.3 == "access"@ {
                Some(c.0)
            } else {
                None
            },
            None => None,
        },
        None => None,
    }
}

/// Yield the authenticated subject id from the designated header's value.
///
/// A missing header, a missing scheme prefix, a token that embeds no claims
/// under the secret, and a non-access kind tag all map to `Unauthorized`;
/// a returned subject is always the one the credential asserts. Whether an
/// asserted subject is accepted also depends on the expiry check against the
/// clock, so acceptance itself is not promised.
pub fn extract_user_id_from_headers(auth_header: Option<&str>, jwt_secret: &str) -> (r: Result<
    i64,
    AppError,
>)
    ensures
        r matches Ok(uid) ==> (auth_header matches Some(h) && verified_subject(
            h.spec_bytes(),
            jwt_secret.spec_bytes(),
        ) == Some(uid)),
        auth_header is None ==> r is Err,
        (auth_header matches Some(h) && verified_subject(
            h.spec_bytes(),
            jwt_secret.spec_bytes(),
        ) is None) ==> r is Err,
        r matches Err(e) ==> e is Unauthorized,
{
    let header = match auth_header {
        Some(h) => h,
        None => {
            return Err(AppError::Unauthorized("Missing authorization header".to_owned()));
        },
    };
    let token = match strip_bearer(header) {
        Some(t) => t,
        None => {
            return Err(AppError::Unauthorized("Invalid authorization format".to_owned()));
        },
    };
    let claims = match parse_token(token, jwt_secret, current_timestamp()) {
        Ok(c) => c,
        Err(e) => {
            return Err(e);
        },
    };
    if !str_eq(claims.token_type.as_str(), "access") {
        return Err(AppError::Unauthorized("Invalid token type".to_owned()));
    }
    Ok(claims.sub)
}

/// Mint a fresh access token for the subject the presented credential
/// asserts, with a new 15-minute window.
///
/// This is the deployed flow: it re-validates the presented token as an
/// access-kind credential and does not consult the persisted refresh-token
/// rows, so a logout does not invalidate it before its natural expiry.
/// The revocation-checking flow stands beside it as
/// `Store::refresh_session`, which accepts only a refresh-kind token still
/// stored, unexpired and unrevoked.
pub fn refresh_token(auth_header: Option<&str>, jwt_secret: &str) -> (r: Result<
    RefreshResponse,
    AppError,
>)
    ensures
        r matches Ok(resp) ==> (auth_header matches Some(h) && verified_subject(
            h.spec_bytes(),
            jwt_secret.spec_bytes(),
        ) matches Some(uid) && valid_token_for(
            bytes_of(resp.access_token@),
            jwt_secret.spec_bytes(),
            uid,
            "access"@,
            ACCESS_TTL_SECS,
        )),
        auth_header is None ==> r is Err,
        (auth_header matches Some(h) && verified_subject(
            h.spec_bytes(),
            jwt_secret.spec_bytes(),
        ) is None) ==> r is Err,
        r matches Err(e) ==> e is Unauthorized,
{
    let uid = match extract_user_id_from_headers(auth_header, jwt_secret) {
        Ok(u) => u,
        Err(_) => {
            return Err(AppError::Unauthorized("Cannot refresh - invalid token".to_owned()));
        },
    };
    match create_access_token(uid, jwt_secret) {
        Ok(t) => Ok(RefreshResponse { access_token: t }),
        Err(e) => Err(e),
    }
}

} // verus!
