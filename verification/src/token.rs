//! The token codec: signed identity claims.
//!
//! `issue` encodes `(id, username, expiry)` claims under a signing secret;
//! `verify` decodes and validates them. The signing itself is done by the
//! `jsonwebtoken` crate behind two trusted wrappers; the expiry policy, and
//! the collapse of parse and signature failures into one `Malformed` kind
//! (so a caller cannot learn which check failed), are verified code.
//!
//! For any claims and any unexpired moment, a token from `issue` verifies
//! back to the same claims; a token presented at or past its expiry is
//! rejected, and so is one signed under a different secret, for secrets in
//! the range where distinct strings stand for distinct HMAC keys (see
//! `distinct_key_secret`).

use vstd::prelude::*;

verus! {

/// Identity claims carried by a token.
#[derive(Debug, PartialEq, Eq)]
pub struct Claims {
    pub id: i32,
    pub username: String,
    pub exp: i64,
}

/// How long an issued token stays valid, in seconds: 30 days.
pub const TOKEN_TTL_SECS: i64 = 30 * 24 * 60 * 60;

/// How a verification fails. Parse failures and signature mismatches share
/// the `Malformed` kind, so the caller has no oracle for which check failed.
#[derive(Clone, Copy, PartialEq, Eq, Structural, Debug)]
pub enum VerifyFailure {
    /// The moment of verification is at or past the token's expiry.
    Expired,
    /// The token cannot be parsed, or its signature does not match.
    Malformed,
}

/// The token that `jsonwebtoken` produces for these claims under this
/// secret: a pure function of its arguments.
pub uninterp spec fn token_of(id: i32, username: Seq<char>, exp: i64, secret: Seq<char>) -> Seq<
    char,
>;

/// What `jsonwebtoken` decodes this token to under this secret, with expiry
/// validation turned off: a pure function of its arguments.
pub uninterp spec fn decoded_claims(token: Seq<char>, secret: Seq<char>) -> Option<
    (i32, Seq<char>, i64),
>;

/// Relies on `jsonwebtoken::encode` with the default header (HS256): the
/// token is a deterministic function of the claims and the secret.
#[verifier::external_body]
fn encode_claims(id: i32, username: &str, exp: i64, secret: &str) -> (r: String)
    ensures
        r@ == token_of(id, username@, exp, secret@),
{
    let mut m = serde_json::Map::new();
    m.insert("id".to_string(), serde_json::Value::from(id));
    m.insert("username".to_string(), serde_json::Value::from(username));
    m.insert("exp".to_string(), serde_json::Value::from(exp));
    let key = jsonwebtoken::EncodingKey::from_secret(secret.as_bytes());
    jsonwebtoken::encode(&jsonwebtoken::Header::default(), &serde_json::Value::Object(m), &key)
        .unwrap_or_default()
}

/// A character an HMAC-distinct secret may hold: ASCII and not NUL.
pub open spec fn is_key_char(c: char) -> bool {
    1 <= c as u32 && c as u32 <= 127
}

/// A secret in the range where distinct secrets stand for distinct HMAC
/// keys: ASCII with no NUL byte, at least one and at most 64 characters
/// (the HMAC-SHA256 block size). HMAC zero-pads shorter keys to the block
/// size and digests longer ones, so outside this range two different
/// strings can define the same signing function; within it, zero-padding
/// is injective.
pub open spec fn distinct_key_secret(s: Seq<char>) -> bool {
    &&& 1 <= s.len()
    &&& s.len() <= 64
    &&& forall|i: int| 0 <= i < s.len() ==> is_key_char(#[trigger] s[i])
}

/// Relies on `jsonwebtoken::decode` with HS256 and expiry validation turned
/// off, so the outcome depends on the token and the secret alone. Per its
/// source, decoding returns the claims exactly when the token parses, its
/// signature matches the secret, and its `exp` claim is present and
/// unsigned — which is why the round-trip clause asks `0 <= e`: a negative
/// expiry fails the claim parse and is rejected. The rejection clause for a
/// token signed under another secret holds only for secrets under
/// `distinct_key_secret`, where the two HMAC keys genuinely differ; that
/// distinct keys never sign the same message to the same tag is the usual
/// cryptographic modeling assumption about HMAC-SHA256.
#[verifier::external_body]
fn decode_claims(token: &str, secret: &str) -> (r: Option<(i32, String, i64)>)
    ensures
        match r {
            Some(c) => decoded_claims(token@, secret@) == Some((c.0, c.1@, c.2)),
            None => decoded_claims(token@, secret@) is None,
        },
        forall|i: i32, n: Seq<char>, e: i64|
            0 <= e && token@ == token_of(i, n, e, secret@) ==> r is Some && r.unwrap().0 == i
                && r.unwrap().1@ == n && r.unwrap().2 == e,
        forall|i: i32, n: Seq<char>, e: i64, s2: Seq<char>|
            distinct_key_secret(secret@) && distinct_key_secret(s2) && s2 != secret@ && token@
                == token_of(i, n, e, s2) ==> r is None,
{
    let key = jsonwebtoken::DecodingKey::from_secret(secret.as_bytes());
    let mut v = jsonwebtoken::Validation::new(jsonwebtoken::Algorithm::HS256);
    v.validate_exp = false;
    let d = jsonwebtoken::decode::<serde_json::Value>(token, &key, &v).ok()?;
    let id = i32::try_from(d.claims.get("id")?.as_i64()?).ok()?;
    let name = d.claims.get("username")?.as_str()?.to_string();
    let exp = d.claims.get("exp")?.as_i64()?;
    Some((id, name, exp))
}

/// Relies on `chrono::Utc::now` for the current Unix timestamp. Nothing is
/// assumed of the value.
#[verifier::external_body]
pub(crate) fn now_ts() -> i64 {
    chrono::Utc::now().timestamp()
}

/// What verification returns once the decoded claims are in hand: a failed
/// decode is `Malformed`; decoded claims at or past expiry are `Expired`;
/// anything else is accepted.
pub open spec fn check_decoded_spec(d: Option<(i32, Seq<char>, i64)>, now: i64) -> Result<
    (i32, Seq<char>, i64),
    VerifyFailure,
> {
    match d {
        None => Err(VerifyFailure::Malformed),
        Some(c) => if now >= c.2 {
            Err(VerifyFailure::Expired)
        } else {
            Ok(c)
        },
    }
}

/// The decision step of verification, on the decoded claims themselves.
pub fn check_decoded(d: Option<(i32, String, i64)>, now: i64) -> (r: Result<Claims, VerifyFailure>)
    ensures
        match r {
            Ok(c) => check_decoded_spec(decoded_view(d), now) == Ok::<
                (i32, Seq<char>, i64),
                VerifyFailure,
            >((c.id, c.username@, c.exp)),
            Err(f) => check_decoded_spec(decoded_view(d), now) == Err::<
                (i32, Seq<char>, i64),
                VerifyFailure,
            >(f),
        },
{
    match d {
        None => Err(VerifyFailure::Malformed),
        Some(c) => {
            if now >= c.2 {
                Err(VerifyFailure::Expired)
            } else {
                Ok(Claims { id: c.0, username: c.1, exp: c.2 })
            }
        },
    }
}

/// The mathematical view of an exec decode result.
pub open spec fn decoded_view(d: Option<(i32, String, i64)>) -> Option<(i32, Seq<char>, i64)> {
    match d {
        Some(c) => Some((c.0, c.1@, c.2)),
        None => None,
    }
}

/// Issues a token for the given identity: the expiry is `now` plus the
/// 30-day lifetime, and the token is the codec's encoding of the claims
/// under the secret. Issuance time is a Unix timestamp, so it is not
/// negative; that keeps the expiry in the unsigned range the codec's
/// claim parser supports.
pub fn issue(id: i32, username: &str, secret: &str, now: i64) -> (r: (String, Claims))
    requires
        0 <= now,
        now <= i64::MAX - TOKEN_TTL_SECS,
    ensures
        r.1.id == id,
        r.1.username@ == username@,
        r.1.exp == now + TOKEN_TTL_SECS,
        r.0@ == token_of(id, username@, r.1.exp, secret@),
{
    let exp = now + TOKEN_TTL_SECS;
    let tok = encode_claims(id, username, exp, secret);
    (tok, Claims { id, username: username.to_owned(), exp })
}

/// Verifies a token against a secret at the moment `now`.
///
/// The outcome is fully determined by what the codec decodes the token to:
/// an undecodable token is `Malformed`, decoded claims at or past expiry are
/// `Expired`, and anything else is accepted. In particular, a token issued
/// under this secret with a non-negative expiry verifies back to its claims
/// while unexpired; at or past its expiry it fails with `Expired`; and a
/// token issued under any other secret fails with `Malformed`, for secrets
/// in the range where distinct strings stand for distinct HMAC keys.
pub fn verify(token: &str, secret: &str, now: i64) -> (r: Result<Claims, VerifyFailure>)
    ensures
        match r {
            Ok(c) => check_decoded_spec(decoded_claims(token@, secret@), now) == Ok::<
                (i32, Seq<char>, i64),
                VerifyFailure,
            >((c.id, c.username@, c.exp)),
            Err(f) => check_decoded_spec(decoded_claims(token@, secret@), now) == Err::<
                (i32, Seq<char>, i64),
                VerifyFailure,
            >(f),
        },
        forall|i: i32, n: Seq<char>, e: i64|
            0 <= e && token@ == token_of(i, n, e, secret@) && now < e ==> r is Ok && r.unwrap().id
                == i && r.unwrap().username@ == n && r.unwrap().exp == e,
        forall|i: i32, n: Seq<char>, e: i64|
            0 <= e && token@ == token_of(i, n, e, secret@) && now >= e ==> r == Err::<
                Claims,
                VerifyFailure,
            >(VerifyFailure::Expired),
        forall|i: i32, n: Seq<char>, e: i64, s2: Seq<char>|
            distinct_key_secret(secret@) && distinct_key_secret(s2) && s2 != secret@ && token@
                == token_of(i, n, e, s2) ==> r == Err::<Claims, VerifyFailure>(
                VerifyFailure::Malformed,
            ),
{
    let d = decode_claims(token, secret);
    check_decoded(d, now)
}

impl Claims {
    /// Decodes and validates a token: the method form of `verify`.
    pub fn decode(jwt: &str, secret: &str, now: i64) -> (r: Result<Claims, VerifyFailure>)
        ensures
            match r {
                Ok(c) => check_decoded_spec(decoded_claims(jwt@, secret@), now) == Ok::<
                    (i32, Seq<char>, i64),
                    VerifyFailure,
                >((c.id, c.username@, c.exp)),
                Err(f) => check_decoded_spec(decoded_claims(jwt@, secret@), now) == Err::<
                    (i32, Seq<char>, i64),
                    VerifyFailure,
                >(f),
            },
    {
        verify(jwt, secret, now)
    }
}

} // verus!
