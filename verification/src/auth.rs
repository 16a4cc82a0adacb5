//! The per-request auth guard.
//!
//! Extracts a verified identity from an inbound `Authorization` header of
//! the form `Token <jwt>`. The required mode turns a missing header, a
//! wrong prefix and a failed verification all into the same `Unauthorized`
//! outcome, so a caller cannot tell which check rejected it; the optional
//! mode yields "no identity" instead. No session state exists: a token is
//! valid until its embedded expiry.

use vstd::prelude::*;

use crate::errors::AppError;
use crate::token::{check_decoded_spec, decoded_claims, verify, Claims, VerifyFailure};

verus! {

/// A verified identity, with the raw token kept so that it can be echoed
/// back to the caller.
pub struct Auth {
    pub jwt: String,
    pub claims: Claims,
}

/// The header starts with `Token` and a space.
pub open spec fn has_token_prefix(h: Seq<char>) -> bool {
    &&& h.len() >= 6
    &&& h[0] == 'T'
    &&& h[1] == 'o'
    &&& h[2] == 'k'
    &&& h[3] == 'e'
    &&& h[4] == 'n'
    &&& h[5] == ' '
}

/// What follows the prefix: the raw token.
pub open spec fn token_part(h: Seq<char>) -> Seq<char> {
    h.subrange(6, h.len() as int)
}

/// An identity is extracted from the header exactly when the header is
/// present, carries the prefix, and its token verifies under the secret at
/// the moment `now`.
pub open spec fn guard_accepts(header: Option<Seq<char>>, secret: Seq<char>, now: i64) -> bool {
    match header {
        None => false,
        Some(h) => has_token_prefix(h) && check_decoded_spec(
            decoded_claims(token_part(h), secret),
            now,
        ) is Ok,
    }
}

/// The view of an optional header.
pub open spec fn header_view(header: Option<&str>) -> Option<Seq<char>> {
    match header {
        Some(h) => Some(h@),
        None => None,
    }
}

impl Auth {
    /// Required identity: the request must carry a verifiable token.
    ///
    /// Succeeds exactly when the guard accepts the header; every rejection
    /// is the same `Unauthorized` value, whether the header was missing,
    /// the prefix wrong, the token malformed, signed under another secret,
    /// or expired.
    pub fn from_request(header: Option<&str>, secret: &str, now: i64) -> (r: Result<Auth, AppError>)
        ensures
            match r {
                Ok(a) => {
                    &&& guard_accepts(header_view(header), secret@, now)
                    &&& a.jwt@ == token_part(header.unwrap()@)
                    &&& check_decoded_spec(decoded_claims(a.jwt@, secret@), now) == Ok::<
                        (i32, Seq<char>, i64),
                        VerifyFailure,
                    >((a.claims.id, a.claims.username@, a.claims.exp))
                },
                Err(e) => {
                    &&& e == AppError::Unauthorized
                    &&& !guard_accepts(header_view(header), secret@, now)
                },
            },
    {
        let h = match header {
            None => {
                return Err(AppError::Unauthorized);
            },
            Some(h) => h,
        };
        let n = h.unicode_len();
        if n < 6 {
            return Err(AppError::Unauthorized);
        }
        if !(h.get_char(0) == 'T' && h.get_char(1) == 'o' && h.get_char(2) == 'k' && h.get_char(3)
            == 'e' && h.get_char(4) == 'n' && h.get_char(5) == ' ') {
            return Err(AppError::Unauthorized);
        }
        let jwt = h.substring_char(6, n);
        match verify(jwt, secret, now) {
            Ok(claims) => Ok(Auth { jwt: jwt.to_owned(), claims }),
            Err(_) => Err(AppError::Unauthorized),
        }
    }

    /// Optional identity: the same extraction, but absence or failure
    /// yields "no identity" rather than an error.
    pub fn from_request_optional(header: Option<&str>, secret: &str, now: i64) -> (r: Option<Auth>)
        ensures
            match r {
                Some(a) => {
                    &&& guard_accepts(header_view(header), secret@, now)
                    &&& a.jwt@ == token_part(header.unwrap()@)
                    &&& check_decoded_spec(decoded_claims(a.jwt@, secret@), now) == Ok::<
                        (i32, Seq<char>, i64),
                        VerifyFailure,
                    >((a.claims.id, a.claims.username@, a.claims.exp))
                },
                None => !guard_accepts(header_view(header), secret@, now),
            },
    {
        match Self::from_request(header, secret, now) {
            Ok(a) => Some(a),
            Err(_) => None,
        }
    }
}

} // verus!
