//! Password hashing and checking, behind trusted wrappers over `bcrypt`.
//!
//! Whether a password matches a hash is a pure function of the two strings;
//! the hash itself draws a random salt, so all that is stated of it is that
//! the password it was derived from matches it.

use vstd::prelude::*;

verus! {

/// Whether `bcrypt::verify` accepts the password against the hash: a pure
/// function of the two strings (a malformed hash matches nothing).
pub uninterp spec fn password_matches(password: Seq<char>, hashed: Seq<char>) -> bool;

/// Relies on `bcrypt::verify`: the outcome depends only on the password and
/// the hash. Its error (a malformed hash) is folded to `false`.
#[verifier::external_body]
pub(crate) fn verify_password(password: &str, hashed: &str) -> (r: bool)
    ensures
        r == password_matches(password@, hashed@),
{
    bcrypt::verify(password, hashed).unwrap_or(false)
}

/// Relies on `bcrypt::hash` at the default cost. The salt is drawn from the
/// operating system, so the hash itself cannot be pinned down; what holds
/// of every outcome is that `bcrypt::verify` accepts the hashed password
/// against it. `None` is returned only when the hasher itself failed.
#[verifier::external_body]
pub(crate) fn hash_password(password: &str) -> (r: Option<String>)
    ensures
        match r {
            Some(h) => password_matches(password@, h@),
            None => true,
        },
{
    bcrypt::hash(password, bcrypt::DEFAULT_COST).ok()
}

} // verus!
