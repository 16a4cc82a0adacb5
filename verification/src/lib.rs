//! Verified core of a social-blogging backend.
//!
//! The crate covers the stateless bearer-token layer (token codec and
//! per-request auth guard) and the relational core (viewer-relative
//! projections of profiles, articles and comments, plus the transactional
//! mutators that keep the denormalized `favorites_count` consistent with the
//! favorite edges). Cryptography, password hashing and the wall clock are
//! consumed from outside crates through narrow trusted wrappers; everything
//! else is verified.

pub mod articles;
pub mod auth;
pub mod comments;
pub mod errors;
pub mod laws;
pub mod password;
pub mod profiles;
pub mod slugs;
pub mod store;
pub mod token;
pub mod users;
