//! The error taxonomy of the core.
//!
//! Every operation reports its failure as exactly one of these kinds; no
//! store-level detail crosses the core boundary. An ownership mismatch on a
//! mutation is deliberately reported as `NotFound`, never as a distinct
//! "forbidden" kind, so that a non-owner cannot learn whether the resource
//! exists.

use vstd::prelude::*;

verus! {

/// The field whose uniqueness constraint was violated.
#[derive(Clone, Copy, PartialEq, Eq, Structural, Debug)]
pub enum ConflictField {
    Username,
    Email,
    Slug,
}

/// The field whose value failed structural validation.
#[derive(Clone, Copy, PartialEq, Eq, Structural, Debug)]
pub enum InvalidField {
    Username,
    Email,
    Password,
    Title,
}

/// Failure kinds crossing the core boundary.
#[derive(Clone, Copy, PartialEq, Eq, Structural, Debug)]
pub enum AppError {
    /// Missing, malformed or expired credentials on a path that needs them.
    Unauthorized,
    /// No entity under the given key; also covers ownership mismatches.
    NotFound,
    /// A uniqueness constraint was violated, on the named field.
    Conflict(ConflictField),
    /// Structurally invalid input, on the named field.
    ValidationFailed(InvalidField),
    /// The underlying store is unreachable or out of capacity.
    Unavailable,
}

impl AppError {
    /// A short description for callers that render errors as text.
    pub fn message(&self) -> (r: String)
        ensures
            r@ == match self {
                AppError::Unauthorized => "unauthorized"@,
                AppError::NotFound => "not found"@,
                AppError::Conflict(ConflictField::Username) => "username is already taken"@,
                AppError::Conflict(ConflictField::Email) => "email is already registered"@,
                AppError::Conflict(ConflictField::Slug) => "slug is already in use"@,
                AppError::ValidationFailed(InvalidField::Username) => "username is not valid"@,
                AppError::ValidationFailed(InvalidField::Email) => "email is not valid"@,
                AppError::ValidationFailed(InvalidField::Password) => "password is too short"@,
                AppError::ValidationFailed(InvalidField::Title) => "title cannot be empty"@,
                AppError::Unavailable => "service unavailable"@,
            },
    {
        let s = match self {
            AppError::Unauthorized => "unauthorized",
            AppError::NotFound => "not found",
            AppError::Conflict(ConflictField::Username) => "username is already taken",
            AppError::Conflict(ConflictField::Email) => "email is already registered",
            AppError::Conflict(ConflictField::Slug) => "slug is already in use",
            AppError::ValidationFailed(InvalidField::Username) => "username is not valid",
            AppError::ValidationFailed(InvalidField::Email) => "email is not valid",
            AppError::ValidationFailed(InvalidField::Password) => "password is too short",
            AppError::ValidationFailed(InvalidField::Title) => "title cannot be empty",
            AppError::Unavailable => "service unavailable",
        };
        s.to_owned()
    }
}

} // verus!
