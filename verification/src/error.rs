//! Error taxonomy for the authentication core and the profile store.
//!
//! Each variant carries a fixed, user-facing message; no internal detail
//! crosses the boundary to the caller.

use vstd::prelude::*;

verus! {

/// Errors raised by the authentication and session-lifecycle operations.
#[derive(Clone, Copy, Debug, PartialEq, Eq, Structural)]
pub enum AuthError {
    /// Malformed e-mail or password (user-correctable).
    ValidationError,
    /// A presented password did not match a stored hash.
    VerificationError,
    /// The e-mail is already registered.
    DuplicateUser,
    /// An action requiring a session was attempted without a valid one.
    Unauthorized,
    /// A refresh token was valid but matched no stored account.
    Forbidden,
    /// Generic login failure; deliberately does not reveal whether the
    /// e-mail exists or the password was wrong.
    BadRequest,
    /// A token failed signature, audience or expiry validation.
    InvalidToken,
    /// Hashing failure, store fault or other server-side error.
    ServerError,
}

impl AuthError {
    /// The fixed message of each error kind.
    pub open spec fn message_spec(&self) -> Seq<char> {
        match self {
            AuthError::ValidationError => "Please enter a valid email or password"@,
            AuthError::VerificationError => "Please enter a valid email or password."@,
            AuthError::DuplicateUser => "User already exists"@,
            AuthError::Unauthorized => "Please log in and try again."@,
            AuthError::Forbidden => "User does not exist."@,
            AuthError::BadRequest => "Please enter a valid email or password"@,
            AuthError::InvalidToken => "Invalid token."@,
            AuthError::ServerError => "Server error. Please try again"@,
        }
    }

    /// The fixed message reported for this error kind.
    pub fn message(&self) -> (r: String)
        ensures
            r@ == self.message_spec(),
    {
        match self {
            AuthError::ValidationError => String::from_str(
                "Please enter a valid email or password",
            ),
            AuthError::VerificationError => String::from_str(
                "Please enter a valid email or password.",
            ),
            AuthError::DuplicateUser => String::from_str("User already exists"),
            AuthError::Unauthorized => String::from_str("Please log in and try again."),
            AuthError::Forbidden => String::from_str("User does not exist."),
            AuthError::BadRequest => String::from_str(
                "Please enter a valid email or password",
            ),
            AuthError::InvalidToken => String::from_str("Invalid token."),
            AuthError::ServerError => String::from_str("Server error. Please try again"),
        }
    }
}

/// Errors raised by the profile (community) store.
#[derive(Clone, Copy, Debug, PartialEq, Eq, Structural)]
pub enum CommunityError {
    /// A profile with the same id or username already exists.
    DuplicateProfile,
    /// The caller holds no valid session.
    Unauthorized,
}

impl CommunityError {
    /// The fixed message of each error kind.
    pub open spec fn message_spec(&self) -> Seq<char> {
        match self {
            CommunityError::DuplicateProfile => "Profile already exists."@,
            CommunityError::Unauthorized => "Please log in and try again."@,
        }
    }

    /// The fixed message reported for this error kind.
    pub fn message(&self) -> (r: String)
        ensures
            r@ == self.message_spec(),
    {
        match self {
            CommunityError::DuplicateProfile => String::from_str("Profile already exists."),
            CommunityError::Unauthorized => String::from_str("Please log in and try again."),
        }
    }
}

} // verus!
