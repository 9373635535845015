//! Credential-based authentication and session-lifecycle library.
//!
//! The library validates e-mail addresses and passwords as value objects,
//! hashes and verifies passwords through a memory-hard hash, issues and
//! validates signed, time-limited access and refresh tokens, and
//! orchestrates registration, login, logout, token refresh, credential
//! update and account deletion across a credential store and a profile
//! store, keeping the two consistent by explicit compensation.

pub mod email;
pub mod error;
pub mod jwt;
pub mod password;
pub mod profile;
pub mod service;
pub mod store;

pub use email::Email;
pub use error::AuthError;
pub use error::CommunityError;
pub use jwt::AccessToken;
pub use jwt::AccessTokenClaims;
pub use jwt::RefreshToken;
pub use jwt::RefreshTokenClaims;
pub use password::Password;
pub use profile::ProfileStore;
pub use service::AuthAccessRequest;
pub use service::AuthRegistrationRequest;
pub use service::AuthResponse;
pub use service::DbController;
pub use profile::UserProfile;
pub use store::Auth;
pub use store::CredentialStore;
