//! The OAuth-style token endpoints and their payload shapes.
//!
//! Token issuance is not implemented: the handlers are stubs that fail every
//! call. Only the admission guard in front of them — authentication, quota,
//! and response compression — is part of this library's design.

use vstd::prelude::*;
use crate::compress::CompressedJson;
use crate::rejection::Rejection;

verus! {

/// Refresh token information structure.
#[derive(Debug)]
pub struct RefreshToken {
    /// The raw token bytes, rendered as hex on the wire.
    pub token: [u8; 16],
    /// Expiration timestamp, Unix seconds.
    pub expiration: i64,
}

/// Access token information structure.
#[derive(Debug)]
pub struct AccessToken {
    /// The scopes the token grants.
    pub scope: Vec<String>,
    /// Expiration timestamp, Unix seconds.
    pub expiration: i64,
}

/// Refresh token response structure.
#[derive(Debug)]
pub struct RefreshResponse {
    /// The refresh token issued.
    pub refresh_token: RefreshToken,
    /// The access token issued beside it.
    pub access_token: AccessToken,
}

/// Token refresh request credentials.
#[derive(Debug)]
pub struct RefreshCredentials {
    /// The caller's username.
    pub username: String,
    /// The caller's password.
    pub password: String,
}

/// Authenticate a user with username and password.
///
/// Not implemented: every call fails with the server-attributable outcome.
pub fn refresh_token(
    application: crate::auth::Application,
    credentials: RefreshCredentials,
) -> (r: Result<CompressedJson<RefreshResponse>, Rejection>)
    ensures
        r == Err::<CompressedJson<RefreshResponse>, Rejection>(Rejection::CollaboratorFailure),
{
    let _ = application;
    let _ = credentials;
    Err(Rejection::CollaboratorFailure)
}

/// Get an access token.
///
/// Not implemented: every call fails with the server-attributable outcome.
pub fn access_token() -> (r: Result<CompressedJson<AccessToken>, Rejection>)
    ensures
        r == Err::<CompressedJson<AccessToken>, Rejection>(Rejection::CollaboratorFailure),
{
    Err(Rejection::CollaboratorFailure)
}

} // verus!
