//! The typed outcomes with which a request is turned away before its handler
//! runs, and the HTTP status and reason string each one carries to the client.

use vstd::prelude::*;

verus! {

/// A terminal outcome for the current request. The first four variants are
/// client-attributable; the last two are server-attributable and only ever
/// surface the generic reason, never internal detail.
#[derive(Debug, Clone, Copy, PartialEq, Eq, Structural)]
pub enum Rejection {
    /// A required header is missing, or `X-App-Id` / `X-Timestamp` does not parse.
    MalformedRequest,
    /// The request timestamp falls outside the accepted freshness window.
    StaleOrFutureTimestamp,
    /// The application identifier is not present in the registry.
    UnknownApplication,
    /// The application has used up its hourly request quota.
    QuotaExceeded,
    /// The registry or the counter store failed.
    CollaboratorFailure,
    /// Compressing the response body failed.
    CompressionFailure,
}

impl Rejection {
    /// The HTTP status code this rejection maps to.
    pub open spec fn spec_status(self) -> u16 {
        match self {
            Rejection::MalformedRequest => 400,
            Rejection::StaleOrFutureTimestamp => 400,
            Rejection::UnknownApplication => 401,
            Rejection::QuotaExceeded => 429,
            Rejection::CollaboratorFailure => 500,
            Rejection::CompressionFailure => 500,
        }
    }

    /// The static human-readable reason reported to the client.
    pub open spec fn spec_reason(self) -> Seq<char> {
        match self {
            Rejection::MalformedRequest => "Valid X-App-Id, X-Timestamp or X-Signature headers not found"@,
            Rejection::StaleOrFutureTimestamp => "Invalid timestamp"@,
            Rejection::UnknownApplication => "Invalid application ID"@,
            Rejection::QuotaExceeded => "Hourly request limit reached"@,
            Rejection::CollaboratorFailure => "Unknown error"@,
            Rejection::CompressionFailure => "Unknown error"@,
        }
    }

    /// Returns the HTTP status code for this rejection.
    pub fn status(&self) -> (s: u16)
        ensures
            s == self.spec_status(),
    {
        match self {
            Rejection::MalformedRequest => 400,
            Rejection::StaleOrFutureTimestamp => 400,
            Rejection::UnknownApplication => 401,
            Rejection::QuotaExceeded => 429,
            Rejection::CollaboratorFailure => 500,
            Rejection::CompressionFailure => 500,
        }
    }

    /// Returns the reason string for this rejection.
    pub fn reason(&self) -> (r: &'static str)
        ensures
            r@ == self.spec_reason(),
    {
        match self {
            Rejection::MalformedRequest => "Valid X-App-Id, X-Timestamp or X-Signature headers not found",
            Rejection::StaleOrFutureTimestamp => "Invalid timestamp",
            Rejection::UnknownApplication => "Invalid application ID",
            Rejection::QuotaExceeded => "Hourly request limit reached",
            Rejection::CollaboratorFailure => "Unknown error",
            Rejection::CompressionFailure => "Unknown error",
        }
    }
}

} // verus!
