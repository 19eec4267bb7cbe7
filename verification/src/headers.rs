//! The inbound request headers the admission guard reads, as plain values.
//!
//! The host hands these over exactly as the request carried them: a header is
//! either absent or present with its raw text. Nothing is parsed before the
//! guard runs.

use vstd::prelude::*;
use crate::parse::{spec_parse_i64, spec_parse_u64};

verus! {

/// The request headers that admission control and content negotiation read.
pub struct RequestHeaders {
    /// The `X-App-Id` header value, if present.
    pub app_id: Option<String>,
    /// The `X-Timestamp` header value, if present.
    pub timestamp: Option<String>,
    /// The `X-Signature` header value, if present. The guard requires the
    /// header but accepts its content without cryptographic verification
    /// against the application's secret: a known gap, left visible rather
    /// than silently closed.
    pub signature: Option<String>,
    /// The `Accept` header value, if present.
    pub accept: Option<String>,
    /// The `Accept-Encoding` header values, one entry per header line.
    pub accept_encoding: Vec<String>,
}

/// Whether the three required authentication headers are present and the two
/// numeric ones parse.
pub open spec fn auth_headers_ok(h: RequestHeaders) -> bool {
    &&& h.app_id matches Some(a) && spec_parse_u64(a@) is Some
    &&& h.timestamp matches Some(t) && spec_parse_i64(t@) is Some
    &&& h.signature is Some
}

/// The parsed application identifier of a well-formed request.
pub open spec fn header_app_id(h: RequestHeaders) -> u64
    recommends
        auth_headers_ok(h),
{
    spec_parse_u64((h.app_id->Some_0)@)->Some_0
}

/// The parsed timestamp of a well-formed request.
pub open spec fn header_timestamp(h: RequestHeaders) -> i64
    recommends
        auth_headers_ok(h),
{
    spec_parse_i64((h.timestamp->Some_0)@)->Some_0
}

} // verus!
