//! Admission control and response negotiation for a small web API.
//!
//! The library verifies a caller's identity from request headers, enforces a
//! freshness window on the request timestamp, enforces a per-application
//! hourly quota backed by a counter store, and conditionally gzip-compresses
//! outgoing response bodies based on content negotiation.

pub mod api;
pub mod auth;
pub mod compress;
pub mod counter;
pub mod headers;
pub mod models;
pub mod parse;
pub mod registry;
pub mod rejection;
