//! Verified core of an MCP server for the Apple App Store Connect API.
//!
//! - [`auth`]: JWT credentials with a time-limited token cache.
//! - [`client`]: the rate-limit retry policy, status handling and pagination
//!   that drive every API request.
//! - [`client_endpoints`]: request paths, query parameters and request bodies.
//! - [`models`]: JSON:API envelopes, CI status enums and the sales report parser.

pub mod auth;
pub mod client;
pub mod client_endpoints;
pub mod models;
