//! Request routing and access-control decisions for an inbound mesh proxy.
//!
//! Given an immutable policy snapshot and one request, the library selects the
//! most specific applicable rule, decides whether the client may use it, and
//! runs the rule's filters.

pub mod rank;
pub mod text;
pub mod request;
pub mod pattern;
pub mod host;
pub mod route;
pub mod http_match;
pub mod grpc_match;
pub mod authz;
pub mod http_filter;
pub mod grpc_filter;
pub mod policy;
pub mod laws;
