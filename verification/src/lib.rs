//! An embedded-style HTTP request/response engine: a byte-level request
//! parser, a bounded key-value map for query strings and form bodies, a
//! bounded routing table, a response serializer, and the decision logic of a
//! single-connection server loop.
//!
//! All collections are bounded: exceeding a capacity is a reported error,
//! never silent truncation.

pub mod bytes;
pub mod dht11;
pub mod display;
pub mod handlers;
pub mod kvmap;
pub mod laws;
pub mod numerals;
pub mod request;
pub mod response;
pub mod router;
pub mod server;

pub use display::Display;
