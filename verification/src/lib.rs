//! A request-matching engine for an HTTP mock server, specialised with a
//! matcher that recognises WebSocket upgrade handshakes.
//!
//! The crate is organised leaf-first:
//! - [`text`] gives ASCII case folding and case-insensitive string equality;
//! - [`headers`] gives the case-insensitive, multi-value header container;
//! - [`request`] gives the inbound request as the matching phase sees it;
//! - [`matcher`] gives the polymorphic `Match` capability and the mock
//!   registration surface;
//! - [`websocket`] gives the WebSocket upgrade-handshake matcher.

pub mod headers;
pub mod matcher;
pub mod request;
pub mod text;
pub mod websocket;
