//! One inbound HTTP request, as captured by the mock server.
//!
//! A request is constructed per incoming exchange, handed to the matching
//! phase by read-only reference, and discarded when the exchange completes.
//! Matchers read only the header container; the URL and the method are
//! carried through for the surrounding server and stay opaque here.

use vstd::prelude::*;

use crate::headers::Headers;

verus! {

/// Relies on `http_types::Url`: the request's target URL, carried through
/// opaquely; the matching phase never reads it.
#[verifier::external_type_specification]
#[verifier::external_body]
pub struct ExUrl(http_types::Url);

/// Relies on `http_types::Method`: the request's HTTP method, carried
/// through opaquely; the matching phase never reads it.
#[verifier::external_type_specification]
#[verifier::external_body]
pub struct ExMethod(http_types::Method);

/// One inbound HTTP request. Matchers receive a read-only reference and may
/// not change it.
pub struct Request {
    /// The target URL.
    pub url: http_types::Url,
    /// The HTTP method.
    pub method: http_types::Method,
    /// The header collection: names looked up case-insensitively, each name
    /// with an ordered sequence of values.
    pub headers: Headers,
    /// The raw body bytes.
    pub body: Vec<u8>,
}

impl Request {
    /// A request is well-formed when its header container is; everything the
    /// crate's constructors build satisfies this.
    pub open spec fn wf(&self) -> bool {
        self.headers.wf()
    }
}

} // verus!
