//! The WebSocket upgrade-handshake matcher.
//!
//! A request asks to upgrade the connection to the WebSocket protocol when
//! its headers carry all three of `Connection: Upgrade`, `Upgrade: websocket`
//! and `Sec-WebSocket-Version: 13`, with names and values compared without
//! regard to ASCII letter case. Anything else — a missing header, an empty
//! value set, unrelated values — is simply not a handshake; detection never
//! fails with an error.

use vstd::prelude::*;

use crate::headers::{
    connection, header_has_value, lemma_header_name_case_insensitive,
    lemma_header_value_case_insensitive, upgrade, values_view, HeaderName, Headers,
};
use crate::matcher::{Match, Mock};
use crate::request::Request;
use crate::text::{eq_ignore_ascii_case, lower, str_eq_ci};
use vstd::pervasive::unreached;
use vstd::utf8::is_ascii_chars;

verus! {

/// A request is a WebSocket upgrade handshake when each of the three
/// required headers holds its required token. [`header_has_value`] folds the
/// probe name and compares values case-insensitively, so the letter casing
/// written here is immaterial.
pub open spec fn spec_is_upgrade_request(req: Request) -> bool {
    &&& header_has_value(req.headers@, "connection"@, "Upgrade"@)
    &&& header_has_value(req.headers@, "upgrade"@, "websocket"@)
    &&& header_has_value(req.headers@, "sec-websocket-version"@, "13"@)
}

/// Whether, among the values the request's headers hold under `header`, some
/// value equals `value` up to ASCII case. A header with no entry, or one
/// none of whose values matches, gives `false`, never an error.
pub fn is_in_header(headers: &Headers, header: &HeaderName, value: &str) -> (r: bool)
    requires
        headers.wf(),
    ensures
        r == header_has_value(headers@, header@, value@),
{
    let values = match headers.get(header) {
        Some(values) => values,
        None => {
            return false;
        },
    };
    let mut i: usize = 0;
    while i < values.len()
        invariant
            headers@.contains_key(lower(header@)),
            values_view(values@) == headers@[lower(header@)],
            i <= values@.len(),
            forall|j: int| 0 <= j < i ==> !str_eq_ci(values_view(values@)[j], value@),
        decreases values@.len() - i,
    {
        if eq_ignore_ascii_case(values[i].as_str(), value) {
            proof {
                assert(values_view(values@)[i as int] == values@[i as int]@);
                assert(str_eq_ci(headers@[lower(header@)][i as int], value@));
            }
            return true;
        }
        i += 1;
    }
    proof {
        assert forall|j: int|
            0 <= j < headers@[lower(header@)].len() implies !str_eq_ci(
            #[trigger] headers@[lower(header@)][j],
            value@,
        ) by {
            assert(headers@[lower(header@)][j] == values_view(values@)[j]);
        }
    }
    false
}

/// Decide whether `req` is a WebSocket upgrade handshake: the conjunction of
/// the three required header checks. Short-circuiting does not change the
/// answer.
pub fn is_upgrade_request(req: &Request) -> (r: bool)
    requires
        req.wf(),
    ensures
        r == spec_is_upgrade_request(*req),
{
    let connection_name = connection();
    let upgrade_name = upgrade();
    let version_name = sec_websocket_version();
    is_in_header(&req.headers, &connection_name, "Upgrade") && is_in_header(
        &req.headers,
        &upgrade_name,
        "websocket",
    ) && is_in_header(&req.headers, &version_name, "13")
}

/// The `Sec-WebSocket-Version` header name. The literal is ASCII, so the
/// fallible parse always succeeds; a failure here would be a programming
/// defect, not a runtime condition.
pub fn sec_websocket_version() -> (r: HeaderName)
    ensures
        r@ == "sec-websocket-version"@,
{
    proof {
        reveal_strlit("Sec-Websocket-Version");
        reveal_strlit("sec-websocket-version");
        assert(is_ascii_chars("Sec-Websocket-Version"@));
        assert(lower("Sec-Websocket-Version"@) =~= "sec-websocket-version"@);
    }
    match HeaderName::from_string("Sec-Websocket-Version".to_owned()) {
        Ok(name) => name,
        Err(_) => unreached(),
    }
}

/// The WebSocket handshake detector: a stateless matcher, evaluable
/// concurrently against many requests because it reads the request and
/// nothing else.
pub struct WebsocketMatcher;

impl Match for WebsocketMatcher {
    open spec fn spec_matches(&self, request: &Request) -> bool {
        spec_is_upgrade_request(*request)
    }

    fn matches(&self, request: &Request) -> (r: bool) {
        is_upgrade_request(request)
    }
}

/// A mock that applies exactly to WebSocket upgrade handshakes.
pub struct WsMock {
    inner: Mock<WebsocketMatcher>,
}

impl WsMock {
    /// A mock given the WebSocket upgrade matcher.
    pub fn new() -> (r: WsMock) {
        WsMock { inner: Mock::given(WebsocketMatcher) }
    }

    /// Whether this mock applies to `request`: exactly when the request is a
    /// WebSocket upgrade handshake.
    pub fn matches(&self, request: &Request) -> (r: bool)
        requires
            request.wf(),
        ensures
            r == spec_is_upgrade_request(*request),
    {
        self.inner.matches(request)
    }
}

/// Any request whose headers carry `Connection: Upgrade`,
/// `Upgrade: websocket` and `Sec-WebSocket-Version: 13` — under any ASCII
/// letter casing of the three header names and of the three values — is
/// recognised as an upgrade handshake.
pub proof fn lemma_upgrade_handshake_recognised(
    req: Request,
    cn: Seq<char>,
    cv: Seq<char>,
    un: Seq<char>,
    uv: Seq<char>,
    vn: Seq<char>,
    vv: Seq<char>,
)
    requires
        str_eq_ci(cn, "connection"@),
        str_eq_ci(cv, "Upgrade"@),
        header_has_value(req.headers@, cn, cv),
        str_eq_ci(un, "upgrade"@),
        str_eq_ci(uv, "websocket"@),
        header_has_value(req.headers@, un, uv),
        str_eq_ci(vn, "sec-websocket-version"@),
        str_eq_ci(vv, "13"@),
        header_has_value(req.headers@, vn, vv),
    ensures
        spec_is_upgrade_request(req),
{
    lemma_header_name_case_insensitive(req.headers@, cn, "connection"@, cv);
    lemma_header_value_case_insensitive(req.headers@, "connection"@, cv, "Upgrade"@);
    lemma_header_name_case_insensitive(req.headers@, un, "upgrade"@, uv);
    lemma_header_value_case_insensitive(req.headers@, "upgrade"@, uv, "websocket"@);
    lemma_header_name_case_insensitive(req.headers@, vn, "sec-websocket-version"@, vv);
    lemma_header_value_case_insensitive(req.headers@, "sec-websocket-version"@, vv, "13"@);
}

/// A request that lacks any one of the three required headers is not an
/// upgrade handshake: absence of a header yields `false`, never an error.
pub proof fn lemma_missing_header_never_matches(req: Request)
    ensures
        !req.headers@.contains_key(lower("connection"@)) ==> !spec_is_upgrade_request(req),
        !req.headers@.contains_key(lower("upgrade"@)) ==> !spec_is_upgrade_request(req),
        !req.headers@.contains_key(lower("sec-websocket-version"@)) ==> !spec_is_upgrade_request(
            req,
        ),
{
}

/// A required header that is present but holds only values unrelated to its
/// required token does not make a request an upgrade handshake.
pub proof fn lemma_unrelated_values_never_match(req: Request)
    ensures
        (forall|i: int|
            0 <= i < req.headers@[lower("connection"@)].len() ==> !str_eq_ci(
                #[trigger] req.headers@[lower("connection"@)][i],
                "Upgrade"@,
            )) ==> !spec_is_upgrade_request(req),
        (forall|i: int|
            0 <= i < req.headers@[lower("upgrade"@)].len() ==> !str_eq_ci(
                #[trigger] req.headers@[lower("upgrade"@)][i],
                "websocket"@,
            )) ==> !spec_is_upgrade_request(req),
        (forall|i: int|
            0 <= i < req.headers@[lower("sec-websocket-version"@)].len() ==> !str_eq_ci(
                #[trigger] req.headers@[lower("sec-websocket-version"@)][i],
                "13"@,
            )) ==> !spec_is_upgrade_request(req),
{
}

} // verus!
