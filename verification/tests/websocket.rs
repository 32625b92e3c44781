//! Tests for the WebSocket upgrade-handshake matcher.

use http_types::{Method, Url};
use ws_mock::headers::{connection, upgrade, HeaderName, HeaderValue, Headers};
use ws_mock::matcher::Mock;
use ws_mock::request::Request;
use ws_mock::websocket::{is_upgrade_request, sec_websocket_version, WebsocketMatcher, WsMock};

fn value(s: &str) -> HeaderValue {
    HeaderValue::from_str(s).unwrap()
}

fn make_upgrade_request() -> Request {
    let mut headers = Headers::new();
    headers.insert(connection(), vec![value("Upgrade")]);
    headers.insert(upgrade(), vec![value("websocket")]);
    headers.insert(sec_websocket_version(), vec![value("13")]);
    Request {
        url: Url::parse("ws://127.0.0.1:8080").unwrap(),
        method: Method::Get,
        headers,
        body: vec![],
    }
}

#[test]
fn upgrade_request_is_correctly_detected() {
    let req = make_upgrade_request();
    assert!(is_upgrade_request(&req));
}

#[test]
fn request_without_connection_header_is_not_an_upgrade_request() {
    let mut req = make_upgrade_request();
    req.headers.remove(&upgrade());
    assert!(!is_upgrade_request(&req));
}

#[test]
fn request_without_upgrade_header_is_not_an_upgrade_request() {
    let mut req = make_upgrade_request();
    req.headers.remove(&connection());
    assert!(!is_upgrade_request(&req));
}

#[test]
fn request_without_websocket_version_header_is_not_an_upgrade_request() {
    let mut req = make_upgrade_request();
    req.headers.remove(&sec_websocket_version());
    assert!(!is_upgrade_request(&req));
}

#[test]
fn multi_value_connection_header_matches_when_one_value_matches() {
    let mut req = make_upgrade_request();
    req.headers
        .insert(connection(), vec![value("Upgrade"), value("keep-alive")]);
    assert!(is_upgrade_request(&req));
}

#[test]
fn wrong_upgrade_value_is_not_an_upgrade_request() {
    let mut req = make_upgrade_request();
    req.headers.insert(upgrade(), vec![value("h2c")]);
    assert!(!is_upgrade_request(&req));
}

#[test]
fn unrelated_connection_value_is_not_an_upgrade_request() {
    let mut req = make_upgrade_request();
    req.headers.insert(connection(), vec![value("keep-alive")]);
    assert!(!is_upgrade_request(&req));
}

#[test]
fn empty_value_set_is_treated_as_not_found() {
    let mut req = make_upgrade_request();
    req.headers.insert(connection(), vec![]);
    assert!(!is_upgrade_request(&req));
}

#[test]
fn request_with_no_headers_at_all_is_not_an_upgrade_request() {
    let mut req = make_upgrade_request();
    req.headers = Headers::new();
    assert!(!is_upgrade_request(&req));
}

#[test]
fn extra_unrelated_headers_are_ignored() {
    let mut req = make_upgrade_request();
    req.headers.insert(
        HeaderName::from_string("x-custom".to_string()).unwrap(),
        vec![value("anything")],
    );
    assert!(is_upgrade_request(&req));
}

#[test]
fn header_names_and_values_match_in_any_letter_casing() {
    let mut req = make_upgrade_request();
    let mut headers = Headers::new();
    headers.insert(
        HeaderName::from_string("CONNECTION".to_string()).unwrap(),
        vec![value("UPGRADE")],
    );
    headers.insert(
        HeaderName::from_string("Upgrade".to_string()).unwrap(),
        vec![value("WebSocket")],
    );
    headers.insert(
        HeaderName::from_string("sec-webSOCKET-version".to_string()).unwrap(),
        vec![value("13")],
    );
    req.headers = headers;
    assert!(is_upgrade_request(&req));
}

#[test]
fn matching_twice_gives_the_same_answer() {
    let req = make_upgrade_request();
    let first = is_upgrade_request(&req);
    let second = is_upgrade_request(&req);
    assert_eq!(first, second);
    assert!(first);
}

#[test]
fn websocket_matcher_agrees_with_the_free_function() {
    let req = make_upgrade_request();
    let mock = Mock::given(WebsocketMatcher);
    assert!(mock.matches(&req));
    let mut missing = make_upgrade_request();
    missing.headers.remove(&upgrade());
    assert!(!mock.matches(&missing));
}

#[test]
fn ws_mock_applies_exactly_to_upgrade_handshakes() {
    let mock = WsMock::new();
    let req = make_upgrade_request();
    assert!(mock.matches(&req));
    let mut wrong = make_upgrade_request();
    wrong.headers.insert(upgrade(), vec![value("h2c")]);
    assert!(!mock.matches(&wrong));
}

#[test]
fn sec_websocket_version_name_is_normalized() {
    assert_eq!(sec_websocket_version().as_str(), "sec-websocket-version");
}
