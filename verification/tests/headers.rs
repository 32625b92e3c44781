//! Tests for the header container and the case-insensitive primitives.

use ws_mock::headers::{connection, upgrade, HeaderError, HeaderName, HeaderValue, Headers};
use ws_mock::text::eq_ignore_ascii_case;
use ws_mock::websocket::is_in_header;

fn value(s: &str) -> HeaderValue {
    HeaderValue::from_str(s).unwrap()
}

#[test]
fn header_name_parsing_normalizes_to_lowercase() {
    let name = HeaderName::from_string("CONNECTION".to_string()).unwrap();
    assert_eq!(name.as_str(), "connection");
    let mixed = HeaderName::from_string("Sec-WebSocket-Version".to_string()).unwrap();
    assert_eq!(mixed.as_str(), "sec-websocket-version");
}

#[test]
fn header_name_parsing_rejects_non_ascii() {
    let err = HeaderName::from_string("conne\u{00e7}tion".to_string()).unwrap_err();
    assert_eq!(err, HeaderError::NotAscii);
}

#[test]
fn header_value_parsing_keeps_the_token_unchanged() {
    let v = HeaderValue::from_str("Upgrade").unwrap();
    assert_eq!(v.as_str(), "Upgrade");
}

#[test]
fn header_value_parsing_rejects_non_ascii() {
    let err = HeaderValue::from_str("websock\u{00e9}t").unwrap_err();
    assert_eq!(err, HeaderError::NotAscii);
}

#[test]
fn well_known_names_are_lowercase() {
    assert_eq!(connection().as_str(), "connection");
    assert_eq!(upgrade().as_str(), "upgrade");
}

#[test]
fn lookup_is_case_insensitive_in_the_name() {
    let mut headers = Headers::new();
    headers.insert(
        HeaderName::from_string("Connection".to_string()).unwrap(),
        vec![value("keep-alive")],
    );
    let probe = HeaderName::from_string("cOnNeCtIoN".to_string()).unwrap();
    let values = headers.get(&probe).unwrap();
    assert_eq!(values.len(), 1);
    assert_eq!(values[0].as_str(), "keep-alive");
}

#[test]
fn lookup_of_an_absent_name_is_none() {
    let headers = Headers::new();
    assert!(headers.get(&connection()).is_none());
}

#[test]
fn insert_replaces_what_the_name_held() {
    let mut headers = Headers::new();
    headers.insert(connection(), vec![value("keep-alive")]);
    headers.insert(connection(), vec![value("Upgrade"), value("close")]);
    let values = headers.get(&connection()).unwrap();
    assert_eq!(values.len(), 2);
    assert_eq!(values[0].as_str(), "Upgrade");
    assert_eq!(values[1].as_str(), "close");
}

#[test]
fn remove_drops_the_name_and_ignores_absent_names() {
    let mut headers = Headers::new();
    headers.insert(connection(), vec![value("Upgrade")]);
    headers.remove(&upgrade());
    assert!(headers.get(&connection()).is_some());
    headers.remove(&connection());
    assert!(headers.get(&connection()).is_none());
}

#[test]
fn value_matching_is_case_insensitive_and_whole_token() {
    let mut headers = Headers::new();
    headers.insert(connection(), vec![value("Upgrade, keep-alive")]);
    // A combined token is not split by the matcher: no whole-value match.
    assert!(!is_in_header(&headers, &connection(), "Upgrade"));
    headers.insert(connection(), vec![value("UPGRADE")]);
    assert!(is_in_header(&headers, &connection(), "upgrade"));
}

#[test]
fn ascii_case_insensitive_string_equality() {
    assert!(eq_ignore_ascii_case("Upgrade", "UPGRADE"));
    assert!(eq_ignore_ascii_case("", ""));
    assert!(!eq_ignore_ascii_case("Upgrade", "Upgrades"));
    assert!(!eq_ignore_ascii_case("Upgrade", "Upgrad"));
    // Only ASCII letters fold: these differ by a non-ASCII case pair.
    assert!(!eq_ignore_ascii_case("\u{00fc}", "\u{00dc}"));
    assert!(eq_ignore_ascii_case("\u{00fc}", "\u{00fc}"));
}
