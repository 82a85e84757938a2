use arrest::headers::{accept_headers, derive_headers, owed_headers};
use arrest::ConfigError;

#[test]
fn derive_headers_writes_authorization_and_accept() {
    let map = derive_headers("abc123").unwrap();
    assert_eq!(map.len(), 2);
    assert_eq!(map.get("authorization").unwrap().as_bytes(), b"Bearer abc123");
    assert_eq!(map.get("accept").unwrap().as_bytes(), b"application/json");
}

#[test]
fn derive_headers_rejects_a_control_character() {
    assert_eq!(derive_headers("abc\u{1f}").err(), Some(ConfigError::InvalidToken));
}

#[test]
fn accept_headers_hold_accept_alone() {
    let map = accept_headers();
    assert_eq!(map.len(), 1);
    assert_eq!(map.get("accept").unwrap().as_bytes(), b"application/json");
    assert!(map.get("authorization").is_none());
}

#[test]
fn owed_headers_without_token_are_accept_alone() {
    let map = owed_headers(&None).unwrap();
    assert_eq!(map.len(), 1);
    assert_eq!(map.get("accept").unwrap().as_bytes(), b"application/json");
}

#[test]
fn owed_headers_with_token_carry_it() {
    let map = owed_headers(&Some(String::from("abc123"))).unwrap();
    assert_eq!(map.len(), 2);
    assert_eq!(map.get("authorization").unwrap().as_bytes(), b"Bearer abc123");
    assert_eq!(map.get("accept").unwrap().as_bytes(), b"application/json");
}

#[test]
fn owed_headers_reject_a_token_that_cannot_be_carried() {
    assert_eq!(owed_headers(&Some(String::from("a\rb"))).err(), Some(ConfigError::InvalidToken));
}
