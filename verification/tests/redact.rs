use moeb::redact::{strip_auth_from_body, strip_auth_from_headers, strip_auth_from_value, strip_auth_headers};
use moeb::str_map::StrMap;

fn map_of(pairs: &[(&str, &str)]) -> StrMap<String> {
    let mut m = StrMap::new();
    for (k, v) in pairs {
        m.insert(k.to_string(), v.to_string());
    }
    m
}

#[test]
fn anthropic_headers_lose_credentials_in_any_case() {
    let h = map_of(&[
        ("Authorization", "Bearer t"),
        ("X-API-KEY", "sk"),
        ("content-type", "application/json"),
        ("anthropic-version", "2023-06-01"),
    ]);
    let r = strip_auth_from_headers(h);
    assert_eq!(r.len(), 2);
    assert!(!r.contains_key("Authorization"));
    assert!(!r.contains_key("X-API-KEY"));
    assert_eq!(r.get("content-type").map(|s| s.as_str()), Some("application/json"));
    assert_eq!(r.get("anthropic-version").map(|s| s.as_str()), Some("2023-06-01"));
}

#[test]
fn openai_headers_keep_the_api_key_header() {
    let h = map_of(&[("AUTHORIZATION", "Bearer t"), ("x-api-key", "k"), ("accept", "*/*")]);
    let r = strip_auth_headers(h);
    assert_eq!(r.len(), 2);
    assert!(!r.contains_key("AUTHORIZATION"));
    assert!(r.contains_key("x-api-key"));
    assert!(r.contains_key("accept"));
}

#[test]
fn anthropic_body_loses_only_the_listed_spellings() {
    let b = map_of(&[
        ("authorization", "a"),
        ("X-Api-Key", "b"),
        ("AUTHORIZATION", "c"),
        ("model", "m"),
    ]);
    let r = strip_auth_from_value(b);
    assert_eq!(r.len(), 2);
    assert!(r.contains_key("AUTHORIZATION"));
    assert!(r.contains_key("model"));
}

#[test]
fn openai_body_loses_authorization_fields() {
    let b = map_of(&[("Authorization", "a"), ("x-api-key", "b"), ("model", "m")]);
    let r = strip_auth_from_body(b);
    assert_eq!(r.len(), 2);
    assert!(!r.contains_key("Authorization"));
    assert!(r.contains_key("x-api-key"));
}

#[test]
fn headers_without_credentials_are_unchanged() {
    let r = strip_auth_from_headers(map_of(&[("accept", "x")]));
    assert_eq!(r.len(), 1);
    assert_eq!(r.get("accept").map(|s| s.as_str()), Some("x"));
}
