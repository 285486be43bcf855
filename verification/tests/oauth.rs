use base64::engine::general_purpose::URL_SAFE_NO_PAD;
use base64::Engine;
use sha2::{Digest, Sha256};

use moeb::oauth::{challenge_for, AuthRequest, OAuthError, OAuthStore, TokenInfo};

fn make_pkce_pair() -> (String, String) {
    let verifier = "test_code_verifier_that_is_long_enough_abcdefghij".to_string();
    let hash = Sha256::digest(verifier.as_bytes());
    let challenge = URL_SAFE_NO_PAD.encode(hash);
    (verifier, challenge)
}

fn request(challenge: String, method: Option<&str>, state: Option<&str>) -> AuthRequest {
    AuthRequest {
        response_type: Some("code".to_string()),
        client_id: "test-client".to_string(),
        redirect_uri: "http://localhost/callback".to_string(),
        code_challenge: challenge,
        code_challenge_method: method.map(|m| m.to_string()),
        state: state.map(|s| s.to_string()),
    }
}

#[test]
fn pkce_valid_verifier_exchanges_successfully() {
    let mut store = OAuthStore::new();
    let (verifier, challenge) = make_pkce_pair();
    let auth_state = store.begin_auth(request(challenge, Some("S256"), None)).unwrap();
    let (code, _redirect) = store.approve(&auth_state, "session-1").unwrap();
    let token = store.exchange_code(&code, &verifier, "test-client").unwrap();
    assert!(!token.is_empty());
    assert!(store.validate_token(&token));
}

#[test]
fn pkce_wrong_verifier_returns_error() {
    let mut store = OAuthStore::new();
    let (_verifier, challenge) = make_pkce_pair();
    let auth_state = store.begin_auth(request(challenge, Some("S256"), None)).unwrap();
    let (code, _) = store.approve(&auth_state, "session-1").unwrap();
    let result = store.exchange_code(&code, "wrong_verifier", "test-client");
    assert!(result.is_err(), "expected PKCE failure");
}

#[test]
fn expired_token_fails_validation() {
    let mut store = OAuthStore::new();
    // A second before now, on the store's clock.
    let expired = TokenInfo { session_id: "s1".to_string(), expires_at: store.now().saturating_sub(1000) };
    store.insert_token("expired-token".to_string(), expired);
    assert!(!store.validate_token("expired-token"));
}

#[test]
fn challenge_is_base64url_of_sha256() {
    let (verifier, challenge) = make_pkce_pair();
    assert_eq!(challenge_for(&verifier), challenge);
    assert_ne!(challenge_for("other"), challenge);
    // RFC 7636, appendix B.
    assert_eq!(
        challenge_for("dBjftJeZ4CVP-mB92K27uhbUJU1p1r_wW1gFWFOEjXk"),
        "E9Melhoa2OwvFrEMTJguCHaoeK1t8URWbuGJSstw-cM"
    );
}

#[test]
fn only_s256_is_accepted() {
    let mut store = OAuthStore::new();
    let (_, challenge) = make_pkce_pair();
    assert_eq!(store.begin_auth(request(challenge.clone(), Some("plain"), None)), Err(OAuthError::ChallengeMethod));
    assert_eq!(store.begin_auth(request(challenge, None, None)), Err(OAuthError::ChallengeMethod));
    assert_eq!(OAuthError::ChallengeMethod.message(), "code_challenge_method must be S256");
}

#[test]
fn given_state_is_kept_and_fresh_state_is_a_uuid() {
    let mut store = OAuthStore::new();
    let (_, challenge) = make_pkce_pair();
    let s = store.begin_auth(request(challenge.clone(), Some("S256"), Some("my-state"))).unwrap();
    assert_eq!(s, "my-state");
    let fresh = store.begin_auth(request(challenge, Some("S256"), None)).unwrap();
    assert_eq!(fresh.len(), 36);
    assert_eq!(fresh.chars().filter(|c| *c == '-').count(), 4);
}

#[test]
fn approve_unknown_state_fails() {
    let mut store = OAuthStore::new();
    assert_eq!(store.approve("nope", "s").unwrap_err(), OAuthError::UnknownState);
    assert_eq!(OAuthError::UnknownState.message(), "unknown state");
}

#[test]
fn approve_consumes_the_pending_state() {
    let mut store = OAuthStore::new();
    let (_, challenge) = make_pkce_pair();
    let s = store.begin_auth(request(challenge, Some("S256"), Some("st"))).unwrap();
    let (code, redirect) = store.approve_with(&s, "code-1".to_string(), 1_000).unwrap();
    assert_eq!(code, "code-1");
    assert_eq!(redirect, "http://localhost/callback");
    assert_eq!(store.approve(&s, "s").unwrap_err(), OAuthError::UnknownState);
}

#[test]
fn code_is_single_use_and_client_bound() {
    let mut store = OAuthStore::new();
    let (verifier, challenge) = make_pkce_pair();
    let s = store.begin_auth(request(challenge, Some("S256"), Some("st"))).unwrap();
    store.approve_with(&s, "code-1".to_string(), 1_000).unwrap();
    let err = store
        .exchange_code_with("code-1", &verifier, "other-client", "t".to_string(), "s".to_string(), 1_500)
        .unwrap_err();
    assert_eq!(err, OAuthError::ClientMismatch);
    assert_eq!(err.message(), "invalid_grant: client_id mismatch");
    let again = store
        .exchange_code_with("code-1", &verifier, "test-client", "t".to_string(), "s".to_string(), 1_600)
        .unwrap_err();
    assert_eq!(again, OAuthError::UnknownCode);
}

#[test]
fn code_expires_after_a_minute_and_token_after_a_day() {
    let mut store = OAuthStore::new();
    let (verifier, challenge) = make_pkce_pair();
    let s = store.begin_auth(request(challenge.clone(), Some("S256"), Some("a"))).unwrap();
    store.approve_with(&s, "late".to_string(), 1_000).unwrap();
    let late = store.exchange_code_with("late", &verifier, "test-client", "t0".to_string(), "s".to_string(), 61_000);
    assert_eq!(late, Err(OAuthError::UnknownCode));

    let s = store.begin_auth(request(challenge, Some("S256"), Some("b"))).unwrap();
    store.approve_with(&s, "ok".to_string(), 1_000).unwrap();
    let token = store
        .exchange_code_with("ok", &verifier, "test-client", "tok".to_string(), "sess".to_string(), 60_999)
        .unwrap();
    assert_eq!(token, "tok");
    assert!(store.validate_token_at("tok", 60_999 + 86_400_000 - 1));
    assert!(!store.validate_token_at("tok", 60_999 + 86_400_000));
    assert!(!store.validate_token_at("tok", 60_999));
}

#[test]
fn wrong_verifier_reports_pkce_failure() {
    let mut store = OAuthStore::new();
    let (_, challenge) = make_pkce_pair();
    let s = store.begin_auth(request(challenge, Some("S256"), Some("st"))).unwrap();
    store.approve_with(&s, "c".to_string(), 0).unwrap();
    let err = store.exchange_code_with("c", "bad", "test-client", "t".to_string(), "s".to_string(), 10).unwrap_err();
    assert_eq!(err, OAuthError::PkceFailed);
    assert_eq!(err.message(), "invalid_grant: PKCE verification failed");
}

#[test]
fn token_ahead_of_the_store_clock_is_valid() {
    let mut store = OAuthStore::new();
    let live = TokenInfo { session_id: "s1".to_string(), expires_at: store.now() + 60_000 };
    store.insert_token("live-token".to_string(), live);
    assert!(store.validate_token("live-token"));
}
