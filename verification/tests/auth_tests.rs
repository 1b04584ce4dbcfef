use rsky_feedgen::auth::{
    accept_claims, constant_time_eq, extract_bearer, service_key_guard, AuthError,
    RequestIdentity, resolve_identity,
};

#[test]
fn constant_time_eq_agrees_with_equality() {
    assert!(constant_time_eq("secret-key", "secret-key"));
    assert!(!constant_time_eq("secret-key", "secret-kez"));
    assert!(!constant_time_eq("short", "longer-value"));
    assert!(constant_time_eq("", ""));
}

#[test]
fn service_key_guard_without_configuration_is_refused() {
    let r = service_key_guard(None, Some("anything"));
    assert_eq!(r, Err(AuthError::ConfigurationError));
}

#[test]
fn service_key_guard_missing_header_is_refused() {
    let r = service_key_guard(Some("hunter2"), None);
    assert_eq!(r, Err(AuthError::MissingCredential));
}

#[test]
fn service_key_guard_wrong_key_is_refused() {
    let r = service_key_guard(Some("hunter2"), Some("hunter3"));
    assert_eq!(r, Err(AuthError::InvalidCredential));
}

#[test]
fn service_key_guard_correct_key_succeeds_regardless_of_session_state() {
    // The guard does not even look at session-token state: the same correct
    // key passes next to a missing, an invalid, and a valid session token.
    let r = service_key_guard(Some("hunter2"), Some("hunter2"));
    assert_eq!(r, Ok("hunter2".to_string()));
    let bad_session = accept_claims(None, "did:web:feedgen.test");
    assert!(bad_session.is_err());
    let r = service_key_guard(Some("hunter2"), Some("hunter2"));
    assert_eq!(r, Ok("hunter2".to_string()));
}

#[test]
fn extract_bearer_missing_header() {
    assert_eq!(extract_bearer(None), Err(AuthError::MissingCredential));
}

#[test]
fn extract_bearer_wrong_scheme() {
    assert_eq!(
        extract_bearer(Some("Token abc.def.ghi")),
        Err(AuthError::InvalidCredential)
    );
}

#[test]
fn extract_bearer_returns_token_text() {
    assert_eq!(extract_bearer(Some("Bearer abc.def.ghi")), Ok("abc.def.ghi".to_string()));
    // Splitting on spaces keeps the final chunk.
    assert_eq!(extract_bearer(Some("Bearer x y z")), Ok("z".to_string()));
}

#[test]
fn audience_mismatch_fails_even_with_valid_payload() {
    // A payload the signature verifier accepted, but addressed elsewhere.
    let payload = "{\"iss\":\"did:example:alice\",\"aud\":\"did:web:somebody.else\"}";
    let r = accept_claims(Some(payload), "did:web:feedgen.test");
    assert_eq!(r.err(), Some(AuthError::InvalidCredential));
}

#[test]
fn matching_audience_yields_claims() {
    let payload = "{\"iss\":\"did:example:alice\",\"aud\":\"did:web:feedgen.test\"}";
    let r = accept_claims(Some(payload), "did:web:feedgen.test").unwrap();
    assert_eq!(r.issuer, "did:example:alice");
    assert_eq!(r.audience, "did:web:feedgen.test");
    assert_eq!(r.raw, payload);
}

#[test]
fn malformed_payload_is_refused() {
    let r = accept_claims(Some("not json at all"), "did:web:feedgen.test");
    assert_eq!(r.err(), Some(AuthError::InvalidCredential));
    let r = accept_claims(Some("{\"iss\":\"did:example:alice\"}"), "did:web:feedgen.test");
    assert_eq!(r.err(), Some(AuthError::InvalidCredential));
}

#[test]
fn failed_verification_is_anonymous() {
    let identity = resolve_identity(accept_claims(None, "did:web:feedgen.test"));
    assert!(matches!(identity, RequestIdentity::Anonymous));
}
