//! Token issuance, validation and header extraction against the real
//! signing backend.

use content_core::errors::AuthError;
use content_core::identity::{extract_token_from_header, resolve_optional, resolve_required};
use content_core::token::{decode_token, generate_token};

const SECRET: &str = "unit-test-secret";

#[test]
fn fresh_token_validates_with_subject_and_label() {
    let now: u64 = 1_700_000_000;
    let token = generate_token(SECRET, "user-17", "alice", 3600, now).expect("signing");
    let claims = decode_token(SECRET, &token, now + 3599).expect("should validate");
    assert_eq!(claims.user_id, "user-17");
    assert_eq!(claims.message, "alice");
    assert_eq!(claims.iat, now);
    assert_eq!(claims.exp, now + 3600);
}

#[test]
fn token_expires_at_issued_at_plus_ttl() {
    let now: u64 = 1_700_000_000;
    let token = generate_token(SECRET, "user-17", "alice", 60, now).expect("signing");
    let at_expiry = decode_token(SECRET, &token, now + 60);
    assert_eq!(at_expiry.unwrap_err(), AuthError::Expired);
    let past_expiry = decode_token(SECRET, &token, now + 61);
    assert_eq!(past_expiry.unwrap_err(), AuthError::Expired);
    assert!(decode_token(SECRET, &token, now + 59).is_ok());
}

#[test]
fn garbage_token_is_malformed() {
    let r = decode_token(SECRET, "definitely.not.a-token", 1_700_000_000);
    assert_eq!(r.unwrap_err(), AuthError::Malformed);
    let r = decode_token(SECRET, "", 1_700_000_000);
    assert_eq!(r.unwrap_err(), AuthError::Malformed);
}

#[test]
fn wrong_secret_is_malformed_not_expired() {
    let now: u64 = 1_700_000_000;
    let token = generate_token(SECRET, "user-17", "alice", 3600, now).expect("signing");
    let r = decode_token("another-secret", &token, now);
    assert_eq!(r.unwrap_err(), AuthError::Malformed);
}

#[test]
fn tampered_token_is_rejected() {
    let now: u64 = 1_700_000_000;
    let token = generate_token(SECRET, "user-17", "alice", 3600, now).expect("signing");
    let mut tampered = token.clone();
    tampered.pop();
    let r = decode_token(SECRET, &tampered, now);
    assert!(r.is_err());
}

#[test]
fn extract_token_strips_bearer_prefix() {
    assert_eq!(
        extract_token_from_header("Bearer abc.def.ghi"),
        Some("abc.def.ghi".to_string())
    );
    assert_eq!(extract_token_from_header("Bearer "), Some("".to_string()));
    assert_eq!(extract_token_from_header("bearer abc"), None);
    assert_eq!(extract_token_from_header("Bearerabc"), None);
    assert_eq!(extract_token_from_header(""), None);
    assert_eq!(extract_token_from_header("Basic abc"), None);
}

#[test]
fn required_and_optional_resolution_agree() {
    let now: u64 = 1_700_000_000;
    let token = generate_token(SECRET, "user-17", "alice", 3600, now).expect("signing");
    let header = format!("Bearer {}", token);

    let required = resolve_required(SECRET, Some(&header), now).expect("valid header");
    assert_eq!(required.0.user_id, "user-17");
    let optional = resolve_optional(SECRET, Some(&header), now);
    assert_eq!(optional.0.as_ref().map(|c| c.user_id.clone()), Some("user-17".to_string()));

    // Missing header, missing prefix, expired token: required fails,
    // optional yields no identity.
    assert!(resolve_required(SECRET, None, now).is_err());
    assert!(resolve_optional(SECRET, None, now).0.is_none());
    assert!(resolve_required(SECRET, Some(&token), now).is_err());
    assert!(resolve_optional(SECRET, Some(&token), now).0.is_none());
    assert!(resolve_required(SECRET, Some(&header), now + 7200).is_err());
    assert!(resolve_optional(SECRET, Some(&header), now + 7200).0.is_none());
}
