//! Password hashing and verification against the real hashing backend.

use content_core::credentials::{hash_password, hash_then_verify, verify_password};

#[test]
fn verify_accepts_own_hash() {
    let hash = hash_password("secret1").expect("hashing should succeed");
    assert!(verify_password("secret1", &hash));
    assert_eq!(hash_then_verify("another pass"), Some(true));
}

#[test]
fn verify_rejects_other_plaintext() {
    let hash = hash_password("secret2").expect("hashing should succeed");
    assert!(!verify_password("secret1", &hash));
    assert!(!verify_password("", &hash));
}

#[test]
fn verify_rejects_malformed_hash() {
    assert!(!verify_password("secret1", "not-a-hash"));
    assert!(!verify_password("secret1", ""));
    assert!(!verify_password("secret1", "$argon2id$garbage"));
}

#[test]
fn hashing_salts_freshly() {
    let h1 = hash_password("secret1").expect("hashing should succeed");
    let h2 = hash_password("secret1").expect("hashing should succeed");
    assert_ne!(h1, h2);
    assert_ne!(h1, "secret1");
    assert!(verify_password("secret1", &h1));
    assert!(verify_password("secret1", &h2));
}
