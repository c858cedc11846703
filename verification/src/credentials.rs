//! The credential service: password hashing and verification.
//!
//! Hashing uses a memory-hard, salted one-way function with a fresh random
//! salt per call, so two hashes of the same plaintext differ. Verification
//! recomputes the hash of a candidate plaintext under the salt and
//! parameters embedded in the stored string and compares the outputs; its
//! outcome is a function of the two arguments alone, named here by
//! `password_matches`. No contract states what `password_matches` is on
//! given values: tests reach the real computation through these functions.

use vstd::prelude::*;
use argon2::Argon2;
use argon2::password_hash::{PasswordHash, PasswordHasher, PasswordVerifier, SaltString};
use rand::rngs::OsRng;

verus! {

/// Whether `plain` verifies against the password-hash string `hashed`
/// under the salt and parameters embedded in it.
pub uninterp spec fn password_matches(plain: Seq<char>, hashed: Seq<char>) -> bool;

/// Hash a password with a fresh random salt.
///
/// Relies on `argon2::Argon2::hash_password` with a salt from
/// `SaltString::generate(OsRng)`: the returned PHC string embeds the salt
/// and parameters, and verifying it against the plaintext it was computed
/// from succeeds. `None` only on an entropy or hashing subsystem failure.
#[verifier::external_body]
pub fn hash_password(plain: &str) -> (r: Option<String>)
    ensures
        r matches Some(h) ==> password_matches(plain@, h@),
{
    let salt = SaltString::generate(&mut OsRng);
    match Argon2::default().hash_password(plain.as_bytes(), &salt) {
        Ok(h) => Some(h.to_string()),
        Err(_) => None,
    }
}

/// Check a password against a stored hash string; false — never a panic —
/// for malformed or foreign hash strings.
///
/// Relies on `argon2::password_hash::PasswordHash::new` to parse the
/// stored string and on `argon2::Argon2::verify_password` to recompute
/// the hash of `plain` under the embedded salt and parameters and compare
/// the outputs in constant time. The outcome depends on the two arguments
/// alone.
#[verifier::external_body]
pub fn verify_password(plain: &str, hashed: &str) -> (r: bool)
    ensures
        r == password_matches(plain@, hashed@),
{
    if let Ok(parsed) = PasswordHash::new(hashed) {
        Argon2::default().verify_password(plain.as_bytes(), &parsed).is_ok()
    } else {
        false
    }
}

/// Law: a hash this service just produced verifies against its own
/// plaintext. Hashing itself may fail, but whenever it yields a hash,
/// verifying that hash against the same plaintext returns true — for
/// every plaintext, whatever salt was drawn.
pub fn hash_then_verify(plain: &str) -> (r: Option<bool>)
    ensures
        r matches Some(b) ==> b,
{
    match hash_password(plain) {
        Some(h) => Some(verify_password(plain, h.as_str())),
        None => None,
    }
}

} // verus!
