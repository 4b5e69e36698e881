//! Password hashing and verification, through argon2. Hashing draws a
//! random salt, so nothing can be pinned about the hash it yields; what
//! verification accepts is a function of the hash string and the candidate
//! alone, and carries the name `argon2_verifies` through the contracts.

use vstd::prelude::*;
use argon2::{PasswordHasher, PasswordVerifier};

verus! {

/// Whether argon2 verification accepts `password` against the PHC-encoded
/// `hash`; false also when `hash` does not parse as a PHC string.
pub uninterp spec fn argon2_verifies(hash: Seq<char>, password: Seq<char>) -> bool;

/// Relies on argon2's PasswordHasher::hash_password with Argon2id version
/// 19 and the fixed cost parameters: the salt comes from the system's
/// secure generator, so nothing is promised of the PHC string that comes
/// back; a hashing failure is reported rather than panicked on.
#[verifier::external_body]
pub fn hash_password(password: String) -> (r: Option<String>)
{
    let params = match argon2::Params::new(15000, 2, 1, None) {
        Ok(p) => p,
        Err(_) => return None,
    };
    let hasher = argon2::Argon2::new(argon2::Algorithm::Argon2id, argon2::Version::V0x13, params);
    match hasher.hash_password(password.as_bytes()) {
        Ok(hash) => Some(hash.to_string()),
        Err(_) => None,
    }
}

/// Relies on phc's PasswordHash parsing and argon2's
/// PasswordVerifier::verify_password with the default parameters: whether
/// the candidate matches is a function of the two strings alone.
#[verifier::external_body]
pub fn hash_is_correct(expected_password_hash: String, password_candidate: String) -> (r: bool)
    ensures
        r == argon2_verifies(expected_password_hash@, password_candidate@),
{
    let parsed = match argon2::PasswordHash::new(&expected_password_hash) {
        Ok(h) => h,
        Err(_) => return false,
    };
    argon2::Argon2::default().verify_password(password_candidate.as_bytes(), &parsed).is_ok()
}

} // verus!
