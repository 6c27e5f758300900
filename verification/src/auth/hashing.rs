//! Password hashing keyed with a server-wide secret (pepper): Argon2id
//! with default parameters and a fresh random salt per hash.
use vstd::prelude::*;
use vstd::string::*;
use argon2::password_hash::{PasswordHash, PasswordHasher, PasswordVerifier, Salt, SaltString};
use argon2::{Algorithm, Argon2, Params, Version};

verus! {

/// The PHC string that Argon2id (v0x13, default parameters, keyed with
/// `secret`) produces for `password` and `salt`; a function of those
/// arguments alone. Given meaning by `argon2_hash` below.
pub uninterp spec fn hashed(secret: Seq<u8>, password: Seq<u8>, salt: Seq<char>) -> Seq<char>;

/// Whether Argon2id verification of `stored` against `password`, keyed
/// with `secret`, succeeds; a function of those arguments alone. Given
/// meaning by `argon2_verify` below.
pub uninterp spec fn verifies(secret: Seq<u8>, password: Seq<u8>, stored: Seq<char>) -> bool;

/// Relies on argon2::password_hash::SaltString::generate over OsRng: a
/// fresh random salt; nothing is assumed of the drawn value.
#[verifier::external_body]
fn generate_salt() -> (r: String) {
    SaltString::generate(&mut rand::rngs::OsRng).to_string()
}

/// Relies on Argon2::hash_password, constructed by new_with_secret with
/// Argon2id, version 0x13 and default parameters: the PHC-string result is
/// a function of secret, password and salt alone, and verifying it against
/// the same secret and password succeeds.
#[verifier::external_body]
fn argon2_hash(secret: &[u8], password: &[u8], salt: &str) -> (r: Option<String>)
    ensures
        r matches Some(h) ==> h@ == hashed(secret@, password@, salt@) && verifies(
            secret@,
            password@,
            h@,
        ),
{
    let argon = Argon2::new_with_secret(secret, Algorithm::Argon2id, Version::V0x13, Params::default()).ok()?;
    let salt_ref = Salt::from_b64(salt).ok()?;
    Some(argon.hash_password(password, salt_ref).ok()?.to_string())
}

/// Relies on Argon2::verify_password over a hash parsed by
/// PasswordHash::new, with the same construction as `argon2_hash`: the
/// outcome is a function of secret, password and stored string alone; any
/// parse or digest mismatch yields false.
#[verifier::external_body]
fn argon2_verify(secret: &[u8], password: &[u8], stored: &str) -> (r: bool)
    ensures
        r == verifies(secret@, password@, stored@),
{
    let argon = Argon2::new_with_secret(secret, Algorithm::Argon2id, Version::V0x13, Params::default());
    match (argon, PasswordHash::new(stored)) {
        (Ok(a), Ok(h)) => a.verify_password(password, &h).is_ok(),
        _ => false,
    }
}

/// Hash a plaintext password under the pepper with a fresh random salt.
/// Fails only on internal misconfiguration of the algorithm, never on the
/// password's value.
pub fn hash_password(secret: &str, password: &str) -> (r: Option<String>)
    ensures
        r matches Some(h) ==> verifies(secret.spec_bytes(), password.spec_bytes(), h@) && (exists|
            salt: Seq<char>,
        |
            h@ == hashed(secret.spec_bytes(), password.spec_bytes(), salt)),
{
    let salt = generate_salt();
    argon2_hash(secret.as_bytes(), password.as_bytes(), salt.as_str())
}

/// Verify a plaintext against a stored hash under the pepper. Fails
/// closed: any parse error, algorithm mismatch or digest mismatch yields
/// false. A hash freshly produced by `hash_password` from the same secret
/// and password verifies, which that function's own contract states.
pub fn verify_password(secret: &str, password: &str, stored: &str) -> (r: bool)
    ensures
        r == verifies(secret.spec_bytes(), password.spec_bytes(), stored@),
{
    argon2_verify(secret.as_bytes(), password.as_bytes(), stored)
}

} // verus!
