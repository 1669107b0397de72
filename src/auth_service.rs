use vstd::prelude::*;

use argon2::password_hash::rand_core::OsRng;
use argon2::password_hash::{PasswordHash, PasswordHasher, PasswordVerifier, SaltString};
use argon2::Argon2;

use crate::errors::AuthServiceError;

verus! {

/// The PHC string that Argon2 with its default parameters gives for a
/// password and a B64-encoded salt; `None` when the salt is not valid B64 of
/// an accepted length or hashing fails.
pub uninterp spec fn argon2_phc(password: Seq<char>, salt: Seq<char>) -> Option<Seq<char>>;

/// Whether Argon2 accepts a password against a PHC string: `Some(true)` on a
/// match, `Some(false)` on a mismatch, `None` when the string cannot be parsed
/// or checked.
pub uninterp spec fn argon2_verdict(password: Seq<char>, hash: Seq<char>) -> Option<bool>;

/// A result with its string as characters.
pub open spec fn result_chars(r: Result<String, AuthServiceError>) -> Result<Seq<char>, AuthServiceError> {
    match r {
        Ok(h) => Ok(h@),
        Err(e) => Err(e),
    }
}

/// Relies on `SaltString::generate` with the operating system's generator: a
/// fresh random salt in B64. Nothing is promised of its value.
#[verifier::external_body]
fn random_salt() -> (r: String) {
    SaltString::generate(&mut OsRng).as_str().to_owned()
}

/// Relies on `SaltString::from_b64` and `PasswordHasher::hash_password` of
/// `Argon2::default()`: the PHC string of the password under the salt.
#[verifier::external_body]
fn argon2_hash(password: &str, salt: &str) -> (r: Option<String>)
    ensures
        crate::models::opt_chars(r) == argon2_phc(password@, salt@),
{
    let salt = SaltString::from_b64(salt).ok()?;
    match Argon2::default().hash_password(password.as_bytes(), &salt) {
        Ok(hash) => Some(hash.to_string()),
        Err(_) => None,
    }
}

/// Relies on `PasswordHash::new` and `PasswordVerifier::verify_password` of
/// `Argon2::default()`: whether the password matches the PHC string.
#[verifier::external_body]
fn argon2_check(password: &str, hash: &str) -> (r: Option<bool>)
    ensures
        r == argon2_verdict(password@, hash@),
{
    let parsed = PasswordHash::new(hash).ok()?;
    match Argon2::default().verify_password(password.as_bytes(), &parsed) {
        Ok(()) => Some(true),
        Err(argon2::password_hash::Error::Password) => Some(false),
        Err(_) => None,
    }
}

/// What a hashing attempt gives: the PHC string, or `HashingError`.
pub open spec fn hash_result(phc: Option<Seq<char>>) -> Result<Seq<char>, AuthServiceError> {
    match phc {
        Some(h) => Ok(h),
        None => Err(AuthServiceError::HashingError),
    }
}

/// What a verification verdict gives: the verdict, or `VerificationError`.
pub open spec fn verification_result(verdict: Option<bool>) -> Result<bool, AuthServiceError> {
    match verdict {
        Some(b) => Ok(b),
        None => Err(AuthServiceError::VerificationError),
    }
}

/// Password hashing and checking with Argon2.
pub struct AuthService;

impl AuthService {
    pub fn new() -> (r: AuthService) {
        AuthService
    }

    /// Hashes `password` under a fresh random salt into a PHC string.
    pub fn hash_password(&self, password: &str) -> (r: Result<String, AuthServiceError>)
        ensures
            exists|salt: Seq<char>| result_chars(r) == hash_result(argon2_phc(password@, salt)),
    {
        let salt = random_salt();
        self.hash_password_with_salt(password, &salt)
    }

    /// Hashes `password` under the B64-encoded `salt` into a PHC string.
    pub fn hash_password_with_salt(&self, password: &str, salt: &str) -> (r: Result<
        String,
        AuthServiceError,
    >)
        ensures
            result_chars(r) == hash_result(argon2_phc(password@, salt@)),
    {
        match argon2_hash(password, salt) {
            Some(h) => Ok(h),
            None => Err(AuthServiceError::HashingError),
        }
    }

    /// Checks `password` against the PHC string `hash`: `Ok(false)` on a
    /// mismatch, `VerificationError` when the string cannot be used.
    pub fn verify_password(&self, password: &str, hash: &str) -> (r: Result<bool, AuthServiceError>)
        ensures
            r == verification_result(argon2_verdict(password@, hash@)),
    {
        Self::verdict_to_result(argon2_check(password, hash))
    }

    /// Turns a verdict into the result that callers see.
    pub fn verdict_to_result(verdict: Option<bool>) -> (r: Result<bool, AuthServiceError>)
        ensures
            r == verification_result(verdict),
    {
        match verdict {
            Some(b) => Ok(b),
            None => Err(AuthServiceError::VerificationError),
        }
    }
}

} // verus!
