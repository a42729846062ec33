//! Credential hashing: one-way, salted, self-describing records. A record
//! embeds algorithm, parameters, salt and digest, so parameters can be
//! upgraded later without a schema migration; verification recomputes the
//! digest from the embedded parameters and compares in constant time.

use vstd::prelude::*;

use crate::errors::AppError;

verus! {

/// Whether a string is a parseable self-describing hash record. The
/// outcome depends on the record alone.
pub uninterp spec fn record_parses(record: Seq<char>) -> bool;

/// Whether recomputing the digest of `password` with the parameters and
/// salt embedded in `record` reproduces the digest in `record`. The
/// outcome depends on the two arguments alone.
pub uninterp spec fn record_matches(password: Seq<char>, record: Seq<char>) -> bool;

/// Relies on argon2's Argon2::default, SaltString::generate and
/// PasswordHash::generate: a record produced here serializes in the
/// standard self-describing form, which PasswordHash::new parses back to
/// the same algorithm, parameters, salt and digest; verify_password then
/// recomputes that digest from the same password and finds it equal.
#[verifier::external_body]
fn argon2_hash(password: &str) -> (r: Result<String, String>)
    ensures
        r matches Ok(rec) ==> record_parses(rec@) && record_matches(password@, rec@),
{
    let salt = argon2::password_hash::SaltString::generate(&mut rand::thread_rng());
    let argon = argon2::Argon2::default();
    match argon2::PasswordHash::generate(argon, password, &salt) {
        Ok(h) => Ok(h.to_string()),
        Err(e) => Err(e.to_string()),
    }
}

/// Relies on argon2's PasswordHash::new and Argon2::verify_password:
/// parsing succeeds exactly on parseable records, and verification
/// recomputes the digest from the password and the record's embedded
/// parameters and salt, comparing in constant time.
#[verifier::external_body]
fn argon2_verify(password: &str, record: &str) -> (r: Result<bool, String>)
    ensures
        r is Ok <==> record_parses(record@),
        r matches Ok(m) ==> m == record_matches(password@, record@),
{
    match argon2::PasswordHash::new(record) {
        Ok(h) => Ok(
            argon2::PasswordVerifier::verify_password(
                &argon2::Argon2::default(),
                password.as_bytes(),
                &h,
            ).is_ok(),
        ),
        Err(e) => Err(e.to_string()),
    }
}

/// Hashes a password under a fresh random salt into a self-describing
/// record. The record always verifies against the password it was made
/// from; only resource exhaustion inside the hasher is surfaced, as an
/// `Internal` failure.
pub fn hash_password(password: &str) -> (r: Result<String, AppError>)
    ensures
        r matches Ok(rec) ==> record_parses(rec@) && record_matches(password@, rec@),
        r matches Err(e) ==> e matches AppError::Internal(..),
{
    match argon2_hash(password) {
        Ok(rec) => Ok(rec),
        Err(msg) => {
            let mut m = String::from_str("Failed to hash password: ");
            m.append(msg.as_str());
            Err(AppError::Internal(m))
        },
    }
}

/// Verifies a password against a stored record. A mismatch is `Ok(false)`,
/// not an error; only an unparseable record, which means data corruption,
/// is an `Internal` failure.
pub fn verify_password(password: &str, hash: &str) -> (r: Result<bool, AppError>)
    ensures
        record_parses(hash@) ==> (r matches Ok(m) && m == record_matches(password@, hash@)),
        !record_parses(hash@) ==> (r matches Err(e) && e matches AppError::Internal(..)),
{
    match argon2_verify(password, hash) {
        Ok(m) => Ok(m),
        Err(msg) => {
            let mut m = String::from_str("Invalid password hash: ");
            m.append(msg.as_str());
            Err(AppError::Internal(m))
        },
    }
}

} // verus!
