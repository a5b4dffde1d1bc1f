//! Password hashes in the PHC string format, made and checked by Argon2.
use argon2::password_hash::rand_core::OsRng;
use argon2::password_hash::SaltString;
use argon2::{Argon2, PasswordHash, PasswordHasher, PasswordVerifier};
use vstd::prelude::*;
use vstd::utf8::*;

verus! {

#[verifier::external_type_specification]
#[verifier::external_body]
pub struct ExSaltString(SaltString);

#[verifier::external_type_specification]
#[verifier::external_body]
pub struct ExPasswordHash<'a>(PasswordHash<'a>);

#[verifier::external_type_specification]
#[verifier::external_body]
pub struct ExPasswordHashError(argon2::password_hash::Error);

/// Whether `PasswordHash::new` accepts `text` as a PHC string.
pub uninterp spec fn phc_well_formed(text: Seq<char>) -> bool;

/// Whether `Argon2::default().verify_password` accepts `password` against the
/// PHC string `phc`.
pub uninterp spec fn argon2_verifies(password: Seq<char>, phc: Seq<char>) -> bool;

/// `phc` is a hash of `password` that checking will accept.
pub open spec fn hashes_password(password: Seq<char>, phc: Seq<char>) -> bool {
    phc_well_formed(phc) && argon2_verifies(password, phc)
}

/// A stored hash, parsed, beside the text that it was parsed from. Only
/// `parse_phc` builds one, so `parsed` is always `PasswordHash::new(text)`.
struct StoredHash<'a> {
    text: &'a str,
    parsed: PasswordHash<'a>,
}

/// A salt that `SaltString::generate` made: the B64 text of 16 random bytes.
struct GeneratedSalt {
    salt: SaltString,
}

/// `SaltString::generate` with the operating system's generator: a fresh random
/// salt. Nothing is stated of its bytes, since they are random; the generator
/// panics where the operating system cannot provide random bytes.
#[verifier::external_body]
fn fresh_salt() -> GeneratedSalt {
    GeneratedSalt { salt: SaltString::generate(&mut OsRng) }
}

/// The longest password, in bytes, that Argon2 hashes (`argon2::MAX_PWD_LEN`).
pub open spec fn max_password_bytes() -> nat {
    0xFFFF_FFFF
}

/// `Argon2::default().hash_password`, written out as a PHC string. With a salt
/// that `SaltString::generate` made (16 bytes, within Argon2's salt limits) and
/// the default parameters, the only input it refuses is a password of more than
/// `MAX_PWD_LEN` bytes (`Argon2::verify_inputs`). Where it succeeds, the string
/// parses and `verify_password` accepts `password` against it, the round trip
/// that the crate's traits are made for. How the string depends on the salt is
/// not stated: the salt is random.
#[verifier::external_body]
fn argon2_hash(password: &str, salt: &GeneratedSalt) -> (r: Result<
    String,
    argon2::password_hash::Error,
>)
    ensures
        r is Ok <==> encode_utf8(password@).len() <= max_password_bytes(),
        r matches Ok(phc) ==> hashes_password(password@, phc@),
{
    match Argon2::default().hash_password(password.as_bytes(), &salt.salt) {
        Ok(hash) => Ok(hash.to_string()),
        Err(e) => Err(e),
    }
}

/// `PasswordHash::new`: it succeeds exactly on well-formed PHC strings.
#[verifier::external_body]
fn parse_phc<'a>(text: &'a str) -> (r: Result<StoredHash<'a>, argon2::password_hash::Error>)
    ensures
        r is Ok <==> phc_well_formed(text@),
        r matches Ok(h) ==> h.text@ == text@,
{
    match PasswordHash::new(text) {
        Ok(parsed) => Ok(StoredHash { text, parsed }),
        Err(e) => Err(e),
    }
}

/// `Argon2::default().verify_password`: whether `password` matches the hash.
#[verifier::external_body]
fn argon2_verify(password: &str, hash: &StoredHash) -> (r: bool)
    ensures
        r == argon2_verifies(password@, hash.text@),
{
    Argon2::default().verify_password(password.as_bytes(), &hash.parsed).is_ok()
}

/// Hashing a password failed.
#[derive(Clone, Copy, Debug, PartialEq, Eq, Structural)]
pub enum HashFailure {
    /// Argon2 refused the password: it is longer than `max_password_bytes()`
    /// bytes in UTF-8.
    Refused,
}

/// A fresh Argon2 hash of `password`, with a random salt, as a PHC string. It
/// succeeds on every password of at most `max_password_bytes()` bytes in UTF-8
/// and refuses the longer ones.
pub fn hash_password(password: &str) -> (r: Result<String, HashFailure>)
    ensures
        r is Ok <==> encode_utf8(password@).len() <= max_password_bytes(),
        r matches Ok(phc) ==> hashes_password(password@, phc@),
        r matches Err(e) ==> e == HashFailure::Refused,
{
    let salt = fresh_salt();
    match argon2_hash(password, &salt) {
        Ok(phc) => Ok(phc),
        Err(_) => Err(HashFailure::Refused),
    }
}

/// What checking a password against a stored hash finds.
#[derive(Clone, Copy, Debug, PartialEq, Eq, Structural)]
pub enum PasswordCheck {
    /// The password matches.
    Accepted,
    /// The password does not match.
    Refused,
    /// The stored text is not a PHC string.
    Unreadable,
}

/// What checking `password` against the stored text `phc` finds.
pub open spec fn password_check(password: Seq<char>, phc: Seq<char>) -> PasswordCheck {
    if !phc_well_formed(phc) {
        PasswordCheck::Unreadable
    } else if argon2_verifies(password, phc) {
        PasswordCheck::Accepted
    } else {
        PasswordCheck::Refused
    }
}

/// Checks `password` against the stored hash `stored`.
pub fn check_password(password: &str, stored: &str) -> (r: PasswordCheck)
    ensures
        r == password_check(password@, stored@),
{
    match parse_phc(stored) {
        Ok(hash) => {
            if argon2_verify(password, &hash) {
                PasswordCheck::Accepted
            } else {
                PasswordCheck::Refused
            }
        },
        Err(_) => PasswordCheck::Unreadable,
    }
}

/// A hash made of a password accepts that password.
pub proof fn lemma_hash_accepts_its_password(password: Seq<char>, phc: Seq<char>)
    requires
        hashes_password(password, phc),
    ensures
        password_check(password, phc) == PasswordCheck::Accepted,
{
}

} // verus!
