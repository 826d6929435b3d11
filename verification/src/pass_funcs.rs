//! Password hashing and verification through the `pbkdf2` crate's salted,
//! slow key-derivation functions.
//!
//! What the key derivation computes is not restated here; instead the two
//! facts the library relies on are given names. `pbkdf2_match(p, h)` names
//! "checking password `p` against stored value `h` reports a match", and
//! `pbkdf2_valid_format(h)` names "`h` parses as a stored hash". Both are
//! functions of their text arguments alone. Hashing draws a fresh random
//! salt, so no name is given to its output; what is stated of it is that
//! checking the hashed password against it reports a match.

use vstd::prelude::*;

verus! {

/// Checking `password` against the stored value `hashed` reports a match:
/// `pbkdf2::pbkdf2_check(password, hashed)` returns `Ok`. A function of the
/// two strings alone.
pub uninterp spec fn pbkdf2_match(password: Seq<char>, hashed: Seq<char>) -> bool;

/// The stored value `hashed` parses as a hash: `pbkdf2::pbkdf2_check` on it
/// does not report an invalid format. A function of the string alone.
pub uninterp spec fn pbkdf2_valid_format(hashed: Seq<char>) -> bool;

/// What checking a password against a stored hash reported.
#[derive(Copy, Clone, Eq, PartialEq, Structural, Debug)]
pub enum PasswordCheck {
    /// The stored value parses and the password matches it.
    Match,
    /// The stored value parses but the password does not match it.
    Mismatch,
    /// The stored value does not parse as a hash.
    BadFormat,
}

/// Relies on `pbkdf2::pbkdf2_check`: it returns `Ok` exactly on a match,
/// `CheckError::InvalidFormat` exactly when the stored value does not parse,
/// and `CheckError::HashMismatch` otherwise; it is deterministic in its two
/// arguments and never panics.
#[verifier::external_body]
pub(crate) fn pbkdf2_check_outcome(password: &str, hashed_value: &str) -> (r: PasswordCheck)
    ensures
        (r == PasswordCheck::Match) == pbkdf2_match(password@, hashed_value@),
        (r == PasswordCheck::BadFormat) == !pbkdf2_valid_format(hashed_value@),
{
    match pbkdf2::pbkdf2_check(password, hashed_value) {
        Ok(()) => PasswordCheck::Match,
        Err(pbkdf2::CheckError::HashMismatch) => PasswordCheck::Mismatch,
        Err(pbkdf2::CheckError::InvalidFormat) => PasswordCheck::BadFormat,
    }
}

/// Relies on `pbkdf2::pbkdf2_simple`: it derives a salted PBKDF2-HMAC-SHA256
/// hash of the password with the given iteration count and encodes it, with
/// its parameters, in a non-empty string that `pbkdf2::pbkdf2_check` parses
/// and reports as matching that same password. It fails only when no random
/// salt could be drawn, and never panics.
#[verifier::external_body]
pub(crate) fn pbkdf2_hash(password: &str, cycles: u32) -> (r: Option<String>)
    ensures
        match r {
            Some(h) => h@.len() > 0 && pbkdf2_valid_format(h@) && pbkdf2_match(password@, h@),
            None => true,
        },
{
    pbkdf2::pbkdf2_simple(password, cycles).ok()
}

/// Hash a password for storage with the key-derivation function's default
/// work factor here. On the (rare) failure to draw a salt the result is the
/// empty string; any non-empty result is a stored hash that the password
/// checks against.
pub fn hash_password(password: &str) -> (r: String)
    ensures
        r@.len() > 0 ==> pbkdf2_valid_format(r@) && pbkdf2_match(password@, r@),
{
    match pbkdf2_hash(password, 1000) {
        Some(h) => h,
        None => String::new(),
    }
}

/// Check a password against a stored hash; a stored value that does not
/// parse as a hash is reported as a non-match.
pub fn check_password(password: &str, hashed_password: &str) -> (r: bool)
    ensures
        r == pbkdf2_match(password@, hashed_password@),
{
    match pbkdf2_check_outcome(password, hashed_password) {
        PasswordCheck::Match => true,
        PasswordCheck::Mismatch => false,
        PasswordCheck::BadFormat => false,
    }
}

} // verus!
