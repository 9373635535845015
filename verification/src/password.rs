//! Password value object.
//!
//! A raw password is accepted when it is 8 to 24 characters long and
//! contains at least one ASCII lower-case letter, one upper-case letter,
//! one digit and one symbol from the fixed set `!@#$%`.  The raw password
//! is never persisted; only its salted, memory-hard hash is.

use argon2::password_hash::phc::PasswordHash;
use argon2::password_hash::PasswordHasher;
use argon2::password_hash::PasswordVerifier;
use argon2::Argon2;
use vstd::prelude::*;

use crate::error::AuthError;

verus! {

/// An ASCII lower-case letter.
pub open spec fn is_lower_char(c: char) -> bool {
    'a' <= c && c <= 'z'
}

/// An ASCII upper-case letter.
pub open spec fn is_upper_char(c: char) -> bool {
    'A' <= c && c <= 'Z'
}

/// An ASCII digit.
pub open spec fn is_digit_char(c: char) -> bool {
    '0' <= c && c <= '9'
}

/// A symbol from the fixed set accepted by the policy.
pub open spec fn is_symbol_char(c: char) -> bool {
    c == '!' || c == '@' || c == '#' || c == '$' || c == '%'
}

/// The complexity policy: length 8 to 24, and at least one character of
/// each required class.
pub open spec fn satisfies_policy(s: Seq<char>) -> bool {
    &&& 8 <= s.len() <= 24
    &&& exists|i: int| 0 <= i < s.len() && is_lower_char(#[trigger] s[i])
    &&& exists|i: int| 0 <= i < s.len() && is_upper_char(#[trigger] s[i])
    &&& exists|i: int| 0 <= i < s.len() && is_digit_char(#[trigger] s[i])
    &&& exists|i: int| 0 <= i < s.len() && is_symbol_char(#[trigger] s[i])
}

/// Whether the memory-hard hash verification routine accepts `hash` as a
/// hash of `password`.  This names the outcome of the hashing library's
/// deterministic verification; nothing in this crate states which hash
/// strings a given password produces.
pub uninterp spec fn password_verifies(password: Seq<char>, hash: Seq<char>) -> bool;

/// A raw password that satisfied the complexity policy at construction.
#[derive(Debug)]
pub struct Password {
    s: String,
}

impl View for Password {
    type V = Seq<char>;

    closed spec fn view(&self) -> Seq<char> {
        self.s@
    }
}

impl Password {
    /// The invariant every constructed value carries.
    pub open spec fn wf(&self) -> bool {
        satisfies_policy(self@)
    }

    /// Parses a raw password against the complexity policy; the raw form
    /// is kept unchanged.
    #[verifier::loop_isolation(false)]
    pub fn parse(password: String) -> (r: Result<Password, AuthError>)
        ensures
            r is Ok <==> satisfies_policy(password@),
            r matches Ok(p) ==> p@ == password@ && p.wf(),
            r matches Err(err) ==> err == AuthError::ValidationError,
    {
        let s: &str = password.as_str();
        let n: usize = s.unicode_len();
        if n < 8 || n > 24 {
            return Err(AuthError::ValidationError);
        }
        let mut has_lower: bool = false;
        let mut has_upper: bool = false;
        let mut has_digit: bool = false;
        let mut has_symbol: bool = false;
        let mut i: usize = 0;
        while i < n
            invariant
                s@ == password@,
                n == password@.len(),
                i <= n,
                has_lower <==> exists|j: int|
                    0 <= j < i && is_lower_char(#[trigger] password@[j]),
                has_upper <==> exists|j: int|
                    0 <= j < i && is_upper_char(#[trigger] password@[j]),
                has_digit <==> exists|j: int|
                    0 <= j < i && is_digit_char(#[trigger] password@[j]),
                has_symbol <==> exists|j: int|
                    0 <= j < i && is_symbol_char(#[trigger] password@[j]),
            decreases n - i,
        {
            let c = s.get_char(i);
            let u = c as u32;
            if 97 <= u && u <= 122 {
                has_lower = true;
            }
            if 65 <= u && u <= 90 {
                has_upper = true;
            }
            if 48 <= u && u <= 57 {
                has_digit = true;
            }
            if c == '!' || c == '@' || c == '#' || c == '$' || c == '%' {
                has_symbol = true;
            }
            i += 1;
        }
        if has_lower && has_upper && has_digit && has_symbol {
            Ok(Password { s: password })
        } else {
            Err(AuthError::ValidationError)
        }
    }

    /// Hashes the password with a freshly generated random salt.  A
    /// returned hash always verifies against this password; two calls
    /// need not return the same string.  Failure is a server-side fault.
    pub fn hash(&self) -> (r: Result<String, AuthError>)
        ensures
            r matches Ok(h) ==> password_verifies(self@, h@),
            r matches Err(err) ==> err == AuthError::ServerError,
    {
        match hash_password(self.s.as_str()) {
            Some(h) => Ok(h),
            None => Err(AuthError::ServerError),
        }
    }

    /// Verifies the password against a stored hash string through the
    /// hashing library's constant-time verification routine.  The
    /// plaintext is never returned.
    pub fn verify(&self, hash: &str) -> (r: Result<(), AuthError>)
        ensures
            r is Ok <==> password_verifies(self@, hash@),
            r matches Err(err) ==> err == AuthError::VerificationError,
    {
        if verify_password(self.s.as_str(), hash) {
            Ok(())
        } else {
            Err(AuthError::VerificationError)
        }
    }

    /// Read-only access to the raw password, for handing it to the
    /// hashing routines only.
    pub fn as_str(&self) -> (r: &str)
        ensures
            r@ == self@,
    {
        self.s.as_str()
    }
}

/// Relies on `Argon2::hash_password` (argon2 with default parameters): it
/// hashes the password with a freshly generated random 16-byte salt and
/// returns a PHC string that `verify_password` accepts for the same
/// password.
#[verifier::external_body]
fn hash_password(password: &str) -> (r: Option<String>)
    ensures
        r matches Some(h) ==> password_verifies(password@, h@),
{
    match Argon2::default().hash_password(password.as_bytes()) {
        Ok(h) => Some(h.to_string()),
        Err(_) => None,
    }
}

/// Relies on `Argon2::verify_password` (argon2): it recomputes the hash
/// of `password` under the salt and parameters carried by `hash` and
/// compares the outputs in constant time; the outcome is a deterministic
/// function of the two arguments.  A string that does not parse as a PHC
/// hash verifies against nothing.
#[verifier::external_body]
fn verify_password(password: &str, hash: &str) -> (r: bool)
    ensures
        r == password_verifies(password@, hash@),
{
    match PasswordHash::new(hash) {
        Ok(parsed) => Argon2::default().verify_password(password.as_bytes(), &parsed).is_ok(),
        Err(_) => false,
    }
}

} // verus!
