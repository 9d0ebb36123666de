//! Passwords and their salted Argon2 hashes.

use vstd::prelude::*;
use argon2::password_hash::{PasswordHasher, Salt, SaltString};
use argon2::Argon2;

verus! {

/// A password as it was typed. It is kept apart from other text so that it
/// is not stored or logged by accident.
#[derive(Clone, PartialEq, Eq)]
pub struct Password {
    pub text: String,
}

/// The PHC text of the Argon2 hash of `password` under the B64 salt `salt`,
/// with the algorithm's default parameters; `None` where the salt is not a
/// valid one or the hash cannot be computed.
pub uninterp spec fn argon2_phc(password: Seq<char>, salt: Seq<char>) -> Option<Seq<char>>;

/// Hashes `password` under `salt` with `argon2::Argon2::default()`.
/// Trusted: `Argon2::hash_password` is a function of the password and the
/// salt alone, and so is `Salt::from_b64`, which builds the salt that it
/// takes. `Salt::from_b64` refuses a text of the wrong length or with a
/// character outside the B64 alphabet; a text that passes and still does
/// not decode is refused by `hash_password`. Either refusal is `None` here.
#[verifier::external_body]
fn argon2_hash(password: &str, salt: &str) -> (r: Option<String>)
    ensures
        r.is_some() == argon2_phc(password@, salt@).is_some(),
        r.is_some() ==> r.unwrap()@ == argon2_phc(password@, salt@).unwrap(),
{
    let salt = Salt::from_b64(salt).ok()?;
    let hash = Argon2::default().hash_password(password.as_bytes(), salt).ok()?;
    Some(hash.to_string())
}

/// A fresh random salt in B64.
/// Trusted: nothing is claimed of what `SaltString::generate` returns.
#[verifier::external_body]
fn random_salt() -> (salt: String)
{
    SaltString::generate(&mut rand::thread_rng()).as_str().to_owned()
}

/// A hash could not be computed.
#[derive(Debug, Copy, Clone, PartialEq, Eq, Structural)]
pub struct HashFailure;

/// What comparing a computed hash with a stored one yields: whether they
/// are the same text, or a failure where none was computed.
pub open spec fn spec_hash_matches(computed: Option<Seq<char>>, stored: Seq<char>) -> Result<
    bool,
    HashFailure,
> {
    match computed {
        Some(hash) => Ok(hash == stored),
        None => Err(HashFailure),
    }
}

/// Compares a hash as computed with the stored one.
pub fn hash_matches(computed: Option<String>, stored: &String) -> (r: Result<bool, HashFailure>)
    ensures
        r == spec_hash_matches(
            match computed {
                Some(hash) => Some(hash@),
                None => None,
            },
            stored@,
        ),
{
    match computed {
        Some(hash) => Ok(hash == *stored),
        None => Err(HashFailure),
    }
}

impl Password {
    /// The password with the text `s`.
    pub fn from_str(s: &str) -> (p: Password)
        ensures
            p.text@ == s@,
    {
        Password { text: s.to_owned() }
    }

    /// The hash of this password under `salt`.
    pub fn hash(&self, salt: &str) -> (r: Result<String, HashFailure>)
        ensures
            r.is_ok() == argon2_phc(self.text@, salt@).is_some(),
            r.is_ok() ==> r.unwrap()@ == argon2_phc(self.text@, salt@).unwrap(),
    {
        match argon2_hash(self.text.as_str(), salt) {
            Some(hash) => Ok(hash),
            None => Err(HashFailure),
        }
    }

    /// The hash of this password under `salt`, together with that salt:
    /// what is stored for a password once its salt is chosen. It fails
    /// exactly where the password cannot be hashed under `salt`.
    pub fn hash_with(&self, salt: String) -> (r: Result<(String, String), HashFailure>)
        ensures
            r.is_ok() == argon2_phc(self.text@, salt@).is_some(),
            r.is_ok() ==> r.unwrap().1 == salt && r.unwrap().0@ == argon2_phc(
                self.text@,
                salt@,
            ).unwrap(),
    {
        match self.hash(salt.as_str()) {
            Ok(hash) => Ok((hash, salt)),
            Err(e) => Err(e),
        }
    }

    /// A new random salt and the hash of this password under it: what is
    /// stored when a password is set for the first time. Whatever salt was
    /// drawn, the outcome is that of hashing under it: the hash and the
    /// salt, or a failure where the password cannot be hashed under the
    /// salt that was drawn.
    pub fn salty_hash(&self) -> (r: Result<(String, String), HashFailure>)
        ensures
            r.is_ok() ==> argon2_phc(self.text@, r.unwrap().1@) == Some(r.unwrap().0@),
            r.is_err() ==> exists|salt: Seq<char>| argon2_phc(self.text@, salt).is_none(),
    {
        let salt = random_salt();
        let ghost drawn = salt@;
        let r = self.hash_with(salt);
        proof {
            if r.is_err() {
                assert(argon2_phc(self.text@, drawn).is_none());
            }
        }
        r
    }

    /// Whether this password has the hash `test_hash` under `salt`.
    pub fn check_hash(&self, test_hash: &String, salt: &str) -> (r: Result<bool, HashFailure>)
        ensures
            r == spec_hash_matches(argon2_phc(self.text@, salt@), test_hash@),
    {
        hash_matches(argon2_hash(self.text.as_str(), salt), test_hash)
    }
}

} // verus!
