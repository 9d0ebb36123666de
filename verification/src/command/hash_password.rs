//! The `hash-password` command, which shows the hash of a password.

use vstd::prelude::*;
use vstd::string::StringExecFns;
use crate::auth::password::{argon2_phc, HashFailure, Password};

verus! {

/// Compute and display an appropriate hash of a given password, with an
/// optionally specified salt.
pub struct HashPassword {
    pub password: Password,
    /// salt for the password hash
    pub salt: Option<String>,
}

/// The line that shows the hash `hash`.
pub open spec fn spec_hash_line(hash: Seq<char>) -> Seq<char> {
    "Hash: "@ + hash
}

/// The line that shows the salt `salt`.
pub open spec fn spec_salt_line(salt: Seq<char>) -> Seq<char> {
    "Salt: "@ + salt
}

/// `label` followed by `value`.
fn labelled(label: &str, value: &str) -> (line: String)
    ensures
        line@ == label@ + value@,
{
    let mut line = label.to_owned();
    line.append(value);
    line
}

/// The lines that the command prints: the hash of the password under the
/// salt that was given, or, where none was given, the hash under a fresh
/// random salt and that salt. It fails only where the password cannot be
/// hashed under the salt that was given or drawn.
pub fn hash_password(args: HashPassword) -> (r: Result<Vec<String>, HashFailure>)
    ensures
        match args.salt {
            Some(salt) => match r {
                Ok(lines) => {
                    &&& argon2_phc(args.password.text@, salt@).is_some()
                    &&& lines@.len() == 1
                    &&& lines@[0]@ == spec_hash_line(
                        argon2_phc(args.password.text@, salt@).unwrap(),
                    )
                },
                Err(_) => argon2_phc(args.password.text@, salt@).is_none(),
            },
            None => match r {
                Ok(lines) => {
                    &&& lines@.len() == 2
                    &&& exists|salt: Seq<char>|
                        argon2_phc(args.password.text@, salt).is_some() && lines@[0]@
                            == spec_hash_line(argon2_phc(args.password.text@, salt).unwrap())
                            && lines@[1]@ == spec_salt_line(salt)
                },
                Err(_) => exists|salt: Seq<char>| argon2_phc(args.password.text@, salt).is_none(),
            },
        },
{
    let mut lines: Vec<String> = Vec::new();
    match &args.salt {
        Some(salt) => {
            let hash = match args.password.hash(salt.as_str()) {
                Ok(hash) => hash,
                Err(e) => {
                    return Err(e);
                },
            };
            lines.push(labelled("Hash: ", hash.as_str()));
        },
        None => {
            let (hash, salt) = match args.password.salty_hash() {
                Ok(pair) => pair,
                Err(e) => {
                    return Err(e);
                },
            };
            lines.push(labelled("Hash: ", hash.as_str()));
            lines.push(labelled("Salt: ", salt.as_str()));
            assert(argon2_phc(args.password.text@, salt@).is_some() && lines@[0]@
                == spec_hash_line(argon2_phc(args.password.text@, salt@).unwrap()) && lines@[1]@
                == spec_salt_line(salt@));
        },
    }
    Ok(lines)
}

} // verus!
