//! Creating an account.

use vstd::prelude::*;
use crate::auth::password::{argon2_phc, HashFailure, Password};
use crate::db::store::{Store, StoreView};
use crate::error::{DbFault, Error};
use crate::ids::UserId;

verus! {

/// An email address. Nothing is checked of its form.
#[derive(Debug, Clone, PartialEq, Eq)]
pub struct Email(pub String);

/// An adventurer's display name.
#[derive(Debug, Clone, PartialEq, Eq)]
pub struct Name(pub String);

impl Email {
    /// The address with the text `s`.
    pub fn from_str(s: &str) -> (e: Email)
        ensures
            e.0@ == s@,
    {
        Email(s.to_owned())
    }
}

impl Name {
    /// The name with the text `s`.
    pub fn from_str(s: &str) -> (n: Name)
        ensures
            n.0@ == s@,
    {
        Name(s.to_owned())
    }
}

impl StoreView {
    /// Why no account can be made for `email` with the hashing outcome
    /// `hashed`, if anything.
    pub open spec fn account_refusal(self, email: Seq<char>, hashed: bool) -> Option<Error> {
        if self.email_exists(email) {
            Some(Error::AccountAlreadyExists)
        } else if !hashed {
            Some(Error::CannotComputePasswordHash)
        } else if self.sequences.adventurer == u32::MAX {
            Some(Error::DbError(DbFault::IdsExhausted))
        } else {
            None
        }
    }
}

impl StoreView {
    /// Whether `e` is the reason why no account is made for `email` with
    /// the password `password`: the address is taken; or, with the address
    /// free, the password could not be hashed under the salt that was
    /// drawn; or it could, and the table has no id left.
    pub open spec fn creation_refused(self, email: Seq<char>, password: Seq<char>, e: Error) -> bool {
        if self.email_exists(email) {
            e == Error::AccountAlreadyExists
        } else if e == Error::CannotComputePasswordHash {
            exists|salt: Seq<char>| argon2_phc(password, salt).is_none()
        } else {
            &&& e == Error::DbError(DbFault::IdsExhausted)
            &&& self.sequences.adventurer == u32::MAX
            &&& exists|salt: Seq<char>| argon2_phc(password, salt).is_some()
        }
    }
}

/// Adds an adventurer with the given name and address, whose password hash
/// and salt are `credentials`, and returns the new id. An address can have
/// one account only.
pub fn create_account_with(
    store: &mut Store,
    name: Name,
    email: Email,
    credentials: Result<(String, String), HashFailure>,
) -> (r: Result<UserId, Error>)
    requires
        old(store)@.wf(),
    ensures
        final(store)@.wf(),
        match r {
            Ok(id) => {
                &&& old(store)@.account_refusal(email.0@, credentials.is_ok()).is_none()
                &&& id == old(store)@.next_adventurer_id()
                &&& final(store)@ == old(store)@.insert_adventurer(
                    name.0,
                    email.0,
                    credentials.unwrap().0,
                    credentials.unwrap().1,
                )
            },
            Err(e) => {
                &&& old(store)@.account_refusal(email.0@, credentials.is_ok()) == Some(e)
                &&& final(store)@ == old(store)@
            },
        },
{
    if store.find_email(&email.0).is_some() {
        return Err(Error::AccountAlreadyExists);
    }
    match credentials {
        Err(_) => Err(Error::CannotComputePasswordHash),
        Ok((hash, salt)) => {
            if store.sequences.adventurer == u32::MAX {
                return Err(Error::DbError(DbFault::IdsExhausted));
            }
            Ok(store.insert_adventurer(name.0, email.0, hash, salt))
        },
    }
}

/// Adds an adventurer with the given name, address and password, and
/// returns the new id. The password is stored as its hash under a fresh
/// random salt.
pub fn create_account(store: &mut Store, name: Name, email: Email, password: Password) -> (r:
    Result<UserId, Error>)
    requires
        old(store)@.wf(),
    ensures
        final(store)@.wf(),
        match r {
            Ok(id) => {
                &&& !old(store)@.email_exists(email.0@)
                &&& id == old(store)@.next_adventurer_id()
                &&& exists|hash: String, salt: String|
                    argon2_phc(password.text@, salt@) == Some(hash@) && final(store)@ == old(store)@.insert_adventurer(name.0, email.0, hash, salt)
            },
            Err(e) => {
                &&& final(store)@ == old(store)@
                &&& old(store)@.creation_refused(email.0@, password.text@, e)
            },
        },
{
    if store.find_email(&email.0).is_some() {
        return Err(Error::AccountAlreadyExists);
    }
    let credentials = password.salty_hash();
    proof {
        if credentials.is_ok() {
            assert(argon2_phc(password.text@, credentials.unwrap().1@).is_some());
        }
    }
    create_account_with(store, name, email, credentials)
}

/// Registers a new adventurer.
pub fn auth_create_account(store: &mut Store, name: Name, email: Email, password: Password) -> (r:
    Result<(), Error>)
    requires
        old(store)@.wf(),
    ensures
        final(store)@.wf(),
        match r {
            Ok(_) => {
                &&& !old(store)@.email_exists(email.0@)
                &&& exists|hash: String, salt: String|
                    argon2_phc(password.text@, salt@) == Some(hash@) && final(store)@ == old(store)@.insert_adventurer(name.0, email.0, hash, salt)
            },
            Err(e) => {
                &&& final(store)@ == old(store)@
                &&& old(store)@.creation_refused(email.0@, password.text@, e)
            },
        },
{
    match create_account(store, name, email, password) {
        Ok(_) => Ok(()),
        Err(e) => Err(e),
    }
}

} // verus!
