//! The `add-admin` command, which creates an account that may do anything.

use vstd::prelude::*;
use crate::auth::account::{create_account, Email, Name};
use crate::auth::password::{argon2_phc, Password};
use crate::db::store::Store;
use crate::error::Error;
use crate::ids::UserId;
use crate::permission::PermissionType;

verus! {

/// Add a new admin user to the database.
#[derive(Debug, Copy, Clone, PartialEq, Eq, Structural)]
pub struct AddAdmin {}

/// Creates an account with the given name, address and password, and
/// makes it an approved super user. Returns the new adventurer's id.
pub fn add_admin(store: &mut Store, name: Name, email: Email, password: Password) -> (r: Result<
    UserId,
    Error,
>)
    requires
        old(store)@.wf(),
    ensures
        final(store)@.wf(),
        match r {
            Ok(user) => {
                &&& !old(store)@.email_exists(email.0@)
                &&& user == old(store)@.next_adventurer_id()
                &&& exists|hash: String, salt: String|
                    argon2_phc(password.text@, salt@) == Some(hash@) && final(store)@ == old(store)@.insert_adventurer(name.0, email.0, hash, salt).set_user_permission(
                        user,
                        PermissionType::Approved,
                        true,
                    ).set_user_permission(user, PermissionType::SuperUser, true)
                &&& final(store)@.has_permission(user, PermissionType::Approved)
                &&& final(store)@.has_permission(user, PermissionType::SuperUser)
            },
            Err(e) => {
                &&& final(store)@ == old(store)@
                &&& old(store)@.creation_refused(email.0@, password.text@, e)
            },
        },
{
    let user = match create_account(store, name, email, password) {
        Ok(user) => user,
        Err(e) => {
            return Err(e);
        },
    };
    let ghost created = store@;
    store.set_user_permission(user, PermissionType::Approved, true);
    store.set_user_permission(user, PermissionType::SuperUser, true);
    proof {
        created.set_user_permission(
            user,
            PermissionType::Approved,
            true,
        ).lemma_set_user_permission(user, PermissionType::SuperUser, true);
    }
    Ok(user)
}

} // verus!
