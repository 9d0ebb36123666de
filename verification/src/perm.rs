//! The requests that set one permission flag of an adventurer.

use vstd::prelude::*;
use crate::db::store::Store;
use crate::ids::UserId;
use crate::permission::PermissionType;

verus! {

/// What is asked for when a flag is set: whether it is to be held.
#[derive(Debug, Copy, Clone, PartialEq, Eq, Structural)]
pub struct SetPerm {
    pub set: bool,
}

/// Sets or clears the flag `perm` of `user`.
pub fn set_perm_endpoint(store: &mut Store, user: UserId, perm: PermissionType, truth: bool)
    requires
        old(store)@.wf(),
    ensures
        final(store)@ == old(store)@.set_user_permission(user, perm, truth),
        final(store)@.wf(),
        final(store)@.has_permission(user, perm) == truth,
{
    store.set_user_permission(user, perm, truth);
}

/// Marks whether `user_id` is approved. Approving ends a rejection.
pub fn set_user_accepted(store: &mut Store, user_id: UserId, accepted: SetPerm)
    requires
        old(store)@.wf(),
    ensures
        final(store)@ == old(store)@.set_user_permission(
            user_id,
            PermissionType::Approved,
            accepted.set,
        ),
        final(store)@.wf(),
{
    set_perm_endpoint(store, user_id, PermissionType::Approved, accepted.set)
}

/// Marks whether `user_id` is rejected. Rejecting ends an approval.
pub fn set_user_rejected(store: &mut Store, user_id: UserId, rejected: SetPerm)
    requires
        old(store)@.wf(),
    ensures
        final(store)@ == old(store)@.set_user_permission(
            user_id,
            PermissionType::Rejected,
            rejected.set,
        ),
        final(store)@.wf(),
{
    set_perm_endpoint(store, user_id, PermissionType::Rejected, rejected.set)
}

/// Marks whether `user_id` is a super user.
pub fn set_user_superuser(store: &mut Store, user_id: UserId, superuser: SetPerm)
    requires
        old(store)@.wf(),
    ensures
        final(store)@ == old(store)@.set_user_permission(
            user_id,
            PermissionType::SuperUser,
            superuser.set,
        ),
        final(store)@.wf(),
{
    set_perm_endpoint(store, user_id, PermissionType::SuperUser, superuser.set)
}

/// Marks whether `user_id` may lead a guild.
pub fn set_user_eligible_guild_leader(store: &mut Store, user_id: UserId, eligible: SetPerm)
    requires
        old(store)@.wf(),
    ensures
        final(store)@ == old(store)@.set_user_permission(
            user_id,
            PermissionType::GuildLeaderEligible,
            eligible.set,
        ),
        final(store)@.wf(),
{
    set_perm_endpoint(store, user_id, PermissionType::GuildLeaderEligible, eligible.set)
}

} // verus!
