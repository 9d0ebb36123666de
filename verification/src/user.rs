//! Adventurers as they are listed, with their roles and permissions.

use vstd::prelude::*;
use crate::db::rows::{AdventurerRoleRow, AdventurerRow, AssignedRole, PermissionRow};
use crate::db::store::{Store, StoreView};
use crate::error::{DbFault, Error};
use crate::ids::{GuildId, UserId};
use crate::permission::PermissionType;
use crate::seqs::{lemma_filter_take_none, lemma_filter_take_step};

verus! {

/// A role that an adventurer has in a guild.
#[derive(Debug, Copy, Clone, PartialEq, Eq, Structural)]
pub struct Role {
    pub guild_id: GuildId,
    pub name: AssignedRole,
}

/// A flag that an adventurer holds.
#[derive(Debug, Copy, Clone, PartialEq, Eq, Structural)]
pub struct Permission {
    pub permission_type: PermissionType,
}

/// An adventurer with their roles and permissions.
#[derive(Debug, Clone, PartialEq, Eq)]
pub struct UserSummary {
    pub id: UserId,
    pub name: String,
    pub roles: Vec<Role>,
    pub permissions: Vec<Permission>,
}

/// The mathematical content of a [`UserSummary`].
pub struct UserSummaryView {
    pub id: UserId,
    pub name: String,
    pub roles: Seq<Role>,
    pub permissions: Seq<Permission>,
}

impl View for UserSummary {
    type V = UserSummaryView;

    open spec fn view(&self) -> UserSummaryView {
        UserSummaryView {
            id: self.id,
            name: self.name,
            roles: self.roles@,
            permissions: self.permissions@,
        }
    }
}

/// An adventurer who may lead a guild.
#[derive(Debug, Clone, PartialEq, Eq)]
pub struct AllowedGuildLeader {
    pub id: UserId,
    pub name: String,
}

/// The contents of `list`.
pub open spec fn summary_views(list: Seq<UserSummary>) -> Seq<UserSummaryView> {
    list.map_values(|u: UserSummary| u@)
}

/// The test that the roles of `user` pass.
pub open spec fn role_of(user: UserId) -> spec_fn(AdventurerRoleRow) -> bool {
    |r: AdventurerRoleRow| r.adventurer_id == user
}

/// The test that the permissions of `user` pass.
pub open spec fn permission_of(user: UserId) -> spec_fn(PermissionRow) -> bool {
    |p: PermissionRow| p.adventurer_id == user
}

/// How a role is listed.
pub open spec fn shown_role() -> spec_fn(AdventurerRoleRow) -> Role {
    |r: AdventurerRoleRow| Role { guild_id: r.guild_id, name: r.assigned_role }
}

/// How a permission is listed.
pub open spec fn shown_permission() -> spec_fn(PermissionRow) -> Permission {
    |p: PermissionRow| Permission { permission_type: p.permission_type }
}

/// How an adventurer who may lead a guild is listed.
pub open spec fn shown_leader() -> spec_fn(AdventurerRow) -> AllowedGuildLeader {
    |a: AdventurerRow| AllowedGuildLeader { id: a.id, name: a.name }
}

/// Whether a flag lets its holder lead a guild.
pub open spec fn allows_leading(perm: PermissionType) -> bool {
    perm == PermissionType::GuildLeaderEligible || perm == PermissionType::SuperUser
}

impl AssignedRole {
    /// The role that is stored under `name`, if there is one.
    pub fn from_name(name: &str) -> (r: Option<AssignedRole>)
        ensures
            r == if name@ == "leader"@ {
                Some(AssignedRole::Leader)
            } else {
                None
            },
    {
        if name.to_owned() == "leader".to_owned() {
            Some(AssignedRole::Leader)
        } else {
            None
        }
    }

    /// The name under which the role is stored.
    pub fn as_str(&self) -> (s: &'static str)
        ensures
            s@ == "leader"@,
    {
        "leader"
    }
}

impl StoreView {
    /// The roles of `user`, in table order.
    pub open spec fn roles_of(self, user: UserId) -> Seq<Role> {
        self.adventurer_roles.filter(role_of(user)).map_values(shown_role())
    }

    /// The permissions of `user`, in table order.
    pub open spec fn permissions_of(self, user: UserId) -> Seq<Permission> {
        self.permissions.filter(permission_of(user)).map_values(shown_permission())
    }

    /// How the adventurer `a` is listed.
    pub open spec fn user_summary(self, a: AdventurerRow) -> UserSummaryView {
        UserSummaryView {
            id: a.id,
            name: a.name,
            roles: self.roles_of(a.id),
            permissions: self.permissions_of(a.id),
        }
    }

    /// Every adventurer as listed, in table order.
    pub open spec fn user_summaries(self) -> Seq<UserSummaryView> {
        self.adventurers.map_values(|a: AdventurerRow| self.user_summary(a))
    }

    /// `user` may lead a guild: they are eligible, or a super user.
    pub open spec fn may_lead(self, user: UserId) -> bool {
        self.has_permission(user, PermissionType::GuildLeaderEligible) || self.has_permission(
            user,
            PermissionType::SuperUser,
        )
    }

    /// The test that the adventurers who may lead a guild pass.
    pub open spec fn leading_allowed(self) -> spec_fn(AdventurerRow) -> bool {
        |a: AdventurerRow| self.may_lead(a.id)
    }

    /// Some flag that allows leading a guild is recorded for somebody who
    /// is not an adventurer.
    pub open spec fn has_stray_leader(self) -> bool {
        exists|i: int|
            0 <= i < self.permissions.len() && allows_leading(
                (#[trigger] self.permissions[i]).permission_type,
            ) && !self.adventurer_exists(self.permissions[i].adventurer_id)
    }

    /// The adventurers who may lead a guild, each once, in table order.
    pub open spec fn allowed_guild_leaders(self) -> Result<Seq<AllowedGuildLeader>, Error> {
        if self.has_stray_leader() {
            Err(Error::DbError(DbFault::QueryReturnedNoRows))
        } else {
            Ok(self.adventurers.filter(self.leading_allowed()).map_values(shown_leader()))
        }
    }
}

impl Store {
    /// The roles of `user`.
    pub fn roles_of(&self, user: UserId) -> (r: Vec<Role>)
        ensures
            r@ == self@.roles_of(user),
    {
        let ghost rows = self.adventurer_roles@;
        let ghost pred = role_of(user);
        let mut out: Vec<Role> = Vec::new();
        let mut i: usize = 0;
        proof {
            lemma_filter_take_none(rows, pred);
            assert(out@ =~= rows.take(0).filter(pred).map_values(shown_role()));
        }
        while i < self.adventurer_roles.len()
            invariant
                i <= self.adventurer_roles.len(),
                rows == self.adventurer_roles@,
                pred == role_of(user),
                out@ == rows.take(i as int).filter(pred).map_values(shown_role()),
            decreases self.adventurer_roles.len() - i,
        {
            proof {
                lemma_filter_take_step(rows, pred, i as int);
            }
            let row = self.adventurer_roles[i];
            if row.adventurer_id == user {
                out.push(Role { guild_id: row.guild_id, name: row.assigned_role });
                assert(out@ =~= rows.take(i as int + 1).filter(pred).map_values(shown_role()));
            }
            i += 1;
        }
        assert(rows.take(i as int) =~= rows);
        out
    }

    /// The permissions of `user`.
    pub fn permissions_of(&self, user: UserId) -> (r: Vec<Permission>)
        ensures
            r@ == self@.permissions_of(user),
    {
        let ghost rows = self.permissions@;
        let ghost pred = permission_of(user);
        let mut out: Vec<Permission> = Vec::new();
        let mut i: usize = 0;
        proof {
            lemma_filter_take_none(rows, pred);
            assert(out@ =~= rows.take(0).filter(pred).map_values(shown_permission()));
        }
        while i < self.permissions.len()
            invariant
                i <= self.permissions.len(),
                rows == self.permissions@,
                pred == permission_of(user),
                out@ == rows.take(i as int).filter(pred).map_values(shown_permission()),
            decreases self.permissions.len() - i,
        {
            proof {
                lemma_filter_take_step(rows, pred, i as int);
            }
            let row = self.permissions[i];
            if row.adventurer_id == user {
                out.push(Permission { permission_type: row.permission_type });
                assert(out@ =~= rows.take(i as int + 1).filter(pred).map_values(
                    shown_permission(),
                ));
            }
            i += 1;
        }
        assert(rows.take(i as int) =~= rows);
        out
    }

    /// How the adventurer at position `i` is listed.
    pub fn user_summary_at(&self, i: usize) -> (r: UserSummary)
        requires
            i < self.adventurers.len(),
        ensures
            r@ == self@.user_summary(self.adventurers[i as int]),
    {
        let a = &self.adventurers[i];
        UserSummary {
            id: a.id,
            name: a.name.clone(),
            roles: self.roles_of(a.id),
            permissions: self.permissions_of(a.id),
        }
    }

    /// Whether a flag that allows leading a guild is recorded for somebody
    /// who is not an adventurer.
    pub fn has_stray_leader(&self) -> (b: bool)
        ensures
            b == self@.has_stray_leader(),
    {
        let mut i: usize = 0;
        while i < self.permissions.len()
            invariant
                i <= self.permissions.len(),
                forall|k: int|
                    0 <= k < i ==> !(allows_leading((#[trigger] self.permissions[k]).permission_type)
                        && !self@.adventurer_exists(self.permissions[k].adventurer_id)),
            decreases self.permissions.len() - i,
        {
            let row = self.permissions[i];
            if (row.permission_type == PermissionType::GuildLeaderEligible || row.permission_type
                == PermissionType::SuperUser) && !self.adventurer_exists(row.adventurer_id) {
                return true;
            }
            i += 1;
        }
        false
    }
}

/// Lists every adventurer with their roles and permissions.
pub fn get_users(store: &Store) -> (r: Vec<UserSummary>)
    ensures
        summary_views(r@) == store@.user_summaries(),
{
    let mut out: Vec<UserSummary> = Vec::new();
    let mut i: usize = 0;
    assert(summary_views(out@) =~= store@.user_summaries().take(0));
    while i < store.adventurers.len()
        invariant
            i <= store.adventurers.len(),
            out@.len() == i,
            summary_views(out@) == store@.user_summaries().take(i as int),
        decreases store.adventurers.len() - i,
    {
        let ghost before = out@;
        let summary = store.user_summary_at(i);
        out.push(summary);
        assert(summary_views(out@) =~= summary_views(before).push(summary@));
        assert(summary_views(out@) =~= store@.user_summaries().take(i as int + 1));
        i += 1;
    }
    assert(store@.user_summaries().take(i as int) =~= store@.user_summaries());
    out
}

/// The adventurer `user_id` with their roles and permissions.
pub fn get_user(store: &Store, user_id: UserId) -> (r: Result<UserSummary, Error>)
    requires
        store@.wf(),
    ensures
        match r {
            Ok(summary) => store@.adventurer_exists(user_id) && summary@ == store@.user_summary(
                store@.adventurer_row(user_id),
            ),
            Err(e) => !store@.adventurer_exists(user_id) && e == (Error::AdventurerNotFound {
                id: Some(user_id),
            }),
        },
{
    match store.find_adventurer(user_id) {
        Some(i) => Ok(store.user_summary_at(i)),
        None => Err(Error::AdventurerNotFound { id: Some(user_id) }),
    }
}

/// Lists the adventurers who may lead a guild: those who are eligible and
/// the super users, each once.
pub fn get_allowed_guild_leaders(store: &Store) -> (r: Result<Vec<AllowedGuildLeader>, Error>)
    ensures
        crate::seqs::yields(r, store@.allowed_guild_leaders()),
{
    if store.has_stray_leader() {
        return Err(Error::DbError(DbFault::QueryReturnedNoRows));
    }
    let ghost rows = store.adventurers@;
    let ghost pred = store@.leading_allowed();
    let ghost shown = shown_leader();
    let mut out: Vec<AllowedGuildLeader> = Vec::new();
    let mut i: usize = 0;
    proof {
        lemma_filter_take_none(rows, pred);
        assert(out@ =~= rows.take(0).filter(pred).map_values(shown));
    }
    while i < store.adventurers.len()
        invariant
            i <= store.adventurers.len(),
            rows == store.adventurers@,
            pred == store@.leading_allowed(),
            shown == shown_leader(),
            out@ == rows.take(i as int).filter(pred).map_values(shown),
        decreases store.adventurers.len() - i,
    {
        proof {
            lemma_filter_take_step(rows, pred, i as int);
        }
        let a = &store.adventurers[i];
        if store.has_permission(a.id, PermissionType::GuildLeaderEligible) || store.has_permission(
            a.id,
            PermissionType::SuperUser,
        ) {
            out.push(AllowedGuildLeader { id: a.id, name: a.name.clone() });
            assert(out@ =~= rows.take(i as int + 1).filter(pred).map_values(shown));
        }
        i += 1;
    }
    assert(rows.take(i as int) =~= rows);
    Ok(out)
}

} // verus!
