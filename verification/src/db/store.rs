//! The store: every table as a list of rows, and what holds of them together.

use vstd::prelude::*;
use crate::db::rows::{
    AdventurerRoleRow, AdventurerRow, AuthSessionRow, GuildRow, PartyMemberRow, PermissionRow,
    QuestDetailRow, QuestRow, QuestTaskRow,
};
use crate::ids::{GuildId, QuestId, UserId};
use crate::js::is_safe_time;
use crate::permission::PermissionType;

verus! {

/// The last id handed out in each table that numbers its rows itself.
#[derive(Debug, Copy, Clone, PartialEq, Eq, Structural)]
pub struct Sequences {
    pub guild: u32,
    pub adventurer: u32,
    pub quest: u32,
    pub quest_task: u32,
    pub quest_detail: u32,
    pub auth_session: u32,
}

/// All tables, each in insertion order.
#[derive(Debug, Clone, PartialEq, Eq)]
pub struct Store {
    pub guilds: Vec<GuildRow>,
    pub adventurers: Vec<AdventurerRow>,
    pub quests: Vec<QuestRow>,
    pub quest_tasks: Vec<QuestTaskRow>,
    pub quest_details: Vec<QuestDetailRow>,
    pub party_members: Vec<PartyMemberRow>,
    pub adventurer_roles: Vec<AdventurerRoleRow>,
    pub permissions: Vec<PermissionRow>,
    pub auth_sessions: Vec<AuthSessionRow>,
    pub sequences: Sequences,
}

/// The mathematical content of a [`Store`].
pub struct StoreView {
    pub guilds: Seq<GuildRow>,
    pub adventurers: Seq<AdventurerRow>,
    pub quests: Seq<QuestRow>,
    pub quest_tasks: Seq<QuestTaskRow>,
    pub quest_details: Seq<QuestDetailRow>,
    pub party_members: Seq<PartyMemberRow>,
    pub adventurer_roles: Seq<AdventurerRoleRow>,
    pub permissions: Seq<PermissionRow>,
    pub auth_sessions: Seq<AuthSessionRow>,
    pub sequences: Sequences,
}

/// The test that the tasks of `quest` pass.
pub open spec fn task_of(quest: QuestId) -> spec_fn(QuestTaskRow) -> bool {
    |t: QuestTaskRow| t.quest_id == quest
}

/// The test that the details of `quest` pass.
pub open spec fn detail_of(quest: QuestId) -> spec_fn(QuestDetailRow) -> bool {
    |d: QuestDetailRow| d.quest_id == quest
}

/// No flag is recorded twice in `rows`.
pub open spec fn permissions_distinct(rows: Seq<PermissionRow>) -> bool {
    forall|i: int, j: int| 0 <= i < j < rows.len() ==> (#[trigger] rows[i]) != (#[trigger] rows[j])
}

/// Nobody is both approved and rejected in `rows`.
pub open spec fn permissions_exclusive(rows: Seq<PermissionRow>) -> bool {
    forall|user: UserId|
        !(#[trigger] rows.contains(
            PermissionRow { adventurer_id: user, permission_type: PermissionType::Approved },
        ) && rows.contains(
            PermissionRow { adventurer_id: user, permission_type: PermissionType::Rejected },
        ))
}

/// No flag is recorded twice in `rows`, and nobody is both approved and
/// rejected.
pub open spec fn permissions_sound(rows: Seq<PermissionRow>) -> bool {
    permissions_distinct(rows) && permissions_exclusive(rows)
}

impl View for Store {
    type V = StoreView;

    open spec fn view(&self) -> StoreView {
        StoreView {
            guilds: self.guilds@,
            adventurers: self.adventurers@,
            quests: self.quests@,
            quest_tasks: self.quest_tasks@,
            quest_details: self.quest_details@,
            party_members: self.party_members@,
            adventurer_roles: self.adventurer_roles@,
            permissions: self.permissions@,
            auth_sessions: self.auth_sessions@,
            sequences: self.sequences,
        }
    }
}

impl StoreView {
    /// The store with no rows, before any id was handed out.
    pub open spec fn empty() -> StoreView {
        StoreView {
            guilds: Seq::empty(),
            adventurers: Seq::empty(),
            quests: Seq::empty(),
            quest_tasks: Seq::empty(),
            quest_details: Seq::empty(),
            party_members: Seq::empty(),
            adventurer_roles: Seq::empty(),
            permissions: Seq::empty(),
            auth_sessions: Seq::empty(),
            sequences: Sequences {
                guild: 0,
                adventurer: 0,
                quest: 0,
                quest_task: 0,
                quest_detail: 0,
                auth_session: 0,
            },
        }
    }

    // ----- existence -----

    /// Some guild has the id `guild`.
    pub open spec fn guild_exists(self, guild: GuildId) -> bool {
        exists|i: int| 0 <= i < self.guilds.len() && (#[trigger] self.guilds[i]).id == guild
    }

    /// Some adventurer has the id `user`.
    pub open spec fn adventurer_exists(self, user: UserId) -> bool {
        exists|i: int|
            0 <= i < self.adventurers.len() && (#[trigger] self.adventurers[i]).id == user
    }

    /// Some quest row, deleted or not, has the id `quest`.
    pub open spec fn quest_row_exists(self, quest: QuestId) -> bool {
        exists|i: int| 0 <= i < self.quests.len() && (#[trigger] self.quests[i]).id == quest
    }

    /// Some quest that is not deleted has the id `quest`.
    pub open spec fn quest_exists(self, quest: QuestId) -> bool {
        exists|i: int|
            0 <= i < self.quests.len() && (#[trigger] self.quests[i]).id == quest
                && self.quests[i].is_live()
    }

    /// Some adventurer has the address `email`.
    pub open spec fn email_exists(self, email: Seq<char>) -> bool {
        exists|i: int|
            0 <= i < self.adventurers.len() && (#[trigger] self.adventurers[i]).email@ == email
    }

    /// The party of `quest` holds `user`.
    pub open spec fn is_party_member(self, user: UserId, quest: QuestId) -> bool {
        self.party_members.contains(PartyMemberRow { adventurer_id: user, quest_id: quest })
    }

    /// `user` holds the flag `perm`.
    pub open spec fn has_permission(self, user: UserId, perm: PermissionType) -> bool {
        self.permissions.contains(PermissionRow { adventurer_id: user, permission_type: perm })
    }

    // ----- lookups -----

    /// The position of a quest row with the id `quest`.
    pub open spec fn quest_index(self, quest: QuestId) -> int {
        choose|i: int| 0 <= i < self.quests.len() && (#[trigger] self.quests[i]).id == quest
    }

    /// The quest row with the id `quest`.
    pub open spec fn quest_row(self, quest: QuestId) -> QuestRow {
        self.quests[self.quest_index(quest)]
    }

    /// The position of an adventurer row with the id `user`.
    pub open spec fn adventurer_index(self, user: UserId) -> int {
        choose|i: int|
            0 <= i < self.adventurers.len() && (#[trigger] self.adventurers[i]).id == user
    }

    /// The adventurer row with the id `user`.
    pub open spec fn adventurer_row(self, user: UserId) -> AdventurerRow {
        self.adventurers[self.adventurer_index(user)]
    }

    /// The position of a guild row with the id `guild`.
    pub open spec fn guild_index(self, guild: GuildId) -> int {
        choose|i: int| 0 <= i < self.guilds.len() && (#[trigger] self.guilds[i]).id == guild
    }

    /// The guild row with the id `guild`.
    pub open spec fn guild_row(self, guild: GuildId) -> GuildRow {
        self.guilds[self.guild_index(guild)]
    }

    /// The tasks of `quest`, in table order.
    pub open spec fn tasks_of(self, quest: QuestId) -> Seq<QuestTaskRow> {
        self.quest_tasks.filter(task_of(quest))
    }

    /// The details of `quest`, in table order.
    pub open spec fn details_of(self, quest: QuestId) -> Seq<QuestDetailRow> {
        self.quest_details.filter(detail_of(quest))
    }

    // ----- what holds of a store between operations -----

    /// Ids are used once, and none is beyond the last one handed out.
    pub open spec fn guilds_wf(self) -> bool {
        &&& forall|i: int|
            0 <= i < self.guilds.len() ==> (#[trigger] self.guilds[i]).id.0 <= self.sequences.guild
        &&& forall|i: int, j: int|
            0 <= i < j < self.guilds.len() ==> (#[trigger] self.guilds[i]).id != (
            #[trigger] self.guilds[j]).id
    }

    /// Ids and addresses are each used once.
    pub open spec fn adventurers_wf(self) -> bool {
        &&& forall|i: int|
            0 <= i < self.adventurers.len() ==> (#[trigger] self.adventurers[i]).id.0
                <= self.sequences.adventurer
        &&& forall|i: int, j: int|
            0 <= i < j < self.adventurers.len() ==> (#[trigger] self.adventurers[i]).id != (
            #[trigger] self.adventurers[j]).id
        &&& forall|i: int, j: int|
            0 <= i < j < self.adventurers.len() ==> (#[trigger] self.adventurers[i]).email@ != (
            #[trigger] self.adventurers[j]).email@
    }

    /// A template has no parent and an instance has one among the quests
    /// that were there before it; the times at which it was opened and
    /// completed are such as can be shown to a client.
    pub open spec fn quest_row_is_sound(self, q: QuestRow) -> bool {
        &&& q.is_template() <==> q.parent_quest_id.is_none()
        &&& q.parent_quest_id.is_some() ==> self.quest_row_exists(q.parent_quest_id.unwrap())
            && q.parent_quest_id.unwrap().0 < q.id.0
        &&& q.open_date.is_some() ==> is_safe_time(q.open_date.unwrap() as int)
        &&& q.close_date.is_some() ==> is_safe_time(q.close_date.unwrap() as int)
    }

    /// Ids are used once, and every row is sound.
    pub open spec fn quests_wf(self) -> bool {
        &&& forall|i: int|
            0 <= i < self.quests.len() ==> (#[trigger] self.quests[i]).id.0 <= self.sequences.quest
        &&& forall|i: int, j: int|
            0 <= i < j < self.quests.len() ==> (#[trigger] self.quests[i]).id != (
            #[trigger] self.quests[j]).id
        &&& forall|i: int|
            0 <= i < self.quests.len() ==> self.quest_row_is_sound(#[trigger] self.quests[i])
    }

    /// Ids are used once, and a task belongs to a quest that was numbered.
    pub open spec fn quest_tasks_wf(self) -> bool {
        &&& forall|i: int|
            0 <= i < self.quest_tasks.len() ==> (#[trigger] self.quest_tasks[i]).id
                <= self.sequences.quest_task && self.quest_tasks[i].quest_id.0
                <= self.sequences.quest
        &&& forall|i: int, j: int|
            0 <= i < j < self.quest_tasks.len() ==> (#[trigger] self.quest_tasks[i]).id != (
            #[trigger] self.quest_tasks[j]).id
    }

    /// Every quest has its one task, which describes it.
    pub open spec fn one_task_per_quest(self) -> bool {
        forall|i: int|
            0 <= i < self.quests.len() ==> self.tasks_of((#[trigger] self.quests[i]).id).len() == 1
    }

    /// Ids are used once, and a detail belongs to a quest that was numbered.
    pub open spec fn quest_details_wf(self) -> bool {
        &&& forall|i: int|
            0 <= i < self.quest_details.len() ==> (#[trigger] self.quest_details[i]).id
                <= self.sequences.quest_detail && self.quest_details[i].quest_id.0
                <= self.sequences.quest
        &&& forall|i: int, j: int|
            0 <= i < j < self.quest_details.len() ==> (#[trigger] self.quest_details[i]).id != (
            #[trigger] self.quest_details[j]).id
    }

    /// A party belongs to an instance, and an instance has at most one member.
    pub open spec fn party_members_wf(self) -> bool {
        &&& forall|i: int|
            0 <= i < self.party_members.len() ==> self.is_instance(
                (#[trigger] self.party_members[i]).quest_id,
            )
        &&& forall|i: int, j: int|
            0 <= i < j < self.party_members.len() ==> (#[trigger] self.party_members[i]).quest_id
                != (#[trigger] self.party_members[j]).quest_id
    }

    /// Some quest row with the id `quest` is an instance.
    pub open spec fn is_instance(self, quest: QuestId) -> bool {
        exists|i: int|
            0 <= i < self.quests.len() && (#[trigger] self.quests[i]).id == quest
                && !self.quests[i].is_template()
    }

    /// A guild has at most one leader, and only a guild that was created has one.
    pub open spec fn adventurer_roles_wf(self) -> bool {
        &&& forall|i: int|
            0 <= i < self.adventurer_roles.len() ==> (#[trigger] self.adventurer_roles[i]).guild_id.0
                <= self.sequences.guild
        &&& forall|i: int, j: int|
            0 <= i < j < self.adventurer_roles.len() ==> (
            #[trigger] self.adventurer_roles[i]).guild_id != (
            #[trigger] self.adventurer_roles[j]).guild_id
    }

    /// No flag is recorded twice, and nobody is both approved and rejected.
    pub open spec fn permissions_wf(self) -> bool {
        permissions_sound(self.permissions)
    }

    /// Ids are used once, and none is beyond the last one handed out.
    pub open spec fn auth_sessions_wf(self) -> bool {
        &&& forall|i: int|
            0 <= i < self.auth_sessions.len() ==> (#[trigger] self.auth_sessions[i]).id
                <= self.sequences.auth_session
        &&& forall|i: int, j: int|
            0 <= i < j < self.auth_sessions.len() ==> (#[trigger] self.auth_sessions[i]).id != (
            #[trigger] self.auth_sessions[j]).id
    }

    /// Everything that the data model promises of the tables.
    pub open spec fn wf(self) -> bool {
        &&& self.guilds_wf()
        &&& self.adventurers_wf()
        &&& self.quests_wf()
        &&& self.quest_tasks_wf()
        &&& self.one_task_per_quest()
        &&& self.quest_details_wf()
        &&& self.party_members_wf()
        &&& self.adventurer_roles_wf()
        &&& self.permissions_wf()
        &&& self.auth_sessions_wf()
    }

    /// With ids used once, a row found under an id is the row of that id.
    pub proof fn lemma_quest_row(self, i: int)
        requires
            self.quests_wf(),
            0 <= i < self.quests.len(),
        ensures
            self.quest_index(self.quests[i].id) == i,
            self.quest_row(self.quests[i].id) == self.quests[i],
            self.quest_row_exists(self.quests[i].id),
    {
        let k = self.quest_index(self.quests[i].id);
        assert(0 <= k < self.quests.len() && self.quests[k].id == self.quests[i].id);
        if k < i {
            assert(self.quests[k].id != self.quests[i].id);
        } else if i < k {
            assert(self.quests[i].id != self.quests[k].id);
        }
    }

    /// With quest ids used once, the row at `i` is the row of its id. This
    /// asks for no more of the table than that.
    pub proof fn lemma_row_at(self, i: int)
        requires
            0 <= i < self.quests.len(),
            forall|a: int, b: int|
                0 <= a < b < self.quests.len() ==> (#[trigger] self.quests[a]).id != (
                #[trigger] self.quests[b]).id,
        ensures
            self.quest_row(self.quests[i].id) == self.quests[i],
    {
        let k = self.quest_index(self.quests[i].id);
        assert(0 <= k < self.quests.len() && self.quests[k].id == self.quests[i].id);
        if k < i {
            assert(self.quests[k].id != self.quests[i].id);
        } else if i < k {
            assert(self.quests[i].id != self.quests[k].id);
        }
    }

    /// With ids used once, whatever holds of some quest row with the id of
    /// the row at `i` holds of that row.
    pub proof fn lemma_found_quest(self, i: int)
        requires
            self.quests_wf(),
            0 <= i < self.quests.len(),
        ensures
            forall|k: int|
                0 <= k < self.quests.len() && (#[trigger] self.quests[k]).id == self.quests[i].id
                    ==> k == i,
    {
        assert forall|k: int|
            0 <= k < self.quests.len() && (#[trigger] self.quests[k]).id
                == self.quests[i].id implies k == i by {
            if k < i {
                assert(self.quests[k].id != self.quests[i].id);
            } else if i < k {
                assert(self.quests[i].id != self.quests[k].id);
            }
        }
    }

    /// With ids used once, a row found under an id is the row of that id.
    pub proof fn lemma_adventurer_row(self, i: int)
        requires
            self.adventurers_wf(),
            0 <= i < self.adventurers.len(),
        ensures
            self.adventurer_index(self.adventurers[i].id) == i,
            self.adventurer_row(self.adventurers[i].id) == self.adventurers[i],
            self.adventurer_exists(self.adventurers[i].id),
    {
        let k = self.adventurer_index(self.adventurers[i].id);
        assert(0 <= k < self.adventurers.len() && self.adventurers[k].id
            == self.adventurers[i].id);
        if k < i {
            assert(self.adventurers[k].id != self.adventurers[i].id);
        } else if i < k {
            assert(self.adventurers[i].id != self.adventurers[k].id);
        }
    }

    /// With ids used once, a row found under an id is the row of that id.
    pub proof fn lemma_guild_row(self, i: int)
        requires
            self.guilds_wf(),
            0 <= i < self.guilds.len(),
        ensures
            self.guild_index(self.guilds[i].id) == i,
            self.guild_row(self.guilds[i].id) == self.guilds[i],
            self.guild_exists(self.guilds[i].id),
    {
        let k = self.guild_index(self.guilds[i].id);
        assert(0 <= k < self.guilds.len() && self.guilds[k].id == self.guilds[i].id);
        if k < i {
            assert(self.guilds[k].id != self.guilds[i].id);
        } else if i < k {
            assert(self.guilds[i].id != self.guilds[k].id);
        }
    }
}

impl Store {
    /// A store with no rows.
    pub fn new() -> (s: Store)
        ensures
            s@ == StoreView::empty(),
            s@.wf(),
    {
        let s = Store {
            guilds: Vec::new(),
            adventurers: Vec::new(),
            quests: Vec::new(),
            quest_tasks: Vec::new(),
            quest_details: Vec::new(),
            party_members: Vec::new(),
            adventurer_roles: Vec::new(),
            permissions: Vec::new(),
            auth_sessions: Vec::new(),
            sequences: Sequences {
                guild: 0,
                adventurer: 0,
                quest: 0,
                quest_task: 0,
                quest_detail: 0,
                auth_session: 0,
            },
        };
        assert(s@ =~= StoreView::empty());
        s
    }

    /// The position of the guild with the id `guild`, if there is one.
    pub fn find_guild(&self, guild: GuildId) -> (r: Option<usize>)
        ensures
            r.is_some() == self@.guild_exists(guild),
            r.is_some() ==> r.unwrap() < self.guilds.len() && self.guilds[r.unwrap() as int].id
                == guild,
            r.is_some() && self@.guilds_wf() ==> r.unwrap() == self@.guild_index(guild),
    {
        let mut i: usize = 0;
        while i < self.guilds.len()
            invariant
                i <= self.guilds.len(),
                forall|k: int| 0 <= k < i ==> (#[trigger] self.guilds[k]).id != guild,
            decreases self.guilds.len() - i,
        {
            if self.guilds[i].id == guild {
                proof {
                    if self@.guilds_wf() {
                        self@.lemma_guild_row(i as int);
                    }
                }
                return Some(i);
            }
            i += 1;
        }
        None
    }

    /// The position of the adventurer with the id `user`, if there is one.
    pub fn find_adventurer(&self, user: UserId) -> (r: Option<usize>)
        ensures
            r.is_some() == self@.adventurer_exists(user),
            r.is_some() ==> r.unwrap() < self.adventurers.len()
                && self.adventurers[r.unwrap() as int].id == user,
            r.is_some() && self@.adventurers_wf() ==> r.unwrap() == self@.adventurer_index(user),
    {
        let mut i: usize = 0;
        while i < self.adventurers.len()
            invariant
                i <= self.adventurers.len(),
                forall|k: int| 0 <= k < i ==> (#[trigger] self.adventurers[k]).id != user,
            decreases self.adventurers.len() - i,
        {
            if self.adventurers[i].id == user {
                proof {
                    if self@.adventurers_wf() {
                        self@.lemma_adventurer_row(i as int);
                    }
                }
                return Some(i);
            }
            i += 1;
        }
        None
    }

    /// The position of the quest row with the id `quest`, deleted or not.
    pub fn find_quest(&self, quest: QuestId) -> (r: Option<usize>)
        ensures
            r.is_some() == self@.quest_row_exists(quest),
            r.is_some() ==> r.unwrap() < self.quests.len() && self.quests[r.unwrap() as int].id
                == quest,
            r.is_some() && self@.quests_wf() ==> r.unwrap() == self@.quest_index(quest),
    {
        let mut i: usize = 0;
        while i < self.quests.len()
            invariant
                i <= self.quests.len(),
                forall|k: int| 0 <= k < i ==> (#[trigger] self.quests[k]).id != quest,
            decreases self.quests.len() - i,
        {
            if self.quests[i].id == quest {
                proof {
                    if self@.quests_wf() {
                        self@.lemma_quest_row(i as int);
                    }
                }
                return Some(i);
            }
            i += 1;
        }
        None
    }

    /// Whether an adventurer has the id `user`.
    pub fn adventurer_exists(&self, user: UserId) -> (b: bool)
        ensures
            b == self@.adventurer_exists(user),
    {
        self.find_adventurer(user).is_some()
    }

    /// Whether a guild has the id `guild`.
    pub fn guild_exists(&self, guild: GuildId) -> (b: bool)
        ensures
            b == self@.guild_exists(guild),
    {
        self.find_guild(guild).is_some()
    }

    /// Whether a quest that is not deleted has the id `quest`.
    pub fn quest_exists(&self, quest: QuestId) -> (b: bool)
        ensures
            b == self@.quest_exists(quest),
    {
        let mut i: usize = 0;
        while i < self.quests.len()
            invariant
                i <= self.quests.len(),
                forall|k: int|
                    0 <= k < i ==> !((#[trigger] self.quests[k]).id == quest
                        && self.quests[k].is_live()),
            decreases self.quests.len() - i,
        {
            if self.quests[i].id == quest && self.quests[i].deleted_date.is_none() {
                return true;
            }
            i += 1;
        }
        false
    }

    /// Whether the party of `quest` holds `user`.
    pub fn is_party_member(&self, user: UserId, quest: QuestId) -> (b: bool)
        ensures
            b == self@.is_party_member(user, quest),
    {
        let mut i: usize = 0;
        while i < self.party_members.len()
            invariant
                i <= self.party_members.len(),
                forall|k: int|
                    0 <= k < i ==> (#[trigger] self.party_members[k]) != (PartyMemberRow {
                        adventurer_id: user,
                        quest_id: quest,
                    }),
            decreases self.party_members.len() - i,
        {
            let row = self.party_members[i];
            if row.adventurer_id == user && row.quest_id == quest {
                return true;
            }
            i += 1;
        }
        false
    }

    /// Whether `user` holds the flag `perm`.
    pub fn has_permission(&self, user: UserId, perm: PermissionType) -> (b: bool)
        ensures
            b == self@.has_permission(user, perm),
    {
        let mut i: usize = 0;
        while i < self.permissions.len()
            invariant
                i <= self.permissions.len(),
                forall|k: int|
                    0 <= k < i ==> (#[trigger] self.permissions[k]) != (PermissionRow {
                        adventurer_id: user,
                        permission_type: perm,
                    }),
            decreases self.permissions.len() - i,
        {
            let row = self.permissions[i];
            if row.adventurer_id == user && row.permission_type == perm {
                return true;
            }
            i += 1;
        }
        false
    }
}

} // verus!
