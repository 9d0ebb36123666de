//! One struct per table: a row is plain data and serves as its own model.

use vstd::prelude::*;
use crate::ids::{GuildId, QuestId, UserId};
use crate::permission::PermissionType;

verus! {

/// Whether a quest row is a published template or an adventurer's copy.
#[derive(Debug, Copy, Clone, PartialEq, Eq, Structural)]
pub enum QuestType {
    /// A quest action that a guild has published.
    Template,
    /// A personal copy made when an adventurer accepted a quest.
    Instance,
}

impl QuestType {
    /// The integer under which the kind is stored.
    pub open spec fn spec_code(self) -> int {
        match self {
            QuestType::Template => 0,
            QuestType::Instance => 1,
        }
    }

    /// The integer under which the kind is stored.
    pub fn code(self) -> (c: i64)
        ensures
            c == self.spec_code(),
    {
        match self {
            QuestType::Template => 0,
            QuestType::Instance => 1,
        }
    }

    /// Decodes a stored integer; `None` for anything but 0 and 1.
    pub fn extract(x: i64) -> (r: Option<QuestType>)
        ensures
            x == 0 ==> r == Some(QuestType::Template),
            x == 1 ==> r == Some(QuestType::Instance),
            x != 0 && x != 1 ==> r.is_none(),
    {
        if x == 0 {
            Some(QuestType::Template)
        } else if x == 1 {
            Some(QuestType::Instance)
        } else {
            None
        }
    }
}

/// The one role that an adventurer can be assigned within a guild.
#[derive(Debug, Copy, Clone, PartialEq, Eq, Structural)]
pub enum AssignedRole {
    Leader,
}

/// A guild: a group that publishes quest actions.
#[derive(Debug, Clone, PartialEq, Eq)]
pub struct GuildRow {
    pub id: GuildId,
    pub name: String,
}

/// An adventurer: a user, with the hash and the salt of their password.
#[derive(Debug, Clone, PartialEq, Eq)]
pub struct AdventurerRow {
    pub id: UserId,
    pub name: String,
    pub email: String,
    pub password_hash: String,
    pub password_salt: String,
}

/// A quest: a published quest action, or the copy that an adventurer got
/// by accepting a quest.
#[derive(Debug, Clone, PartialEq, Eq)]
pub struct QuestRow {
    pub id: QuestId,
    pub guild_id: GuildId,
    /// `None` for a template; the quest that was accepted for an instance.
    pub parent_quest_id: Option<QuestId>,
    pub name: Option<String>,
    pub quest_type: QuestType,
    pub repeatable: bool,
    pub open_date: Option<i64>,
    pub close_date: Option<i64>,
    /// Set when a template is retired or an instance cancelled.
    pub deleted_date: Option<i64>,
}

/// What a quest asks for and what it is worth.
#[derive(Debug, Clone, PartialEq, Eq)]
pub struct QuestTaskRow {
    pub id: u32,
    pub quest_id: QuestId,
    pub order_index: u32,
    pub name: String,
    pub description: Option<String>,
    pub adventurer_note: Option<String>,
    pub xp: u32,
}

/// A further description of a quest.
#[derive(Debug, Clone, PartialEq, Eq)]
pub struct QuestDetailRow {
    pub id: u32,
    pub quest_id: QuestId,
    pub description: String,
}

/// That an adventurer is the party of a quest instance.
#[derive(Debug, Copy, Clone, PartialEq, Eq, Structural)]
pub struct PartyMemberRow {
    pub adventurer_id: UserId,
    pub quest_id: QuestId,
}

/// That an adventurer has a role in a guild.
#[derive(Debug, Copy, Clone, PartialEq, Eq, Structural)]
pub struct AdventurerRoleRow {
    pub adventurer_id: UserId,
    pub guild_id: GuildId,
    pub assigned_role: AssignedRole,
}

/// That an adventurer holds a permission flag.
#[derive(Debug, Copy, Clone, PartialEq, Eq, Structural)]
pub struct PermissionRow {
    pub adventurer_id: UserId,
    pub permission_type: PermissionType,
}

/// A login session, named by its bearer token.
#[derive(Debug, Clone, PartialEq, Eq)]
pub struct AuthSessionRow {
    pub id: u32,
    pub adventurer_id: UserId,
    pub token: String,
    pub start_time: i64,
    pub time_to_live: i64,
}

/// A copy of an optional text.
pub fn clone_text(t: &Option<String>) -> (r: Option<String>)
    ensures
        r == *t,
{
    match t {
        Some(s) => Some(s.clone()),
        None => None,
    }
}

/// Where a quest stands in its life, as its dates tell.
#[derive(Debug, Copy, Clone, PartialEq, Eq, Structural)]
pub enum QuestState {
    /// Neither completed nor deleted.
    Open,
    /// Completed and not deleted.
    Completed,
    /// Retired or cancelled, whether or not it was completed before.
    Deleted,
}

impl QuestRow {
    /// The quest was neither retired nor cancelled.
    pub open spec fn is_live(self) -> bool {
        self.deleted_date.is_none()
    }

    /// The quest is a published quest action.
    pub open spec fn is_template(self) -> bool {
        self.quest_type == QuestType::Template
    }

    /// Where the quest stands in its life.
    pub open spec fn spec_state(self) -> QuestState {
        if self.deleted_date.is_some() {
            QuestState::Deleted
        } else if self.close_date.is_some() {
            QuestState::Completed
        } else {
            QuestState::Open
        }
    }

    /// Where the quest stands in its life.
    pub fn state(&self) -> (s: QuestState)
        ensures
            s == self.spec_state(),
            s == QuestState::Deleted <==> !self.is_live(),
    {
        if self.deleted_date.is_some() {
            QuestState::Deleted
        } else if self.close_date.is_some() {
            QuestState::Completed
        } else {
            QuestState::Open
        }
    }
}

impl QuestTaskRow {
    /// The same task within the quest `quest_id`, as the row `id`.
    pub open spec fn copied(self, id: u32, quest_id: QuestId) -> QuestTaskRow {
        QuestTaskRow { id, quest_id, ..self }
    }

    /// A copy of the row for the quest `quest_id`, as the row `id`.
    pub fn copy_for(&self, id: u32, quest_id: QuestId) -> (r: QuestTaskRow)
        ensures
            r == self.copied(id, quest_id),
    {
        QuestTaskRow {
            id,
            quest_id,
            order_index: self.order_index,
            name: self.name.clone(),
            description: clone_text(&self.description),
            adventurer_note: clone_text(&self.adventurer_note),
            xp: self.xp,
        }
    }
}

impl QuestDetailRow {
    /// The same detail within the quest `quest_id`, as the row `id`.
    pub open spec fn copied(self, id: u32, quest_id: QuestId) -> QuestDetailRow {
        QuestDetailRow { id, quest_id, ..self }
    }

    /// A copy of the row for the quest `quest_id`, as the row `id`.
    pub fn copy_for(&self, id: u32, quest_id: QuestId) -> (r: QuestDetailRow)
        ensures
            r == self.copied(id, quest_id),
    {
        QuestDetailRow { id, quest_id, description: self.description.clone() }
    }
}

} // verus!
