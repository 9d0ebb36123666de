//! The failures that an operation can report.

use vstd::prelude::*;
use vstd::string::StringExecFns;
use crate::ids::{GuildId, QuestId, UserId};
use crate::text::{push_decimal, spec_decimal};

verus! {

/// What went wrong beneath an operation, in the tables themselves.
#[derive(Debug, Copy, Clone, PartialEq, Eq, Structural)]
pub enum DbFault {
    /// A lookup that must yield a row found none.
    QueryReturnedNoRows,
    /// A stored integer does not fit the type it is read as.
    OutOfRange(i64),
    /// A table has no id left for a new row.
    IdsExhausted,
}

/// The failures with a defined response, which operations hand up unchanged.
#[derive(Debug, Clone, PartialEq, Eq)]
#[allow(inconsistent_fields)]
pub enum Error {
    DbError(DbFault),
    AdventurerNotFound { id: Option<UserId> },
    AdventurerNotFoundByEmail { email: String },
    GuildNotFound { id: Option<GuildId> },
    QuestNotFound { id: Option<QuestId> },
    NotQuestMember { user_id: UserId, quest_id: QuestId },
    QuestNotBelongToGuild { quest_id: QuestId, guild_id: GuildId },
    AccountAlreadyExists,
    CannotComputePasswordHash,
    UnauthorizedLogin,
    SessionNotFound,
    InsufficientPermissions { msg: String },
}

/// The request was malformed or asked for what the rules forbid.
pub const BAD_REQUEST: u16 = 400;

/// The caller did not prove who they are, or may not do what they asked.
pub const UNAUTHORIZED: u16 = 401;

/// What the request names does not exist.
pub const NOT_FOUND: u16 = 404;

/// The failure lies with the server.
pub const INTERNAL_SERVER_ERROR: u16 = 500;

impl Error {
    /// The HTTP status under which this failure is reported.
    pub open spec fn spec_status_code(self) -> u16 {
        match self {
            Error::DbError(_) => INTERNAL_SERVER_ERROR,
            Error::AdventurerNotFound { .. } => NOT_FOUND,
            Error::AdventurerNotFoundByEmail { .. } => NOT_FOUND,
            Error::GuildNotFound { .. } => NOT_FOUND,
            Error::QuestNotFound { .. } => NOT_FOUND,
            Error::NotQuestMember { .. } => BAD_REQUEST,
            Error::QuestNotBelongToGuild { .. } => BAD_REQUEST,
            Error::AccountAlreadyExists => BAD_REQUEST,
            Error::CannotComputePasswordHash => INTERNAL_SERVER_ERROR,
            Error::UnauthorizedLogin => UNAUTHORIZED,
            Error::SessionNotFound => UNAUTHORIZED,
            Error::InsufficientPermissions { .. } => UNAUTHORIZED,
        }
    }

    /// The text that the caller is shown. A failure of the tables shows
    /// nothing of what failed.
    pub open spec fn spec_message(self) -> Seq<char> {
        match self {
            Error::DbError(_) => "database access failed"@,
            Error::AdventurerNotFound { id: Some(id) } => "no adventurer with id = "@
                + spec_decimal(id.0 as nat) + " exists"@,
            Error::AdventurerNotFound { id: None } => "specified adventurer not found"@,
            Error::AdventurerNotFoundByEmail { email } => "no adventurer with email = "@ + email@
                + " exists"@,
            Error::GuildNotFound { id: Some(id) } => "no guild with id = "@ + spec_decimal(
                id.0 as nat,
            ) + " exists"@,
            Error::GuildNotFound { id: None } => "specified guild not found"@,
            Error::QuestNotFound { id: Some(id) } => "no quest with id = "@ + spec_decimal(
                id.0 as nat,
            ) + " exists"@,
            Error::QuestNotFound { id: None } => "specified quest not found"@,
            Error::NotQuestMember { user_id, quest_id } => "adventurer "@ + spec_decimal(
                user_id.0 as nat,
            ) + " is not a member of party for quest "@ + spec_decimal(quest_id.0 as nat),
            Error::QuestNotBelongToGuild { quest_id, guild_id } => "quest "@ + spec_decimal(
                quest_id.0 as nat,
            ) + " does not belong to guild "@ + spec_decimal(guild_id.0 as nat),
            Error::AccountAlreadyExists => "account already exists"@,
            Error::CannotComputePasswordHash => "failed to compute password hash"@,
            Error::UnauthorizedLogin => "failed login"@,
            Error::SessionNotFound => "session not found"@,
            Error::InsufficientPermissions { msg } => msg@,
        }
    }

    /// The HTTP status under which this failure is reported.
    pub fn status_code(&self) -> (code: u16)
        ensures
            code == self.spec_status_code(),
    {
        match self {
            Error::DbError(_) => INTERNAL_SERVER_ERROR,
            Error::AdventurerNotFound { .. } => NOT_FOUND,
            Error::AdventurerNotFoundByEmail { .. } => NOT_FOUND,
            Error::GuildNotFound { .. } => NOT_FOUND,
            Error::QuestNotFound { .. } => NOT_FOUND,
            Error::NotQuestMember { .. } => BAD_REQUEST,
            Error::QuestNotBelongToGuild { .. } => BAD_REQUEST,
            Error::AccountAlreadyExists => BAD_REQUEST,
            Error::CannotComputePasswordHash => INTERNAL_SERVER_ERROR,
            Error::UnauthorizedLogin => UNAUTHORIZED,
            Error::SessionNotFound => UNAUTHORIZED,
            Error::InsufficientPermissions { .. } => UNAUTHORIZED,
        }
    }

    /// The text that the caller is shown.
    pub fn message(&self) -> (text: String)
        ensures
            text@ == self.spec_message(),
    {
        match self {
            Error::DbError(_) => "database access failed".to_owned(),
            Error::AdventurerNotFound { id } => match id {
                Some(id) => numbered("no adventurer with id = ", id.0, " exists"),
                None => "specified adventurer not found".to_owned(),
            },
            Error::AdventurerNotFoundByEmail { email } => {
                let mut text = "no adventurer with email = ".to_owned();
                text.append(email.as_str());
                text.append(" exists");
                text
            },
            Error::GuildNotFound { id } => match id {
                Some(id) => numbered("no guild with id = ", id.0, " exists"),
                None => "specified guild not found".to_owned(),
            },
            Error::QuestNotFound { id } => match id {
                Some(id) => numbered("no quest with id = ", id.0, " exists"),
                None => "specified quest not found".to_owned(),
            },
            Error::NotQuestMember { user_id, quest_id } => {
                let mut text = numbered(
                    "adventurer ",
                    user_id.0,
                    " is not a member of party for quest ",
                );
                push_decimal(&mut text, quest_id.0);
                text
            },
            Error::QuestNotBelongToGuild { quest_id, guild_id } => {
                let mut text = numbered("quest ", quest_id.0, " does not belong to guild ");
                push_decimal(&mut text, guild_id.0);
                text
            },
            Error::AccountAlreadyExists => "account already exists".to_owned(),
            Error::CannotComputePasswordHash => "failed to compute password hash".to_owned(),
            Error::UnauthorizedLogin => "failed login".to_owned(),
            Error::SessionNotFound => "session not found".to_owned(),
            Error::InsufficientPermissions { msg } => msg.clone(),
        }
    }
}

/// `before`, then `n` in decimal, then `after`.
fn numbered(before: &str, n: u32, after: &str) -> (text: String)
    ensures
        text@ == before@ + spec_decimal(n as nat) + after@,
{
    let mut text = before.to_owned();
    push_decimal(&mut text, n);
    text.append(after);
    text
}

} // verus!
