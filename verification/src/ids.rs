//! Typed identifiers for the three kinds of row that callers name.

use vstd::prelude::*;

verus! {

/// The ID number for a guild.
#[derive(Debug, Copy, Clone, PartialEq, Eq, Structural)]
pub struct GuildId(pub u32);

/// The ID number for a quest.
#[derive(Debug, Copy, Clone, PartialEq, Eq, Structural)]
pub struct QuestId(pub u32);

/// The ID number for a user.
#[derive(Debug, Copy, Clone, PartialEq, Eq, Structural)]
pub struct UserId(pub u32);

} // verus!
