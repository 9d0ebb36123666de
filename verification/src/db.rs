//! The tables and the repository primitives over them.

pub mod accounts;
pub mod check;
pub mod guilds;
pub mod migrate;
pub mod permissions;
pub mod quests;
pub mod rows;
pub mod sequence;
pub mod store;
pub mod transaction;
