//! Rules of a volunteer quest tracker: guilds publish quest actions,
//! adventurers accept, complete and cancel them, and permissions gate
//! administrative capabilities.
//!
//! The tables live in a [`db::Store`]; every operation is a verified function
//! over it whose contract is stated on the store's view.

pub mod auth;
pub mod command;
pub mod db;
pub mod error;
pub mod guild;
pub mod ids;
pub mod js;
pub mod laws;
pub mod participation;
pub mod perm;
pub mod permission;
pub mod quest;
pub mod seqs;
pub mod text;
pub mod user;
