//! Accounts, passwords and login sessions.

pub mod account;
pub mod password;
pub mod session;
pub mod token;
