//! The commands that the program can be started with.

use vstd::prelude::*;
use crate::command::add_admin::AddAdmin;
use crate::command::hash_password::HashPassword;
use crate::command::insert_demo::InsertDemo;

pub mod add_admin;
pub mod hash_password;
pub mod insert_demo;

verus! {

/// What the program was asked to do.
pub struct Args {
    pub command: Subcommand,
}

/// The commands.
pub enum Subcommand {
    Server(Server),
    AddAdmin(AddAdmin),
    HashPassword(HashPassword),
    InsertDemo(InsertDemo),
}

/// Run the server process.
#[derive(Debug, Copy, Clone, PartialEq, Eq, Structural)]
pub struct Server {}

impl Args {
    /// What a start is taken to ask for: the command that the arguments
    /// name if any argument was given, and to run the server otherwise.
    pub fn or_server(given: Option<Args>) -> (args: Args)
        ensures
            args == match given {
                Some(a) => a,
                None => Args { command: Subcommand::Server(Server {  }) },
            },
    {
        match given {
            Some(a) => a,
            None => Args { command: Subcommand::Server(Server {  }) },
        }
    }
}

} // verus!
