//! The ids that the tables hand out.

use vstd::prelude::*;
use crate::db::store::{Sequences, Store, StoreView};
use crate::error::DbFault;

verus! {

/// The tables that number their rows themselves.
#[derive(Debug, Copy, Clone, PartialEq, Eq, Structural)]
pub enum Table {
    Guild,
    Adventurer,
    Quest,
    QuestTask,
    QuestDetail,
    AuthSession,
}

impl Table {
    /// The table with the name `name`, if it is one that numbers its rows.
    pub open spec fn spec_from_name(name: Seq<char>) -> Option<Table> {
        if name == "Guild"@ {
            Some(Table::Guild)
        } else if name == "Adventurer"@ {
            Some(Table::Adventurer)
        } else if name == "Quest"@ {
            Some(Table::Quest)
        } else if name == "QuestTask"@ {
            Some(Table::QuestTask)
        } else if name == "QuestDetail"@ {
            Some(Table::QuestDetail)
        } else if name == "AuthSession"@ {
            Some(Table::AuthSession)
        } else {
            None
        }
    }

    /// The table with the name `name`, if it is one that numbers its rows.
    pub fn from_name(name: &str) -> (t: Option<Table>)
        ensures
            t == Self::spec_from_name(name@),
    {
        let name = name.to_owned();
        if name == "Guild".to_owned() {
            Some(Table::Guild)
        } else if name == "Adventurer".to_owned() {
            Some(Table::Adventurer)
        } else if name == "Quest".to_owned() {
            Some(Table::Quest)
        } else if name == "QuestTask".to_owned() {
            Some(Table::QuestTask)
        } else if name == "QuestDetail".to_owned() {
            Some(Table::QuestDetail)
        } else if name == "AuthSession".to_owned() {
            Some(Table::AuthSession)
        } else {
            None
        }
    }
}

impl Sequences {
    /// The last id handed out in `table`; 0 where none was.
    pub open spec fn spec_last(self, table: Table) -> u32 {
        match table {
            Table::Guild => self.guild,
            Table::Adventurer => self.adventurer,
            Table::Quest => self.quest,
            Table::QuestTask => self.quest_task,
            Table::QuestDetail => self.quest_detail,
            Table::AuthSession => self.auth_session,
        }
    }

    /// The last id handed out in `table`; 0 where none was.
    pub fn last(&self, table: Table) -> (id: u32)
        ensures
            id == self.spec_last(table),
    {
        match table {
            Table::Guild => self.guild,
            Table::Adventurer => self.adventurer,
            Table::Quest => self.quest,
            Table::QuestTask => self.quest_task,
            Table::QuestDetail => self.quest_detail,
            Table::AuthSession => self.auth_session,
        }
    }
}

impl StoreView {
    /// The id that the next row of the table named `table_name` gets. No
    /// id is foretold for a table that does not number its rows, nor for
    /// one that has not numbered any yet.
    pub open spec fn next_insert_id(self, table_name: Seq<char>) -> Result<i64, DbFault> {
        match Table::spec_from_name(table_name) {
            Some(table) => if self.sequences.spec_last(table) == 0 {
                Err(DbFault::QueryReturnedNoRows)
            } else {
                Ok((self.sequences.spec_last(table) + 1) as i64)
            },
            None => Err(DbFault::QueryReturnedNoRows),
        }
    }
}

/// Foretells the id that the next row of the table named `table_name`
/// gets. This holds only as long as nobody else inserts in between.
pub fn next_insert_id(store: &Store, table_name: &str) -> (r: Result<i64, DbFault>)
    ensures
        r == store@.next_insert_id(table_name@),
{
    match Table::from_name(table_name) {
        Some(table) => {
            let last = store.sequences.last(table);
            if last == 0 {
                Err(DbFault::QueryReturnedNoRows)
            } else {
                Ok(last as i64 + 1)
            }
        },
        None => Err(DbFault::QueryReturnedNoRows),
    }
}

} // verus!
