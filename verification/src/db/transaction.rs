//! How a unit of work on the tables begins and ends.

use vstd::prelude::*;

verus! {

/// What a unit of work intends to do with the tables.
#[derive(Debug, Copy, Clone, PartialEq, Eq, Structural)]
pub enum TransactionMode {
    /// It only reads.
    Read,
    /// It may write.
    Write,
}

/// When a transaction takes its lock on the database.
#[derive(Debug, Copy, Clone, PartialEq, Eq, Structural)]
pub enum TransactionBehavior {
    /// When it first touches a table.
    Deferred,
    /// When it begins.
    Immediate,
}

/// How a transaction ends.
#[derive(Debug, Copy, Clone, PartialEq, Eq, Structural)]
pub enum TransactionEnd {
    /// What the work did is kept.
    Commit,
    /// What the work did is dropped, and its error is handed on.
    Abandon,
}

impl TransactionMode {
    /// How a transaction of this mode begins: a reading one takes its lock
    /// late, a writing one at once.
    pub fn behavior(self) -> (b: TransactionBehavior)
        ensures
            b == match self {
                TransactionMode::Read => TransactionBehavior::Deferred,
                TransactionMode::Write => TransactionBehavior::Immediate,
            },
    {
        match self {
            TransactionMode::Read => TransactionBehavior::Deferred,
            TransactionMode::Write => TransactionBehavior::Immediate,
        }
    }
}

/// How the transaction ends whose work returned `result`: it commits
/// exactly when the work succeeded.
pub fn transaction_end<T, E>(result: &Result<T, E>) -> (end: TransactionEnd)
    ensures
        end == if result.is_ok() {
            TransactionEnd::Commit
        } else {
            TransactionEnd::Abandon
        },
{
    match result {
        Ok(_) => TransactionEnd::Commit,
        Err(_) => TransactionEnd::Abandon,
    }
}

} // verus!
