//! Bringing stored tables up to the current schema version, step by step.

use vstd::prelude::*;

verus! {

/// The number that marks a database as this application's.
pub const APPLICATION_ID: u32 = 249251854;

/// How many migrations there are. The migration at position `i` brings
/// the schema to version `i + 1`.
pub const MIGRATION_COUNT: usize = 2;

/// A step from one schema version to the next.
#[derive(Debug, Copy, Clone, PartialEq, Eq)]
pub struct Migration {
    pub name: &'static str,
    pub description: &'static str,
}

/// What to do with a database that was just opened.
#[derive(Debug, Copy, Clone, PartialEq, Eq, Structural)]
pub enum OpenAction {
    /// The database is new: create the tables.
    Initialize,
    /// The database is this application's: use it as it is.
    Proceed,
}

/// How a migration ends once its script has run.
#[derive(Debug, Copy, Clone, PartialEq, Eq, Structural)]
pub enum MigrationEnd {
    /// Keep what the script did. The migration has succeeded.
    Commit,
    /// Undo what the script did. The migration has failed with the
    /// script's error.
    Rollback,
}

/// The migration at position `i`.
pub fn migration(i: usize) -> (m: Migration)
    requires
        i < MIGRATION_COUNT,
    ensures
        i == 0 ==> m.name@ == "add_repeatable_quests"@ && m.description@
            == "adding repeatable quests"@,
        i == 1 ==> m.name@ == "add_adventurer_notes"@ && m.description@
            == "adding adventurer notes"@,
{
    if i == 0 {
        Migration { name: "add_repeatable_quests", description: "adding repeatable quests" }
    } else {
        Migration { name: "add_adventurer_notes", description: "adding adventurer notes" }
    }
}

/// The position of the first migration that a database at the schema
/// version `version` still needs; [`MIGRATION_COUNT`] where it needs none.
pub open spec fn spec_first_pending(version: i64) -> int {
    if version <= 0 {
        0
    } else if version >= MIGRATION_COUNT {
        MIGRATION_COUNT as int
    } else {
        version as int
    }
}

/// The positions of the migrations that a database at the schema version
/// `version` still needs: every one whose target version is beyond
/// `version`, in ascending order.
pub open spec fn spec_pending_migrations(version: i64) -> Seq<usize> {
    Seq::new(
        (MIGRATION_COUNT - spec_first_pending(version)) as nat,
        |k: int| (spec_first_pending(version) + k) as usize,
    )
}

/// The positions of the migrations that a database at the schema version
/// `version` still needs, in the order in which to run them.
pub fn pending_migrations(version: i64) -> (r: Vec<usize>)
    ensures
        r@ == spec_pending_migrations(version),
        forall|i: int|
            0 <= i < MIGRATION_COUNT ==> (i + 1 > version <==> #[trigger] r@.contains(i as usize)),
{
    let first: usize = if version <= 0 {
        0
    } else if version >= 2 {
        MIGRATION_COUNT
    } else {
        1
    };
    let mut out: Vec<usize> = Vec::new();
    let mut i: usize = first;
    while i < MIGRATION_COUNT
        invariant
            first <= i <= MIGRATION_COUNT,
            first == spec_first_pending(version),
            out@.len() == i - first,
            forall|k: int| 0 <= k < out@.len() ==> out@[k] == first + k,
        decreases MIGRATION_COUNT - i,
    {
        out.push(i);
        i += 1;
    }
    assert(out@ =~= spec_pending_migrations(version));
    assert forall|i: int| 0 <= i < MIGRATION_COUNT implies (i + 1 > version
        <==> #[trigger] out@.contains(i as usize)) by {
        if i + 1 > version {
            assert(out@[i - first] == i as usize);
        }
    }
    out
}

/// What to do with a database whose application id is `app_id`. An id
/// that is neither unset nor this application's belongs to somebody else's
/// database, which must not be touched.
pub fn open_action(app_id: u32) -> (action: OpenAction)
    requires
        app_id == 0 || app_id == APPLICATION_ID,
    ensures
        action == if app_id == 0 {
            OpenAction::Initialize
        } else {
            OpenAction::Proceed
        },
{
    if app_id == 0 {
        OpenAction::Initialize
    } else {
        OpenAction::Proceed
    }
}

/// How a migration ends whose script ran with or without an error.
pub fn migration_end(script_succeeded: bool) -> (end: MigrationEnd)
    ensures
        end == if script_succeeded {
            MigrationEnd::Commit
        } else {
            MigrationEnd::Rollback
        },
{
    if script_succeeded {
        MigrationEnd::Commit
    } else {
        MigrationEnd::Rollback
    }
}

impl MigrationEnd {
    /// The statement that ends the migration.
    pub fn statement(self) -> (sql: &'static str)
        ensures
            sql@ == match self {
                MigrationEnd::Commit => "COMMIT;"@,
                MigrationEnd::Rollback => "ROLLBACK;"@,
            },
    {
        match self {
            MigrationEnd::Commit => "COMMIT;",
            MigrationEnd::Rollback => "ROLLBACK;",
        }
    }
}

} // verus!
