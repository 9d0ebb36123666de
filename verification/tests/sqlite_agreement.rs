//! The operations side by side with SQLite: each scenario is run once as
//! SQL statements on a database in memory and once on a store, and the
//! tables and listings of the two are compared.

use dei_adventures::auth::account::{create_account_with, Email, Name};
use dei_adventures::db::rows::{PartyMemberRow, PermissionRow, QuestType};
use dei_adventures::db::store::Store;
use dei_adventures::guild::{
    create_guild, create_guild_quest_action, get_guild_quest_actions, retire_guild_quest_action,
    CreateGuild, CreateGuildQuestAction,
};
use dei_adventures::ids::{GuildId, QuestId, UserId};
use dei_adventures::permission::PermissionType;
use dei_adventures::quest::{
    accept_quest, cancel_quest, complete_quest, get_user_accepted_quest_actions,
    get_user_available_quest_actions, get_user_completed_quest_actions,
};
use rusqlite::{Connection, ToSql};

const SCHEMA: &str = "
CREATE TABLE Guild (id INTEGER PRIMARY KEY AUTOINCREMENT, name TEXT NOT NULL);
CREATE TABLE Adventurer (
    id INTEGER PRIMARY KEY AUTOINCREMENT,
    name TEXT NOT NULL,
    email_address TEXT NOT NULL UNIQUE,
    password_hash TEXT NOT NULL,
    password_salt TEXT NOT NULL
);
CREATE TABLE Quest (
    id INTEGER PRIMARY KEY AUTOINCREMENT,
    guild_id INTEGER NOT NULL,
    parent_quest_id INTEGER,
    name TEXT,
    quest_type INTEGER NOT NULL,
    repeatable INTEGER NOT NULL DEFAULT 0,
    open_date INTEGER,
    close_date INTEGER,
    deleted_date INTEGER
);
CREATE TABLE QuestTask (
    id INTEGER PRIMARY KEY AUTOINCREMENT,
    quest_id INTEGER NOT NULL,
    order_index INTEGER NOT NULL DEFAULT 0,
    name TEXT NOT NULL,
    description TEXT,
    adventurer_note TEXT,
    xp INTEGER NOT NULL
);
CREATE TABLE QuestDetail (
    id INTEGER PRIMARY KEY AUTOINCREMENT,
    quest_id INTEGER NOT NULL,
    description TEXT NOT NULL
);
CREATE TABLE PartyMember (adventurer_id INTEGER NOT NULL, quest_id INTEGER NOT NULL);
CREATE TABLE Permission (
    adventurer_id INTEGER NOT NULL,
    permission_type INTEGER NOT NULL,
    PRIMARY KEY (adventurer_id, permission_type)
);
";

const NOW: i64 = 1_700_000_000;

/// A database and a store that are told the same things.
struct Pair {
    db: Connection,
    store: Store,
}

fn run(db: &Connection, sql: &str, params: &[(&str, &dyn ToSql)]) -> usize {
    db.execute(sql, params).unwrap()
}

fn ids(db: &Connection, sql: &str, params: &[(&str, &dyn ToSql)]) -> Vec<u32> {
    let mut query = db.prepare(sql).unwrap();
    let rows = query.query_map(params, |row| row.get(0)).unwrap();
    rows.map(|r| r.unwrap()).collect()
}

impl Pair {
    fn new() -> Pair {
        let db = Connection::open_in_memory().unwrap();
        db.execute_batch(SCHEMA).unwrap();
        Pair { db, store: Store::new() }
    }

    fn adventurer(&mut self, name: &str, email: &str) -> UserId {
        run(
            &self.db,
            "INSERT INTO Adventurer (name, email_address, password_hash, password_salt)
                 VALUES (:name, :email, :hash, :salt);",
            &[(":name", &name), (":email", &email), (":hash", &"h"), (":salt", &"s")],
        );
        let id = create_account_with(
            &mut self.store,
            Name::from_str(name),
            Email::from_str(email),
            Ok(("h".to_string(), "s".to_string())),
        )
        .unwrap();
        assert_eq!(i64::from(id.0), self.db.last_insert_rowid());
        id
    }

    fn guild(&mut self, name: &str) -> GuildId {
        run(&self.db, "INSERT INTO Guild (name) VALUES (:name);", &[(":name", &name)]);
        let id =
            create_guild(&mut self.store, CreateGuild { name: name.to_string(), leader_id: None })
                .unwrap();
        assert_eq!(i64::from(id.0), self.db.last_insert_rowid());
        id
    }

    fn action(&mut self, guild: GuildId, name: &str, xp: u32, repeatable: bool) -> QuestId {
        run(
            &self.db,
            "INSERT INTO Quest (guild_id, quest_type, repeatable)
                 VALUES (:guild_id, 0, :repeatable);",
            &[(":guild_id", &guild.0), (":repeatable", &repeatable)],
        );
        let quest_id = self.db.last_insert_rowid();
        let description: Option<String> = Some(format!("about {name}"));
        let note: Option<String> = None;
        run(
            &self.db,
            "INSERT INTO QuestTask (quest_id, order_index, name, description, adventurer_note, xp)
                 VALUES (:quest_id, 0, :name, :description, :adventurer_note, :xp);",
            &[
                (":quest_id", &quest_id),
                (":name", &name),
                (":description", &description),
                (":adventurer_note", &note),
                (":xp", &xp),
            ],
        );
        let id = create_guild_quest_action(
            &mut self.store,
            guild,
            CreateGuildQuestAction {
                name: name.to_string(),
                description,
                adventurer_note: note,
                xp,
                repeatable,
            },
        )
        .unwrap()
        .quest_id;
        assert_eq!(i64::from(id.0), quest_id);
        id
    }

    fn detail(&mut self, quest: QuestId, description: &str) {
        run(
            &self.db,
            "INSERT INTO QuestDetail (quest_id, description) VALUES (:quest_id, :description);",
            &[(":quest_id", &quest.0), (":description", &description)],
        );
        let id = self.store.sequences.quest_detail + 1;
        self.store.quest_details.push(dei_adventures::db::rows::QuestDetailRow {
            id,
            quest_id: quest,
            description: description.to_string(),
        });
        self.store.sequences.quest_detail = id;
    }

    fn accept(&mut self, user: UserId, quest: QuestId) -> QuestId {
        run(
            &self.db,
            "INSERT INTO Quest (guild_id, parent_quest_id, name, quest_type)
                 SELECT guild_id, :quest_id, name, 1 FROM Quest WHERE id = :quest_id;",
            &[(":quest_id", &quest.0)],
        );
        let new_id = self.db.last_insert_rowid();
        run(
            &self.db,
            "INSERT INTO QuestTask (quest_id, name, description, xp)
                 SELECT :new_id, name, description, xp FROM QuestTask WHERE quest_id = :quest_id;",
            &[(":new_id", &new_id), (":quest_id", &quest.0)],
        );
        run(
            &self.db,
            "INSERT INTO QuestDetail (quest_id, description)
                 SELECT :new_id, description FROM QuestDetail WHERE quest_id = :quest_id;",
            &[(":new_id", &new_id), (":quest_id", &quest.0)],
        );
        run(
            &self.db,
            "INSERT INTO PartyMember (adventurer_id, quest_id)
                 VALUES (:adventurer_id, :new_id);",
            &[(":adventurer_id", &user.0), (":new_id", &new_id)],
        );
        let id = accept_quest(&mut self.store, user, quest).unwrap().quest_id;
        assert_eq!(i64::from(id.0), new_id);
        id
    }

    fn complete(&mut self, user: UserId, quest: QuestId) {
        let n = run(
            &self.db,
            "UPDATE Quest SET close_date = unixepoch() WHERE id = :quest_id;",
            &[(":quest_id", &quest.0)],
        );
        assert_eq!(n, 1);
        complete_quest(&mut self.store, user, quest, NOW).unwrap();
    }

    fn cancel(&mut self, user: UserId, quest: QuestId) {
        let n = run(
            &self.db,
            "UPDATE Quest SET deleted_date = unixepoch() WHERE id = :quest_id;",
            &[(":quest_id", &quest.0)],
        );
        assert_eq!(n, 1);
        cancel_quest(&mut self.store, user, quest, NOW).unwrap();
    }

    fn retire(&mut self, guild: GuildId, quest: QuestId) {
        let n = run(
            &self.db,
            "UPDATE Quest SET deleted_date = unixepoch()
                 WHERE id = :quest_id;",
            &[(":quest_id", &quest.0)],
        );
        assert_eq!(n, 1);
        retire_guild_quest_action(&mut self.store, guild, quest, NOW).unwrap();
    }

    fn set_permission(&mut self, user: UserId, perm: PermissionType, truth: bool) {
        let code = perm.code();
        if truth {
            let n = run(
                &self.db,
                "INSERT INTO Permission (adventurer_id, permission_type)
                     VALUES (:adventurer_id, :permission_type)
                     ON CONFLICT DO NOTHING;",
                &[(":adventurer_id", &user.0), (":permission_type", &code)],
            );
            assert!(n <= 1);
            if perm == PermissionType::Approved {
                let n = run(
                    &self.db,
                    "DELETE FROM Permission
                         WHERE adventurer_id = :adventurer_id AND permission_type = 3;",
                    &[(":adventurer_id", &user.0)],
                );
                assert!(n <= 1);
            }
            if perm == PermissionType::Rejected {
                let n = run(
                    &self.db,
                    "DELETE FROM Permission
                         WHERE adventurer_id = :adventurer_id AND permission_type = 1;",
                    &[(":adventurer_id", &user.0)],
                );
                assert!(n <= 1);
            }
        } else {
            let n = run(
                &self.db,
                "DELETE FROM Permission
                     WHERE adventurer_id = :adventurer_id AND permission_type = :permission_type;",
                &[(":adventurer_id", &user.0), (":permission_type", &code)],
            );
            assert!(n <= 1);
        }
        self.store.set_user_permission(user, perm, truth);
    }

    fn stored_permissions(&self) -> Vec<PermissionRow> {
        let mut query = self
            .db
            .prepare("SELECT adventurer_id, permission_type FROM Permission ORDER BY rowid;")
            .unwrap();
        let rows = query
            .query_map([], |row| {
                let code: i64 = row.get(1)?;
                Ok(PermissionRow {
                    adventurer_id: UserId(row.get(0)?),
                    permission_type: PermissionType::column_result(code).unwrap(),
                })
            })
            .unwrap();
        rows.map(|r| r.unwrap()).collect()
    }

    /// Compares every quest table of the two, dates by whether they are set.
    fn assert_same_quest_tables(&self) {
        let mut query = self
            .db
            .prepare(
                "SELECT id, guild_id, parent_quest_id, name, quest_type, repeatable,
                        open_date IS NOT NULL, close_date IS NOT NULL, deleted_date IS NOT NULL
                     FROM Quest ORDER BY id;",
            )
            .unwrap();
        let stored: Vec<(u32, u32, Option<u32>, Option<String>, i64, bool, bool, bool, bool)> =
            query
                .query_map([], |row| {
                    Ok((
                        row.get(0)?,
                        row.get(1)?,
                        row.get(2)?,
                        row.get(3)?,
                        row.get(4)?,
                        row.get(5)?,
                        row.get(6)?,
                        row.get(7)?,
                        row.get(8)?,
                    ))
                })
                .unwrap()
                .map(|r| r.unwrap())
                .collect();
        let modelled: Vec<_> = self
            .store
            .quests
            .iter()
            .map(|q| {
                (
                    q.id.0,
                    q.guild_id.0,
                    q.parent_quest_id.map(|p| p.0),
                    q.name.clone(),
                    q.quest_type.code(),
                    q.repeatable,
                    q.open_date.is_some(),
                    q.close_date.is_some(),
                    q.deleted_date.is_some(),
                )
            })
            .collect();
        assert_eq!(stored, modelled);

        let mut query = self
            .db
            .prepare(
                "SELECT id, quest_id, order_index, name, description, adventurer_note, xp
                     FROM QuestTask ORDER BY id;",
            )
            .unwrap();
        let stored: Vec<(u32, u32, u32, String, Option<String>, Option<String>, u32)> = query
            .query_map([], |row| {
                Ok((
                    row.get(0)?,
                    row.get(1)?,
                    row.get(2)?,
                    row.get(3)?,
                    row.get(4)?,
                    row.get(5)?,
                    row.get(6)?,
                ))
            })
            .unwrap()
            .map(|r| r.unwrap())
            .collect();
        let modelled: Vec<_> = self
            .store
            .quest_tasks
            .iter()
            .map(|t| {
                (
                    t.id,
                    t.quest_id.0,
                    t.order_index,
                    t.name.clone(),
                    t.description.clone(),
                    t.adventurer_note.clone(),
                    t.xp,
                )
            })
            .collect();
        assert_eq!(stored, modelled);

        let mut query = self
            .db
            .prepare("SELECT id, quest_id, description FROM QuestDetail ORDER BY id;")
            .unwrap();
        let stored: Vec<(u32, u32, String)> = query
            .query_map([], |row| Ok((row.get(0)?, row.get(1)?, row.get(2)?)))
            .unwrap()
            .map(|r| r.unwrap())
            .collect();
        let modelled: Vec<_> = self
            .store
            .quest_details
            .iter()
            .map(|d| (d.id, d.quest_id.0, d.description.clone()))
            .collect();
        assert_eq!(stored, modelled);

        let mut query = self
            .db
            .prepare("SELECT adventurer_id, quest_id FROM PartyMember ORDER BY rowid;")
            .unwrap();
        let stored: Vec<PartyMemberRow> = query
            .query_map([], |row| {
                Ok(PartyMemberRow {
                    adventurer_id: UserId(row.get(0)?),
                    quest_id: QuestId(row.get(1)?),
                })
            })
            .unwrap()
            .map(|r| r.unwrap())
            .collect();
        assert_eq!(stored, self.store.party_members);
    }

    /// Compares what the two list for `user` and for `guild`.
    fn assert_same_listings(&self, user: UserId, guild: GuildId) {
        let available = ids(
            &self.db,
            "WITH
                wa AS (SELECT parent_quest_id FROM Quest
                       JOIN PartyMember ON Quest.id = quest_id
                       WHERE adventurer_id = :adventurer_id AND deleted_date IS NULL)
             SELECT id, guild_id, repeatable FROM Quest
             LEFT OUTER JOIN wa ON Quest.id = wa.parent_quest_id AND Quest.repeatable = 0
             WHERE wa.parent_quest_id IS NULL AND quest_type = 0 AND Quest.deleted_date IS NULL;",
            &[(":adventurer_id", &user.0)],
        );
        let modelled: Vec<u32> = get_user_available_quest_actions(&self.store, user)
            .unwrap()
            .iter()
            .map(|a| a.quest_id.0)
            .collect();
        assert_eq!(available, modelled);

        let accepted = ids(
            &self.db,
            "SELECT quest_id FROM PartyMember
                 JOIN Quest ON close_date IS NULL
                 WHERE adventurer_id = :adventurer_id AND Quest.id = quest_id
                       AND Quest.deleted_date IS NULL;",
            &[(":adventurer_id", &user.0)],
        );
        let modelled: Vec<u32> = get_user_accepted_quest_actions(&self.store, user)
            .unwrap()
            .iter()
            .map(|a| a.quest_id.0)
            .collect();
        assert_eq!(accepted, modelled);

        let completed = ids(
            &self.db,
            "SELECT quest_id, close_date, open_date FROM PartyMember
                 JOIN Quest ON close_date IS NOT NULL
                 WHERE adventurer_id = :adventurer_id AND Quest.id = quest_id
                       AND Quest.deleted_date IS NULL;",
            &[(":adventurer_id", &user.0)],
        );
        let modelled: Vec<u32> = get_user_completed_quest_actions(&self.store, user)
            .unwrap()
            .iter()
            .map(|a| a.quest_id.0)
            .collect();
        assert_eq!(completed, modelled);

        let offered = ids(
            &self.db,
            "SELECT id FROM Quest
                 WHERE guild_id = :guild_id AND deleted_date IS NULL AND quest_type = 0;",
            &[(":guild_id", &guild.0)],
        );
        let modelled: Vec<u32> = get_guild_quest_actions(&self.store, guild)
            .unwrap()
            .iter()
            .map(|a| a.id.0)
            .collect();
        assert_eq!(offered, modelled);
    }
}

#[test]
fn permissions_agree_with_sqlite_after_every_step() {
    let mut pair = Pair::new();
    let perms = [
        PermissionType::SuperUser,
        PermissionType::Approved,
        PermissionType::GuildLeaderEligible,
        PermissionType::Rejected,
    ];
    // A fixed walk through users, flags and truth values that sets and
    // clears each flag of each user several times, in varying order.
    let mut state: u32 = 12345;
    for _ in 0..300 {
        state = state.wrapping_mul(1103515245).wrapping_add(12345);
        let user = UserId(1 + (state >> 16) % 3);
        let perm = perms[((state >> 20) % 4) as usize];
        let truth = (state >> 24) % 3 != 0;
        pair.set_permission(user, perm, truth);
        assert_eq!(pair.stored_permissions(), pair.store.permissions);
        assert!(pair.store.is_well_formed());
    }
}

#[test]
fn accepting_agrees_with_sqlite() {
    let mut pair = Pair::new();
    let g = pair.guild("Gardeners");
    let h = pair.guild("Bakers");
    let ada = pair.adventurer("Ada", "ada@example.org");
    let bob = pair.adventurer("Bob", "bob@example.org");
    let tree = pair.action(g, "Plant a tree", 10, false);
    let bread = pair.action(h, "Bake bread", 3, true);
    pair.detail(tree, "bring a spade");
    pair.detail(bread, "flour is provided");
    pair.detail(tree, "wear boots");
    pair.assert_same_quest_tables();

    let first = pair.accept(ada, tree);
    pair.assert_same_quest_tables();
    let _second = pair.accept(bob, bread);
    let _third = pair.accept(ada, bread);
    pair.assert_same_quest_tables();
    let _of_an_instance = pair.accept(bob, first);
    pair.assert_same_quest_tables();
    assert_eq!(pair.store.quests.last().unwrap().quest_type, QuestType::Instance);
    assert!(pair.store.is_well_formed());
}

#[test]
fn listings_agree_with_sqlite_through_a_quest_life() {
    let mut pair = Pair::new();
    let g = pair.guild("Gardeners");
    let h = pair.guild("Bakers");
    let ada = pair.adventurer("Ada", "ada@example.org");
    let bob = pair.adventurer("Bob", "bob@example.org");
    let tree = pair.action(g, "Plant a tree", 10, false);
    let water = pair.action(g, "Water the beds", 1, true);
    let bread = pair.action(h, "Bake bread", 3, false);
    let check = |pair: &Pair| {
        for user in [ada, bob] {
            for guild in [g, h] {
                pair.assert_same_listings(user, guild);
            }
        }
        pair.assert_same_quest_tables();
    };
    check(&pair);

    let adas_tree = pair.accept(ada, tree);
    check(&pair);
    let adas_water = pair.accept(ada, water);
    let adas_other_water = pair.accept(ada, water);
    let bobs_tree = pair.accept(bob, tree);
    check(&pair);
    pair.complete(ada, adas_water);
    check(&pair);
    pair.cancel(ada, adas_tree);
    check(&pair);
    pair.complete(bob, bobs_tree);
    check(&pair);
    pair.retire(g, tree);
    check(&pair);
    let bobs_bread = pair.accept(bob, bread);
    let bobs_second_bread = pair.accept(bob, bread);
    check(&pair);
    pair.cancel(bob, bobs_bread);
    check(&pair);
    pair.cancel(bob, bobs_second_bread);
    check(&pair);
    pair.cancel(ada, adas_other_water);
    pair.retire(h, bread);
    check(&pair);
}
