use dei_adventures::auth::account::{create_account_with, Email, Name};
use dei_adventures::db::rows::{AdventurerRoleRow, AssignedRole, GuildRow};
use dei_adventures::db::store::Store;
use dei_adventures::error::{DbFault, Error};
use dei_adventures::guild::{
    create_guild, create_guild_quest_action, get_all_guilds_quest_actions, get_guild_leader,
    get_guild_name, get_guild_quest_actions, get_guilds, lookup_guild_quest_actions,
    set_guild_leader, set_guild_name, update_guild, CreateGuild, CreateGuildQuestAction,
    CreatedGuildQuestAction, GetGuildLeader, Guild, GuildQuestAction, GuildQuestActionsBundle,
    SetGuildLeader, UpdateGuild,
};
use dei_adventures::ids::{GuildId, QuestId, UserId};
use dei_adventures::participation::{get_guild_participation, get_quest_action_participation};
use dei_adventures::quest::{accept_quest, cancel_quest, complete_quest};

const NOW: i64 = 1_700_000_000;

fn adventurer(store: &mut Store, name: &str, email: &str) -> UserId {
    create_account_with(
        store,
        Name::from_str(name),
        Email::from_str(email),
        Ok(("stored-hash".to_string(), "stored-salt".to_string())),
    )
    .unwrap()
}

fn plain_action(name: &str, xp: u32) -> CreateGuildQuestAction {
    CreateGuildQuestAction {
        name: name.to_string(),
        description: None,
        adventurer_note: None,
        xp,
        repeatable: false,
    }
}

#[test]
fn guild_ids_count_up_from_one() {
    let mut store = Store::new();
    assert_eq!(
        create_guild(&mut store, CreateGuild { name: "G1".to_string(), leader_id: None }),
        Ok(GuildId(1))
    );
    assert_eq!(
        create_guild(&mut store, CreateGuild { name: "G2".to_string(), leader_id: None }),
        Ok(GuildId(2))
    );
    assert_eq!(
        store.guilds,
        vec![
            GuildRow { id: GuildId(1), name: "G1".to_string() },
            GuildRow { id: GuildId(2), name: "G2".to_string() },
        ]
    );
    assert!(store.adventurer_roles.is_empty());
}

#[test]
fn guild_created_with_a_leader_has_that_leader() {
    let mut store = Store::new();
    let ada = adventurer(&mut store, "Ada", "ada@example.org");
    let g = create_guild(&mut store, CreateGuild { name: "G1".to_string(), leader_id: Some(ada) })
        .unwrap();
    assert_eq!(
        store.adventurer_roles,
        vec![AdventurerRoleRow {
            adventurer_id: ada,
            guild_id: g,
            assigned_role: AssignedRole::Leader
        }]
    );
    assert_eq!(get_guild_leader(&store, g), Some(GetGuildLeader { id: ada }));
    assert_eq!(
        get_guilds(&store),
        vec![Guild {
            id: g,
            name: "G1".to_string(),
            leader_id: Some(ada),
            leader_name: Some("Ada".to_string())
        }]
    );
}

#[test]
fn no_guild_is_created_once_ids_have_run_out() {
    let mut store = Store::new();
    store.sequences.guild = u32::MAX;
    assert_eq!(
        create_guild(&mut store, CreateGuild { name: "late".to_string(), leader_id: None }),
        Err(Error::DbError(DbFault::IdsExhausted))
    );
    assert!(store.guilds.is_empty());
}

#[test]
fn a_guild_has_one_leader_at_a_time() {
    let mut store = Store::new();
    let ada = adventurer(&mut store, "Ada", "ada@example.org");
    let bob = adventurer(&mut store, "Bob", "bob@example.org");
    let g = create_guild(&mut store, CreateGuild { name: "G1".to_string(), leader_id: Some(ada) })
        .unwrap();
    let h = create_guild(&mut store, CreateGuild { name: "G2".to_string(), leader_id: Some(ada) })
        .unwrap();
    assert_eq!(set_guild_leader(&mut store, g, SetGuildLeader { id: Some(bob) }), Ok(()));
    assert_eq!(get_guild_leader(&store, g), Some(GetGuildLeader { id: bob }));
    assert_eq!(get_guild_leader(&store, h), Some(GetGuildLeader { id: ada }));
    assert_eq!(store.adventurer_roles.iter().filter(|r| r.guild_id == g).count(), 1);
    assert_eq!(set_guild_leader(&mut store, g, SetGuildLeader { id: None }), Ok(()));
    assert_eq!(get_guild_leader(&store, g), None);
    assert_eq!(store.adventurer_roles.len(), 1);
    assert!(store.is_well_formed());
}

#[test]
fn setting_a_leader_refuses_unknown_guild_and_unknown_adventurer() {
    let mut store = Store::new();
    let ada = adventurer(&mut store, "Ada", "ada@example.org");
    let g = create_guild(&mut store, CreateGuild { name: "G1".to_string(), leader_id: Some(ada) })
        .unwrap();
    let before = store.clone();
    assert_eq!(
        set_guild_leader(&mut store, GuildId(5), SetGuildLeader { id: Some(ada) }),
        Err(Error::GuildNotFound { id: Some(GuildId(5)) })
    );
    assert_eq!(
        set_guild_leader(&mut store, g, SetGuildLeader { id: Some(UserId(6)) }),
        Err(Error::AdventurerNotFound { id: Some(UserId(6)) })
    );
    assert_eq!(store, before);
}

#[test]
fn update_changes_name_and_leader_or_nothing() {
    let mut store = Store::new();
    let ada = adventurer(&mut store, "Ada", "ada@example.org");
    let bob = adventurer(&mut store, "Bob", "bob@example.org");
    let g = create_guild(&mut store, CreateGuild { name: "G1".to_string(), leader_id: Some(ada) })
        .unwrap();
    let before = store.clone();
    assert_eq!(
        update_guild(
            &mut store,
            g,
            UpdateGuild { name: "renamed".to_string(), leader_id: Some(UserId(9)) }
        ),
        Err(Error::AdventurerNotFound { id: Some(UserId(9)) })
    );
    assert_eq!(store, before);
    assert_eq!(
        update_guild(
            &mut store,
            GuildId(4),
            UpdateGuild { name: "renamed".to_string(), leader_id: None }
        ),
        Err(Error::GuildNotFound { id: Some(GuildId(4)) })
    );
    assert_eq!(store, before);
    assert_eq!(
        update_guild(
            &mut store,
            g,
            UpdateGuild { name: "renamed".to_string(), leader_id: Some(bob) }
        ),
        Ok(())
    );
    assert_eq!(get_guild_name(&store, g), Ok("renamed".to_string()));
    assert_eq!(get_guild_leader(&store, g), Some(GetGuildLeader { id: bob }));
    assert_eq!(store.adventurer_roles.len(), 1);
}

#[test]
fn guild_names_are_read_and_set_by_id() {
    let mut store = Store::new();
    let g = create_guild(&mut store, CreateGuild { name: "G1".to_string(), leader_id: None })
        .unwrap();
    let h = create_guild(&mut store, CreateGuild { name: "G2".to_string(), leader_id: None })
        .unwrap();
    assert_eq!(set_guild_name(&mut store, h, "Bakers".to_string()), Ok(()));
    assert_eq!(get_guild_name(&store, g), Ok("G1".to_string()));
    assert_eq!(get_guild_name(&store, h), Ok("Bakers".to_string()));
    assert_eq!(
        get_guild_name(&store, GuildId(3)),
        Err(Error::GuildNotFound { id: Some(GuildId(3)) })
    );
    assert_eq!(
        set_guild_name(&mut store, GuildId(3), "nobody".to_string()),
        Err(Error::GuildNotFound { id: Some(GuildId(3)) })
    );
}

#[test]
fn a_leader_who_is_no_adventurer_is_listed_without_a_name() {
    let mut store = Store::new();
    let g = create_guild(
        &mut store,
        CreateGuild { name: "G1".to_string(), leader_id: Some(UserId(31)) },
    )
    .unwrap();
    assert_eq!(
        get_guilds(&store),
        vec![Guild {
            id: g,
            name: "G1".to_string(),
            leader_id: Some(UserId(31)),
            leader_name: None
        }]
    );
    assert_eq!(get_guild_leader(&store, GuildId(8)), None);
}

#[test]
fn published_action_is_a_template_with_one_task() {
    let mut store = Store::new();
    let g = create_guild(&mut store, CreateGuild { name: "G1".to_string(), leader_id: None })
        .unwrap();
    let created = create_guild_quest_action(
        &mut store,
        g,
        CreateGuildQuestAction {
            name: "Plant a tree".to_string(),
            description: Some("an oak".to_string()),
            adventurer_note: Some("dig deep".to_string()),
            xp: 10,
            repeatable: true,
        },
    );
    assert_eq!(created, Ok(CreatedGuildQuestAction { quest_id: QuestId(1) }));
    assert_eq!(
        get_guild_quest_actions(&store, g),
        Ok(vec![GuildQuestAction {
            id: QuestId(1),
            name: "Plant a tree".to_string(),
            description: Some("an oak".to_string()),
            adventurer_note: Some("dig deep".to_string()),
            xp: 10,
            repeatable: true,
        }])
    );
    assert_eq!(store.quest_tasks.len(), 1);
    assert_eq!(store.quest_tasks[0].order_index, 0);
    assert_eq!(store.quests[0].parent_quest_id, None);
    assert_eq!(store.quests[0].name, None);
    assert!(store.is_well_formed());
}

#[test]
fn nothing_is_published_once_ids_have_run_out() {
    let mut store = Store::new();
    let g = create_guild(&mut store, CreateGuild { name: "G1".to_string(), leader_id: None })
        .unwrap();
    store.sequences.quest = u32::MAX;
    let before = store.clone();
    assert_eq!(
        create_guild_quest_action(&mut store, g, plain_action("late", 1)),
        Err(Error::DbError(DbFault::IdsExhausted))
    );
    assert_eq!(store, before);
}

#[test]
fn guild_listing_leaves_out_other_guilds_instances_and_retired_actions() {
    let mut store = Store::new();
    let ada = adventurer(&mut store, "Ada", "ada@example.org");
    let g = create_guild(&mut store, CreateGuild { name: "G1".to_string(), leader_id: None })
        .unwrap();
    let h = create_guild(&mut store, CreateGuild { name: "G2".to_string(), leader_id: None })
        .unwrap();
    let a = create_guild_quest_action(&mut store, g, plain_action("a", 1)).unwrap().quest_id;
    let b = create_guild_quest_action(&mut store, h, plain_action("b", 2)).unwrap().quest_id;
    let c = create_guild_quest_action(&mut store, g, plain_action("c", 3)).unwrap().quest_id;
    accept_quest(&mut store, ada, a).unwrap();
    let ids = |store: &Store, guild| -> Vec<QuestId> {
        get_guild_quest_actions(store, guild).unwrap().iter().map(|x| x.id).collect()
    };
    assert_eq!(ids(&store, g), vec![a, c]);
    assert_eq!(ids(&store, h), vec![b]);
    assert_eq!(lookup_guild_quest_actions(&store, GuildId(7)), Ok(None));
    assert_eq!(
        get_guild_quest_actions(&store, GuildId(7)),
        Err(Error::GuildNotFound { id: Some(GuildId(7)) })
    );
    let bundles = get_all_guilds_quest_actions(&store).unwrap();
    assert_eq!(
        bundles,
        vec![
            GuildQuestActionsBundle {
                guild_id: g,
                guild_title: "G1".to_string(),
                guild_quest_actions: get_guild_quest_actions(&store, g).unwrap(),
            },
            GuildQuestActionsBundle {
                guild_id: h,
                guild_title: "G2".to_string(),
                guild_quest_actions: get_guild_quest_actions(&store, h).unwrap(),
            },
        ]
    );
}

#[test]
fn participation_lists_who_holds_an_instance_and_leaves_out_who_cancelled() {
    let mut store = Store::new();
    let ada = adventurer(&mut store, "Ada", "ada@example.org");
    let bob = adventurer(&mut store, "Bob", "bob@example.org");
    let cyd = adventurer(&mut store, "Cyd", "cyd@example.org");
    let g = create_guild(&mut store, CreateGuild { name: "G1".to_string(), leader_id: None })
        .unwrap();
    let a = create_guild_quest_action(&mut store, g, plain_action("a", 1)).unwrap().quest_id;
    let b = create_guild_quest_action(&mut store, g, plain_action("b", 2)).unwrap().quest_id;
    let adas = accept_quest(&mut store, ada, a).unwrap().quest_id;
    let bobs = accept_quest(&mut store, bob, a).unwrap().quest_id;
    let _cyds = accept_quest(&mut store, cyd, b).unwrap().quest_id;
    complete_quest(&mut store, ada, adas, NOW).unwrap();
    let of_a = get_quest_action_participation(&store, a).unwrap();
    assert_eq!(of_a.quest_id, a);
    assert_eq!(of_a.adventurers.len(), 2);
    assert_eq!(of_a.adventurers[0].user.id, ada);
    assert_eq!(of_a.adventurers[0].user.name, "Ada");
    assert_eq!(of_a.adventurers[0].quest_name, "a");
    assert_eq!(of_a.adventurers[0].quest_description, None);
    assert_eq!(of_a.adventurers[0].accepted_date, None);
    assert_eq!(of_a.adventurers[0].completed_date.unwrap().0.get(), NOW * 1000);
    assert_eq!(of_a.adventurers[0].adventurer_note, None);
    assert_eq!(of_a.adventurers[1].user.id, bob);
    assert_eq!(of_a.adventurers[1].completed_date, None);

    cancel_quest(&mut store, bob, bobs, NOW).unwrap();
    let of_a = get_quest_action_participation(&store, a).unwrap();
    assert_eq!(of_a.adventurers.len(), 1);
    assert_eq!(of_a.adventurers[0].user.id, ada);

    let whole = get_guild_participation(&store, g).unwrap();
    assert_eq!(whole.quest_actions.len(), 2);
    assert_eq!(whole.quest_actions[0], of_a);
    assert_eq!(whole.quest_actions[1].quest_id, b);
    assert_eq!(whole.quest_actions[1].adventurers.len(), 1);
    assert_eq!(whole.quest_actions[1].adventurers[0].user.id, cyd);
    assert_eq!(
        get_guild_participation(&store, GuildId(12)),
        Err(Error::GuildNotFound { id: Some(GuildId(12)) })
    );
    assert_eq!(get_quest_action_participation(&store, QuestId(99)).unwrap().adventurers.len(), 0);
}
