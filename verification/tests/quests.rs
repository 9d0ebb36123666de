use dei_adventures::auth::account::{create_account_with, Email, Name};
use dei_adventures::db::rows::{
    PartyMemberRow, QuestDetailRow, QuestRow, QuestTaskRow, QuestType,
};
use dei_adventures::db::store::Store;
use dei_adventures::error::{DbFault, Error};
use dei_adventures::guild::{
    create_guild, create_guild_quest_action, edit_guild_quest_action, get_guild_quest_actions,
    retire_guild_quest_action, CreateGuild, CreateGuildQuestAction, EditGuildQuestAction,
};
use dei_adventures::ids::{GuildId, QuestId, UserId};
use dei_adventures::quest::{
    accept_quest, cancel_quest, complete_quest, get_user_accepted_quest_actions,
    get_user_available_quest_actions, get_user_completed_quest_actions, AcceptedQuest,
};

const NOW: i64 = 1_700_000_000;

fn adventurer(store: &mut Store, name: &str, email: &str) -> UserId {
    create_account_with(
        store,
        Name::from_str(name),
        Email::from_str(email),
        Ok(("stored-hash".to_string(), "stored-salt".to_string())),
    )
    .unwrap()
}

fn guild(store: &mut Store, name: &str) -> GuildId {
    create_guild(store, CreateGuild { name: name.to_string(), leader_id: None }).unwrap()
}

fn action(store: &mut Store, guild: GuildId, name: &str, xp: u32, repeatable: bool) -> QuestId {
    create_guild_quest_action(
        store,
        guild,
        CreateGuildQuestAction {
            name: name.to_string(),
            description: Some(format!("about {name}")),
            adventurer_note: None,
            xp,
            repeatable,
        },
    )
    .unwrap()
    .quest_id
}

fn available_ids(store: &Store, user: UserId) -> Vec<QuestId> {
    get_user_available_quest_actions(store, user).unwrap().iter().map(|a| a.quest_id).collect()
}

#[test]
fn plant_a_tree_from_creation_to_completion() {
    let mut store = Store::new();
    let g1 = guild(&mut store, "G1");
    let template = action(&mut store, g1, "Plant a tree", 10, false);
    let u1 = adventurer(&mut store, "U1", "u1@example.org");

    let accepted = accept_quest(&mut store, u1, template).unwrap();
    let i1 = accepted.quest_id;
    assert_ne!(i1, template);
    assert_eq!(accepted, AcceptedQuest { quest_id: QuestId(2) });

    assert_eq!(complete_quest(&mut store, u1, i1, NOW), Ok(()));
    let row = store.quests.iter().find(|q| q.id == i1).unwrap();
    assert_eq!(row.close_date, Some(NOW));
    assert_eq!(row.deleted_date, None);

    let completed = get_user_completed_quest_actions(&store, u1).unwrap();
    assert_eq!(completed.len(), 1);
    assert_eq!(completed[0].quest_id, i1);
    assert_eq!(completed[0].guild_id, g1);
    assert_eq!(completed[0].xp, 10);
    assert_eq!(completed[0].name, "Plant a tree");
    assert_eq!(completed[0].completed_date.get(), NOW * 1000);
    assert_eq!(completed[0].accepted_date, None);
    assert!(get_user_accepted_quest_actions(&store, u1).unwrap().is_empty());
    assert!(store.is_well_formed());
}

#[test]
fn accepting_adds_exactly_the_rows_of_an_instance() {
    let mut store = Store::new();
    let g = guild(&mut store, "Gardeners");
    let template = action(&mut store, g, "Weed the beds", 5, false);
    store.quest_details.push(QuestDetailRow {
        id: 1,
        quest_id: template,
        description: "bring gloves".to_string(),
    });
    store.quest_details.push(QuestDetailRow {
        id: 2,
        quest_id: template,
        description: "meet at the shed".to_string(),
    });
    store.sequences.quest_detail = 2;
    let user = adventurer(&mut store, "Ada", "ada@example.org");
    let before = store.clone();

    let instance = accept_quest(&mut store, user, template).unwrap().quest_id;

    assert_eq!(instance, QuestId(2));
    assert_eq!(store.quests.len(), 2);
    assert_eq!(store.quests[0], before.quests[0]);
    assert_eq!(
        store.quests[1],
        QuestRow {
            id: QuestId(2),
            guild_id: g,
            parent_quest_id: Some(template),
            name: None,
            quest_type: QuestType::Instance,
            repeatable: false,
            open_date: None,
            close_date: None,
            deleted_date: None,
        }
    );
    assert_eq!(
        store.quest_tasks,
        vec![
            before.quest_tasks[0].clone(),
            QuestTaskRow { id: 2, quest_id: instance, ..before.quest_tasks[0].clone() },
        ]
    );
    assert_eq!(
        store.quest_details,
        vec![
            before.quest_details[0].clone(),
            before.quest_details[1].clone(),
            QuestDetailRow { id: 3, quest_id: instance, description: "bring gloves".to_string() },
            QuestDetailRow {
                id: 4,
                quest_id: instance,
                description: "meet at the shed".to_string(),
            },
        ]
    );
    assert_eq!(
        store.party_members,
        vec![PartyMemberRow { adventurer_id: user, quest_id: instance }]
    );
    assert_eq!(store.sequences.quest, 2);
    assert_eq!(store.sequences.quest_task, 2);
    assert_eq!(store.sequences.quest_detail, 4);
    assert_eq!(store.guilds, before.guilds);
    assert_eq!(store.adventurers, before.adventurers);
    assert!(store.is_well_formed());
}

#[test]
fn copied_task_keeps_every_field_but_its_ids() {
    let mut store = Store::new();
    let g = guild(&mut store, "Scribes");
    let template = create_guild_quest_action(
        &mut store,
        g,
        CreateGuildQuestAction {
            name: "Copy a scroll".to_string(),
            description: Some("in a fair hand".to_string()),
            adventurer_note: Some("ink is in the cupboard".to_string()),
            xp: 42,
            repeatable: true,
        },
    )
    .unwrap()
    .quest_id;
    let user = adventurer(&mut store, "Bede", "bede@example.org");
    let instance = accept_quest(&mut store, user, template).unwrap().quest_id;
    let source = store.quest_tasks.iter().find(|t| t.quest_id == template).unwrap();
    let copy = store.quest_tasks.iter().find(|t| t.quest_id == instance).unwrap();
    assert_eq!(copy.name, source.name);
    assert_eq!(copy.description, source.description);
    assert_eq!(copy.adventurer_note, source.adventurer_note);
    assert_eq!(copy.xp, source.xp);
    assert_eq!(copy.order_index, source.order_index);
    assert_ne!(copy.id, source.id);
}

#[test]
fn unrepeatable_action_leaves_the_list_on_accept_and_returns_on_cancel() {
    let mut store = Store::new();
    let g = guild(&mut store, "Gardeners");
    let once = action(&mut store, g, "Plant a tree", 10, false);
    let other = action(&mut store, g, "Water the tree", 2, false);
    let user = adventurer(&mut store, "Ada", "ada@example.org");
    let bystander = adventurer(&mut store, "Bob", "bob@example.org");
    assert_eq!(available_ids(&store, user), vec![once, other]);

    let instance = accept_quest(&mut store, user, once).unwrap().quest_id;
    assert_eq!(available_ids(&store, user), vec![other]);
    assert_eq!(available_ids(&store, bystander), vec![once, other]);

    assert_eq!(cancel_quest(&mut store, user, instance, NOW), Ok(()));
    assert_eq!(available_ids(&store, user), vec![once, other]);
    let row = store.quests.iter().find(|q| q.id == instance).unwrap();
    assert_eq!(row.deleted_date, Some(NOW));
    assert_eq!(row.close_date, None);
}

#[test]
fn completed_instance_still_hides_an_unrepeatable_action() {
    let mut store = Store::new();
    let g = guild(&mut store, "Gardeners");
    let once = action(&mut store, g, "Plant a tree", 10, false);
    let user = adventurer(&mut store, "Ada", "ada@example.org");
    let instance = accept_quest(&mut store, user, once).unwrap().quest_id;
    complete_quest(&mut store, user, instance, NOW).unwrap();
    assert_eq!(available_ids(&store, user), Vec::<QuestId>::new());
}

#[test]
fn repeatable_action_stays_available_whatever_is_held() {
    let mut store = Store::new();
    let g = guild(&mut store, "Gardeners");
    let again = action(&mut store, g, "Water the beds", 1, true);
    let user = adventurer(&mut store, "Ada", "ada@example.org");
    for held in 0..4 {
        assert_eq!(available_ids(&store, user), vec![again]);
        accept_quest(&mut store, user, again).unwrap();
        assert_eq!(get_user_accepted_quest_actions(&store, user).unwrap().len(), held + 1);
    }
    assert_eq!(available_ids(&store, user), vec![again]);
}

#[test]
fn an_unrepeatable_action_can_be_accepted_twice_and_one_cancel_does_not_restore_it() {
    let mut store = Store::new();
    let g = guild(&mut store, "Gardeners");
    let once = action(&mut store, g, "Plant a tree", 10, false);
    let user = adventurer(&mut store, "Ada", "ada@example.org");
    let first = accept_quest(&mut store, user, once).unwrap().quest_id;
    let second = accept_quest(&mut store, user, once).unwrap().quest_id;
    assert_ne!(first, second);
    cancel_quest(&mut store, user, second, NOW).unwrap();
    assert_eq!(available_ids(&store, user), Vec::<QuestId>::new());
    cancel_quest(&mut store, user, first, NOW).unwrap();
    assert_eq!(available_ids(&store, user), vec![once]);
}

#[test]
fn accepting_an_instance_makes_an_instance_of_it() {
    let mut store = Store::new();
    let g = guild(&mut store, "Gardeners");
    let template = action(&mut store, g, "Plant a tree", 10, false);
    let user = adventurer(&mut store, "Ada", "ada@example.org");
    let first = accept_quest(&mut store, user, template).unwrap().quest_id;
    let second = accept_quest(&mut store, user, first).unwrap().quest_id;
    let row = store.quests.iter().find(|q| q.id == second).unwrap();
    assert_eq!(row.parent_quest_id, Some(first));
    assert_eq!(row.quest_type, QuestType::Instance);
    assert!(store.is_well_formed());
}

#[test]
fn accept_refuses_unknown_adventurer_then_unknown_quest() {
    let mut store = Store::new();
    let g = guild(&mut store, "Gardeners");
    let template = action(&mut store, g, "Plant a tree", 10, false);
    let user = adventurer(&mut store, "Ada", "ada@example.org");
    let before = store.clone();
    assert_eq!(
        accept_quest(&mut store, UserId(99), QuestId(98)),
        Err(Error::AdventurerNotFound { id: Some(UserId(99)) })
    );
    assert_eq!(
        accept_quest(&mut store, user, QuestId(98)),
        Err(Error::QuestNotFound { id: Some(QuestId(98)) })
    );
    assert_eq!(store, before);
    retire_guild_quest_action(&mut store, g, template, NOW).unwrap();
    assert_eq!(
        accept_quest(&mut store, user, template),
        Err(Error::QuestNotFound { id: Some(template) })
    );
}

#[test]
fn accept_leaves_nothing_behind_when_ids_run_out() {
    let mut store = Store::new();
    let g = guild(&mut store, "Gardeners");
    let template = action(&mut store, g, "Plant a tree", 10, false);
    let user = adventurer(&mut store, "Ada", "ada@example.org");
    store.sequences.quest_task = u32::MAX;
    let before = store.clone();
    assert_eq!(
        accept_quest(&mut store, user, template),
        Err(Error::DbError(DbFault::IdsExhausted))
    );
    assert_eq!(store, before);
    store.sequences.quest_task = u32::MAX - 1;
    assert_eq!(accept_quest(&mut store, user, template).map(|a| a.quest_id), Ok(QuestId(2)));
    assert_eq!(store.quest_tasks.last().unwrap().id, u32::MAX);
}

#[test]
fn complete_and_cancel_refuse_in_order() {
    let mut store = Store::new();
    let g = guild(&mut store, "Gardeners");
    let template = action(&mut store, g, "Plant a tree", 10, false);
    let owner = adventurer(&mut store, "Ada", "ada@example.org");
    let stranger = adventurer(&mut store, "Bob", "bob@example.org");
    let instance = accept_quest(&mut store, owner, template).unwrap().quest_id;
    let before = store.clone();

    for attempt in [complete_quest, cancel_quest] {
        assert_eq!(
            attempt(&mut store, UserId(77), QuestId(78), NOW),
            Err(Error::AdventurerNotFound { id: Some(UserId(77)) })
        );
        assert_eq!(
            attempt(&mut store, stranger, QuestId(78), NOW),
            Err(Error::QuestNotFound { id: Some(QuestId(78)) })
        );
        assert_eq!(
            attempt(&mut store, stranger, instance, NOW),
            Err(Error::NotQuestMember { user_id: stranger, quest_id: instance })
        );
        assert_eq!(
            attempt(&mut store, owner, template, NOW),
            Err(Error::NotQuestMember { user_id: owner, quest_id: template })
        );
        assert_eq!(store, before);
    }
}

#[test]
fn completing_refuses_a_time_that_a_client_cannot_hold() {
    let mut store = Store::new();
    let g = guild(&mut store, "Gardeners");
    let template = action(&mut store, g, "Plant a tree", 10, true);
    let user = adventurer(&mut store, "Ada", "ada@example.org");
    let stranger = adventurer(&mut store, "Bob", "bob@example.org");
    let instance = accept_quest(&mut store, user, template).unwrap().quest_id;
    let before = store.clone();
    let last = 9_007_199_254_740;
    for late in [last + 1, i64::MAX, -last - 1, i64::MIN] {
        assert_eq!(
            complete_quest(&mut store, user, instance, late),
            Err(Error::DbError(DbFault::OutOfRange(late)))
        );
        assert_eq!(
            complete_quest(&mut store, stranger, instance, late),
            Err(Error::NotQuestMember { user_id: stranger, quest_id: instance })
        );
        assert_eq!(
            complete_quest(&mut store, user, QuestId(90), late),
            Err(Error::QuestNotFound { id: Some(QuestId(90)) })
        );
    }
    assert_eq!(store, before);
    assert_eq!(complete_quest(&mut store, user, instance, last), Ok(()));
    let completed = get_user_completed_quest_actions(&store, user).unwrap();
    assert_eq!(completed[0].completed_date.get(), last * 1000);
    let second = accept_quest(&mut store, user, template).unwrap().quest_id;
    assert_eq!(complete_quest(&mut store, user, second, -last), Ok(()));
    assert!(store.is_well_formed());
}

#[test]
fn cancelled_instance_cannot_be_completed() {
    let mut store = Store::new();
    let g = guild(&mut store, "Gardeners");
    let template = action(&mut store, g, "Plant a tree", 10, true);
    let user = adventurer(&mut store, "Ada", "ada@example.org");
    let instance = accept_quest(&mut store, user, template).unwrap().quest_id;
    cancel_quest(&mut store, user, instance, NOW).unwrap();
    assert_eq!(
        complete_quest(&mut store, user, instance, NOW + 1),
        Err(Error::QuestNotFound { id: Some(instance) })
    );
    assert!(get_user_accepted_quest_actions(&store, user).unwrap().is_empty());
    assert!(get_user_completed_quest_actions(&store, user).unwrap().is_empty());
}

#[test]
fn retiring_hides_the_action_but_spares_the_instance() {
    let mut store = Store::new();
    let g = guild(&mut store, "Gardeners");
    let template = action(&mut store, g, "Plant a tree", 10, false);
    let kept = action(&mut store, g, "Water the tree", 2, false);
    let user = adventurer(&mut store, "Ada", "ada@example.org");
    let instance = accept_quest(&mut store, user, template).unwrap().quest_id;

    assert_eq!(retire_guild_quest_action(&mut store, g, template, NOW), Ok(()));
    let listed: Vec<QuestId> =
        get_guild_quest_actions(&store, g).unwrap().iter().map(|a| a.id).collect();
    assert_eq!(listed, vec![kept]);
    assert_eq!(available_ids(&store, user), vec![kept]);

    assert_eq!(complete_quest(&mut store, user, instance, NOW + 5), Ok(()));
    let completed = get_user_completed_quest_actions(&store, user).unwrap();
    assert_eq!(completed.len(), 1);
    assert_eq!(completed[0].completed_date.get(), (NOW + 5) * 1000);
}

#[test]
fn retiring_refuses_another_guilds_action() {
    let mut store = Store::new();
    let g = guild(&mut store, "Gardeners");
    let h = guild(&mut store, "Bakers");
    let template = action(&mut store, g, "Plant a tree", 10, false);
    let before = store.clone();
    assert_eq!(
        retire_guild_quest_action(&mut store, h, template, NOW),
        Err(Error::QuestNotBelongToGuild { quest_id: template, guild_id: h })
    );
    assert_eq!(
        retire_guild_quest_action(&mut store, g, QuestId(9), NOW),
        Err(Error::QuestNotFound { id: Some(QuestId(9)) })
    );
    assert_eq!(store, before);
    assert_eq!(retire_guild_quest_action(&mut store, g, template, NOW), Ok(()));
    assert_eq!(
        retire_guild_quest_action(&mut store, g, template, NOW),
        Err(Error::QuestNotFound { id: Some(template) })
    );
}

#[test]
fn accepted_listing_shows_open_instances_in_order() {
    let mut store = Store::new();
    let g = guild(&mut store, "Gardeners");
    let a = action(&mut store, g, "Plant a tree", 10, true);
    let b = action(&mut store, g, "Water the tree", 2, true);
    let user = adventurer(&mut store, "Ada", "ada@example.org");
    let other = adventurer(&mut store, "Bob", "bob@example.org");
    let first = accept_quest(&mut store, user, b).unwrap().quest_id;
    let _theirs = accept_quest(&mut store, other, a).unwrap().quest_id;
    let second = accept_quest(&mut store, user, a).unwrap().quest_id;
    let third = accept_quest(&mut store, user, a).unwrap().quest_id;
    complete_quest(&mut store, user, second, NOW).unwrap();

    let accepted = get_user_accepted_quest_actions(&store, user).unwrap();
    let ids: Vec<QuestId> = accepted.iter().map(|q| q.quest_id).collect();
    assert_eq!(ids, vec![first, third]);
    assert_eq!(accepted[0].name, "Water the tree");
    assert_eq!(accepted[0].xp, 2);
    assert_eq!(accepted[0].description, Some("about Water the tree".to_string()));
    assert_eq!(accepted[0].guild_id, g);
    assert_eq!(accepted[0].open_date, None);
    assert_eq!(
        get_user_accepted_quest_actions(&store, UserId(50)),
        Err(Error::AdventurerNotFound { id: Some(UserId(50)) })
    );
    assert_eq!(
        get_user_completed_quest_actions(&store, UserId(50)),
        Err(Error::AdventurerNotFound { id: Some(UserId(50)) })
    );
    assert_eq!(
        get_user_available_quest_actions(&store, UserId(50)),
        Err(Error::AdventurerNotFound { id: Some(UserId(50)) })
    );
}

#[test]
fn listing_fails_on_a_start_date_that_a_client_cannot_hold() {
    let mut store = Store::new();
    let g = guild(&mut store, "Gardeners");
    let a = action(&mut store, g, "Plant a tree", 10, true);
    let user = adventurer(&mut store, "Ada", "ada@example.org");
    let instance = accept_quest(&mut store, user, a).unwrap().quest_id;
    let at = store.quests.iter().position(|q| q.id == instance).unwrap();
    store.quests[at].open_date = Some(25);
    let shown = get_user_accepted_quest_actions(&store, user).unwrap();
    assert_eq!(shown[0].open_date.unwrap().0.get(), 25_000);
    assert!(store.is_well_formed());
    store.quests[at].open_date = Some(9_007_199_254_741);
    assert!(!store.is_well_formed());
    assert_eq!(
        get_user_accepted_quest_actions(&store, user),
        Err(Error::DbError(DbFault::OutOfRange(9_007_199_254_741_000)))
    );
    store.quests[at].open_date = Some(i64::MAX / 2);
    assert_eq!(
        get_user_accepted_quest_actions(&store, user),
        Err(Error::DbError(DbFault::OutOfRange(i64::MAX / 2)))
    );
}

#[test]
fn available_listing_fails_where_an_action_has_no_task() {
    let mut store = Store::new();
    let g = guild(&mut store, "Gardeners");
    let _a = action(&mut store, g, "Plant a tree", 10, true);
    let user = adventurer(&mut store, "Ada", "ada@example.org");
    store.quest_tasks.clear();
    assert!(!store.is_well_formed());
    assert_eq!(
        get_user_available_quest_actions(&store, user),
        Err(Error::DbError(DbFault::QueryReturnedNoRows))
    );
}

#[test]
fn editing_changes_the_text_of_the_action_only() {
    let mut store = Store::new();
    let g = guild(&mut store, "Gardeners");
    let a = action(&mut store, g, "Plant a tree", 10, false);
    let b = action(&mut store, g, "Water the tree", 2, false);
    let user = adventurer(&mut store, "Ada", "ada@example.org");
    let instance = accept_quest(&mut store, user, a).unwrap().quest_id;
    let edit = EditGuildQuestAction {
        quest_id: a,
        name: "Plant two trees".to_string(),
        description: None,
        adventurer_note: Some("spade needed".to_string()),
        xp: 20,
        repeatable: true,
    };
    assert_eq!(edit_guild_quest_action(&mut store, g, edit.clone()), Ok(()));
    let listed = get_guild_quest_actions(&store, g).unwrap();
    assert_eq!(listed[0].id, a);
    assert_eq!(listed[0].name, "Plant two trees");
    assert_eq!(listed[0].description, None);
    assert_eq!(listed[0].adventurer_note, Some("spade needed".to_string()));
    assert_eq!(listed[0].xp, 20);
    assert!(listed[0].repeatable);
    assert_eq!(listed[1].id, b);
    assert_eq!(listed[1].name, "Water the tree");
    let copy = store.quest_tasks.iter().find(|t| t.quest_id == instance).unwrap();
    assert_eq!(copy.name, "Plant a tree");
    assert_eq!(copy.xp, 10);
    assert_eq!(
        edit_guild_quest_action(&mut store, GuildId(9), edit.clone()),
        Err(Error::GuildNotFound { id: Some(GuildId(9)) })
    );
    assert_eq!(
        edit_guild_quest_action(
            &mut store,
            g,
            EditGuildQuestAction { quest_id: QuestId(40), ..edit }
        ),
        Err(Error::QuestNotFound { id: Some(QuestId(40)) })
    );
    assert!(store.is_well_formed());
}
