use dei_adventures::auth::account::{create_account_with, Email, Name};
use dei_adventures::db::rows::{AssignedRole, PermissionRow};
use dei_adventures::db::store::Store;
use dei_adventures::error::{DbFault, Error};
use dei_adventures::guild::{create_guild, CreateGuild};
use dei_adventures::ids::UserId;
use dei_adventures::perm::{
    set_perm_endpoint, set_user_accepted, set_user_eligible_guild_leader, set_user_rejected,
    set_user_superuser, SetPerm,
};
use dei_adventures::permission::PermissionType;
use dei_adventures::user::{
    get_allowed_guild_leaders, get_user, get_users, AllowedGuildLeader, Permission, Role,
    UserSummary,
};

fn adventurer(store: &mut Store, name: &str, email: &str) -> UserId {
    create_account_with(
        store,
        Name::from_str(name),
        Email::from_str(email),
        Ok(("stored-hash".to_string(), "stored-salt".to_string())),
    )
    .unwrap()
}

#[test]
fn summaries_show_roles_and_permissions_in_table_order() {
    let mut store = Store::new();
    let ada = adventurer(&mut store, "Ada", "ada@example.org");
    let bob = adventurer(&mut store, "Bob", "bob@example.org");
    let g = create_guild(&mut store, CreateGuild { name: "G1".to_string(), leader_id: Some(ada) })
        .unwrap();
    let h = create_guild(&mut store, CreateGuild { name: "G2".to_string(), leader_id: Some(ada) })
        .unwrap();
    set_user_superuser(&mut store, ada, SetPerm { set: true });
    set_user_accepted(&mut store, bob, SetPerm { set: true });
    set_user_accepted(&mut store, ada, SetPerm { set: true });

    let expected_ada = UserSummary {
        id: ada,
        name: "Ada".to_string(),
        roles: vec![
            Role { guild_id: g, name: AssignedRole::Leader },
            Role { guild_id: h, name: AssignedRole::Leader },
        ],
        permissions: vec![
            Permission { permission_type: PermissionType::SuperUser },
            Permission { permission_type: PermissionType::Approved },
        ],
    };
    let expected_bob = UserSummary {
        id: bob,
        name: "Bob".to_string(),
        roles: vec![],
        permissions: vec![Permission { permission_type: PermissionType::Approved }],
    };
    assert_eq!(get_user(&store, ada), Ok(expected_ada.clone()));
    assert_eq!(get_user(&store, bob), Ok(expected_bob.clone()));
    assert_eq!(get_users(&store), vec![expected_ada, expected_bob]);
    assert_eq!(
        get_user(&store, UserId(3)),
        Err(Error::AdventurerNotFound { id: Some(UserId(3)) })
    );
    assert_eq!(AssignedRole::Leader.as_str(), "leader");
}

#[test]
fn each_endpoint_sets_its_own_flag() {
    let mut store = Store::new();
    let user = UserId(4);
    set_user_accepted(&mut store, user, SetPerm { set: true });
    assert_eq!(
        store.permissions,
        vec![PermissionRow { adventurer_id: user, permission_type: PermissionType::Approved }]
    );
    set_user_rejected(&mut store, user, SetPerm { set: true });
    assert_eq!(
        store.permissions,
        vec![PermissionRow { adventurer_id: user, permission_type: PermissionType::Rejected }]
    );
    set_user_superuser(&mut store, user, SetPerm { set: true });
    set_user_eligible_guild_leader(&mut store, user, SetPerm { set: true });
    assert_eq!(
        store.permissions,
        vec![
            PermissionRow { adventurer_id: user, permission_type: PermissionType::Rejected },
            PermissionRow { adventurer_id: user, permission_type: PermissionType::SuperUser },
            PermissionRow {
                adventurer_id: user,
                permission_type: PermissionType::GuildLeaderEligible
            },
        ]
    );
    set_user_rejected(&mut store, user, SetPerm { set: false });
    set_user_superuser(&mut store, user, SetPerm { set: false });
    set_perm_endpoint(&mut store, user, PermissionType::GuildLeaderEligible, false);
    assert!(store.permissions.is_empty());
}

#[test]
fn allowed_leaders_are_the_eligible_and_the_super_users_each_once() {
    let mut store = Store::new();
    let ada = adventurer(&mut store, "Ada", "ada@example.org");
    let bob = adventurer(&mut store, "Bob", "bob@example.org");
    let cyd = adventurer(&mut store, "Cyd", "cyd@example.org");
    set_user_eligible_guild_leader(&mut store, cyd, SetPerm { set: true });
    set_user_accepted(&mut store, bob, SetPerm { set: true });
    set_user_superuser(&mut store, ada, SetPerm { set: true });
    set_user_eligible_guild_leader(&mut store, ada, SetPerm { set: true });
    assert_eq!(
        get_allowed_guild_leaders(&store),
        Ok(vec![
            AllowedGuildLeader { id: ada, name: "Ada".to_string() },
            AllowedGuildLeader { id: cyd, name: "Cyd".to_string() },
        ])
    );
    set_user_superuser(&mut store, UserId(40), SetPerm { set: true });
    assert_eq!(
        get_allowed_guild_leaders(&store),
        Err(Error::DbError(DbFault::QueryReturnedNoRows))
    );
}
