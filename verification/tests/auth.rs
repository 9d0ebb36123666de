use dei_adventures::auth::account::{
    auth_create_account, create_account, create_account_with, Email, Name,
};
use dei_adventures::auth::password::{hash_matches, HashFailure, Password};
use dei_adventures::auth::session::{
    forgot_password_answer, ResetOutcome, auth_forgot_password, auth_login, auth_login_with_token, auth_set_password, authorize,
    open_session, rehash_password, reset_mail, reset_password, store_new_password,
    SESSION_TIME_TO_LIVE,
};
use dei_adventures::auth::token::AuthToken;
use dei_adventures::command::add_admin::add_admin;
use dei_adventures::command::hash_password::{hash_password, HashPassword};
use dei_adventures::db::rows::{AdventurerRow, AuthSessionRow};
use dei_adventures::db::store::Store;
use dei_adventures::error::{DbFault, Error};
use dei_adventures::ids::UserId;
use dei_adventures::permission::PermissionType;

const NOW: i64 = 1_700_000_000;
const SALT: &str = "c29tZXNhbHRzb21lc2FsdA";

fn token(text: &str) -> AuthToken {
    AuthToken { token: text.to_string() }
}

fn plain_account(store: &mut Store, name: &str, email: &str) -> UserId {
    create_account_with(
        store,
        Name::from_str(name),
        Email::from_str(email),
        Ok(("stored-hash".to_string(), SALT.to_string())),
    )
    .unwrap()
}

#[test]
fn hash_is_the_argon2_text_of_password_and_salt() {
    let password = Password::from_str("correct horse");
    let hash = password.hash(SALT).unwrap();
    assert!(hash.starts_with("$argon2id$v=19$m=19456,t=2,p=1$c29tZXNhbHRzb21lc2FsdA$"));
    assert_ne!(hash, "correct horse");
    assert_eq!(password.hash(SALT), Ok(hash.clone()));
    assert_ne!(Password::from_str("correct horse!").hash(SALT).unwrap(), hash);
}

#[test]
fn hash_fails_on_a_salt_that_is_none() {
    let password = Password::from_str("correct horse");
    assert_eq!(password.hash("no"), Err(HashFailure));
    assert_eq!(password.hash("not a salt at all"), Err(HashFailure));
    assert_eq!(password.check_hash(&"anything".to_string(), "%%%%"), Err(HashFailure));
}

#[test]
fn check_hash_tells_the_right_password_from_a_wrong_one() {
    let right = Password::from_str("correct horse");
    let (hash, salt) = right.salty_hash().unwrap();
    assert_eq!(right.check_hash(&hash, &salt), Ok(true));
    assert_eq!(Password::from_str("wrong horse").check_hash(&hash, &salt), Ok(false));
}

#[test]
fn hash_with_returns_the_hash_beside_the_salt_it_was_given() {
    let password = Password::from_str("correct horse");
    let (hash, salt) = password.hash_with(SALT.to_string()).unwrap();
    assert_eq!(salt, SALT);
    assert_eq!(hash, password.hash(SALT).unwrap());
    assert_eq!(password.check_hash(&hash, &salt), Ok(true));
    assert_eq!(password.hash_with("no".to_string()), Err(HashFailure));
    assert_eq!(password.hash_with(String::new()), Err(HashFailure));
}

#[test]
fn salty_hash_draws_a_new_salt_each_time() {
    let password = Password::from_str("correct horse");
    let (first_hash, first_salt) = password.salty_hash().unwrap();
    let (second_hash, second_salt) = password.salty_hash().unwrap();
    assert_ne!(first_salt, second_salt);
    assert_ne!(first_hash, second_hash);
    assert_eq!(first_salt.len(), 22);
}

#[test]
fn hash_matches_compares_text() {
    let stored = "abc".to_string();
    assert_eq!(hash_matches(Some("abc".to_string()), &stored), Ok(true));
    assert_eq!(hash_matches(Some("abd".to_string()), &stored), Ok(false));
    assert_eq!(hash_matches(Some(String::new()), &stored), Ok(false));
    assert_eq!(hash_matches(None, &stored), Err(HashFailure));
}

#[test]
fn generated_tokens_are_twenty_printable_characters() {
    let mut seen = Vec::new();
    for _ in 0..50 {
        let t = AuthToken::generate();
        assert_eq!(t.token.chars().count(), 20);
        assert!(t.token.chars().all(|c| (' '..'~').contains(&c)));
        seen.push(t.token);
    }
    seen.sort();
    seen.dedup();
    assert_eq!(seen.len(), 50);
    assert!(seen.iter().any(|t| t.chars().any(|c| c != ' ')));
}

#[test]
fn header_text_carries_the_token_after_the_scheme() {
    assert_eq!(token("abc def").encode(), "Bearer abc def");
    assert!(AuthToken::decode("Bearer abc def") == token("abc def"));
    assert!(AuthToken::decode("Bearer \t  abc ") == token("abc "));
    assert!(AuthToken::decode("Bearerabc") == token("abc"));
    assert!(AuthToken::decode("Bearer") == token(""));
    assert!(AuthToken::decode("Bearer   ") == token(""));
    let t = token("!tok~en");
    assert!(AuthToken::decode(&t.encode()) == t);
}

#[test]
fn account_is_stored_with_the_credentials_given() {
    let mut store = Store::new();
    let id = create_account_with(
        &mut store,
        Name::from_str("Ada"),
        Email::from_str("ada@example.org"),
        Ok(("the-hash".to_string(), "the-salt".to_string())),
    );
    assert_eq!(id, Ok(UserId(1)));
    assert_eq!(
        store.adventurers,
        vec![AdventurerRow {
            id: UserId(1),
            name: "Ada".to_string(),
            email: "ada@example.org".to_string(),
            password_hash: "the-hash".to_string(),
            password_salt: "the-salt".to_string(),
        }]
    );
    assert_eq!(store.sequences.adventurer, 1);
    assert!(store.is_well_formed());
}

#[test]
fn account_creation_refuses_in_order() {
    let mut store = Store::new();
    plain_account(&mut store, "Ada", "ada@example.org");
    let before = store.clone();
    assert_eq!(
        create_account_with(
            &mut store,
            Name::from_str("Other"),
            Email::from_str("ada@example.org"),
            Err(HashFailure)
        ),
        Err(Error::AccountAlreadyExists)
    );
    assert_eq!(
        create_account_with(
            &mut store,
            Name::from_str("Bob"),
            Email::from_str("bob@example.org"),
            Err(HashFailure)
        ),
        Err(Error::CannotComputePasswordHash)
    );
    store.sequences.adventurer = u32::MAX;
    assert_eq!(
        create_account_with(
            &mut store,
            Name::from_str("Bob"),
            Email::from_str("bob@example.org"),
            Ok(("h".to_string(), "s".to_string()))
        ),
        Err(Error::DbError(DbFault::IdsExhausted))
    );
    store.sequences.adventurer = 1;
    assert_eq!(store, before);
}

#[test]
fn created_account_can_log_in_and_its_token_resolves() {
    let mut store = Store::new();
    let id = create_account(
        &mut store,
        Name::from_str("Ada"),
        Email::from_str("ada@example.org"),
        Password::from_str("correct horse"),
    )
    .unwrap();
    assert_eq!(
        auth_create_account(
            &mut store,
            Name::from_str("Ada again"),
            Email::from_str("ada@example.org"),
            Password::from_str("x"),
        ),
        Err(Error::AccountAlreadyExists)
    );
    let row = &store.adventurers[0];
    assert!(row.password_hash.starts_with("$argon2id$"));
    assert!(row.password_hash.contains(&row.password_salt));

    let session = auth_login(
        &mut store,
        "ada@example.org".to_string(),
        &Password::from_str("correct horse"),
        NOW,
    );
    let session = match session {
        Ok(s) => s,
        Err(e) => panic!("login failed: {e:?}"),
    };
    assert_eq!(session.id, id);
    assert_eq!(session.start_time.get(), NOW);
    assert_eq!(session.time_to_live.get(), 2_592_000);
    assert_eq!(session.token.token.chars().count(), 20);
    assert_eq!(authorize(&store, &session.token), Ok(id));
    assert_eq!(
        store.auth_sessions,
        vec![AuthSessionRow {
            id: 1,
            adventurer_id: id,
            token: session.token.token.clone(),
            start_time: NOW,
            time_to_live: SESSION_TIME_TO_LIVE,
        }]
    );
}

#[test]
fn wrong_password_is_unauthorized_and_opens_no_session() {
    let mut store = Store::new();
    create_account(
        &mut store,
        Name::from_str("Ada"),
        Email::from_str("ada@example.org"),
        Password::from_str("correct horse"),
    )
    .unwrap();
    let before = store.clone();
    let outcome = auth_login(
        &mut store,
        "ada@example.org".to_string(),
        &Password::from_str("wrong horse"),
        NOW,
    );
    assert!(matches!(outcome, Err(Error::UnauthorizedLogin)));
    assert!(store.auth_sessions.is_empty());
    assert!(store == before);
}

#[test]
fn login_of_an_unknown_address_names_the_address() {
    let mut store = Store::new();
    let outcome = auth_login_with_token(
        &mut store,
        "nobody@example.org".to_string(),
        &Password::from_str("x"),
        token("t"),
        NOW,
    );
    match outcome {
        Err(e) => {
            assert_eq!(
                e,
                Error::AdventurerNotFoundByEmail { email: "nobody@example.org".to_string() }
            )
        }
        Ok(_) => panic!("a session was opened"),
    }
}

#[test]
fn login_with_a_broken_stored_salt_is_unauthorized() {
    let mut store = Store::new();
    create_account_with(
        &mut store,
        Name::from_str("Ada"),
        Email::from_str("ada@example.org"),
        Ok(("stored-hash".to_string(), "!".to_string())),
    )
    .unwrap();
    let outcome = auth_login_with_token(
        &mut store,
        "ada@example.org".to_string(),
        &Password::from_str("x"),
        token("t"),
        NOW,
    );
    assert!(matches!(outcome, Err(Error::UnauthorizedLogin)));
}

#[test]
fn session_opens_only_after_a_check_that_passed() {
    let mut store = Store::new();
    for check in [Ok(false), Err(HashFailure)] {
        let outcome = open_session(&mut store, UserId(1), check, token("t"), NOW);
        assert!(matches!(outcome, Err(Error::UnauthorizedLogin)));
    }
    assert!(store.auth_sessions.is_empty());

    let session = match open_session(&mut store, UserId(1), Ok(true), token("first"), NOW) {
        Ok(s) => s,
        Err(e) => panic!("{e:?}"),
    };
    assert_eq!(session.id, UserId(1));
    assert!(session.token == token("first"));
    assert_eq!(session.start_time.get(), NOW);
    assert_eq!(session.time_to_live.get(), 2_592_000);
    assert_eq!(store.auth_sessions.len(), 1);
    assert_eq!(store.auth_sessions[0].id, 1);
    assert_eq!(store.auth_sessions[0].token, "first");
    assert_eq!(store.sequences.auth_session, 1);
}

#[test]
fn session_is_refused_at_a_time_that_a_client_cannot_hold() {
    let mut store = Store::new();
    let late = 9_007_199_254_740_992;
    let outcome = open_session(&mut store, UserId(1), Ok(true), token("t"), late);
    match outcome {
        Err(e) => assert_eq!(e, Error::DbError(DbFault::OutOfRange(late))),
        Ok(_) => panic!("a session was opened"),
    }
    assert!(store.auth_sessions.is_empty());
    assert!(open_session(&mut store, UserId(1), Ok(true), token("t"), late - 1).is_ok());
    store.sequences.auth_session = u32::MAX;
    let outcome = open_session(&mut store, UserId(1), Ok(true), token("u"), NOW);
    match outcome {
        Err(e) => assert_eq!(e, Error::DbError(DbFault::IdsExhausted)),
        Ok(_) => panic!("a session was opened"),
    }
}

#[test]
fn a_token_resolves_to_the_first_session_under_it() {
    let mut store = Store::new();
    assert_eq!(authorize(&store, &token("t")), Err(Error::SessionNotFound));
    assert!(open_session(&mut store, UserId(5), Ok(true), token("t"), NOW).is_ok());
    assert!(open_session(&mut store, UserId(6), Ok(true), token("u"), NOW).is_ok());
    assert!(open_session(&mut store, UserId(7), Ok(true), token("t"), NOW).is_ok());
    assert_eq!(authorize(&store, &token("t")), Ok(UserId(5)));
    assert_eq!(authorize(&store, &token("u")), Ok(UserId(6)));
    assert_eq!(authorize(&store, &token("T")), Err(Error::SessionNotFound));
    assert_eq!(authorize(&store, &token("")), Err(Error::SessionNotFound));
}

#[test]
fn a_session_outlives_its_time_to_live() {
    let mut store = Store::new();
    assert!(open_session(&mut store, UserId(5), Ok(true), token("t"), 0).is_ok());
    assert_eq!(store.auth_sessions[0].start_time + store.auth_sessions[0].time_to_live, 2_592_000);
    assert_eq!(authorize(&store, &token("t")), Ok(UserId(5)));
}

#[test]
fn stored_hash_replaces_the_old_one_of_the_target_only() {
    let mut store = Store::new();
    let ada = plain_account(&mut store, "Ada", "ada@example.org");
    let bob = plain_account(&mut store, "Bob", "bob@example.org");
    assert_eq!(store_new_password(&mut store, bob, Ok("new-hash".to_string())), Ok(()));
    assert_eq!(store.adventurers[0].password_hash, "stored-hash");
    assert_eq!(store.adventurers[1].password_hash, "new-hash");
    assert_eq!(store.adventurers[1].password_salt, SALT);
    let before = store.clone();
    assert_eq!(
        store_new_password(&mut store, ada, Err(HashFailure)),
        Err(Error::CannotComputePasswordHash)
    );
    assert_eq!(
        store_new_password(&mut store, UserId(9), Ok("x".to_string())),
        Err(Error::DbError(DbFault::QueryReturnedNoRows))
    );
    assert_eq!(
        store_new_password(&mut store, UserId(9), Err(HashFailure)),
        Err(Error::DbError(DbFault::QueryReturnedNoRows))
    );
    assert_eq!(store, before);
}

#[test]
fn rehash_keeps_the_salt_and_stores_the_hash_under_it() {
    let mut store = Store::new();
    let ada = plain_account(&mut store, "Ada", "ada@example.org");
    let password = Password::from_str("new password");
    assert_eq!(rehash_password(&mut store, ada, &password), Ok(()));
    assert_eq!(store.adventurers[0].password_salt, SALT);
    assert_eq!(store.adventurers[0].password_hash, password.hash(SALT).unwrap());
    assert_eq!(
        rehash_password(&mut store, UserId(3), &password),
        Err(Error::DbError(DbFault::QueryReturnedNoRows))
    );
}

#[test]
fn own_password_and_super_users_may_be_set_and_no_other() {
    let mut store = Store::new();
    let ada = plain_account(&mut store, "Ada", "ada@example.org");
    let bob = plain_account(&mut store, "Bob", "bob@example.org");
    let root = plain_account(&mut store, "Root", "root@example.org");
    store.set_user_permission(root, PermissionType::SuperUser, true);
    store.set_user_permission(ada, PermissionType::Approved, true);
    assert!(open_session(&mut store, ada, Ok(true), token("ada"), NOW).is_ok());
    assert!(open_session(&mut store, root, Ok(true), token("root"), NOW).is_ok());
    let before = store.clone();
    let password = Password::from_str("next");

    assert_eq!(
        auth_set_password(&mut store, ada, &token("nobody"), &password),
        Err(Error::SessionNotFound)
    );
    assert_eq!(
        auth_set_password(&mut store, bob, &token("ada"), &password),
        Err(Error::InsufficientPermissions {
            msg: "insufficient permissions to set another user's password".to_string()
        })
    );
    assert_eq!(
        auth_set_password(&mut store, UserId(77), &token("root"), &password),
        Err(Error::DbError(DbFault::QueryReturnedNoRows))
    );
    assert_eq!(store, before);

    assert_eq!(auth_set_password(&mut store, ada, &token("ada"), &password), Ok(()));
    assert_eq!(store.adventurers[0].password_hash, password.hash(SALT).unwrap());
    assert_eq!(store.adventurers[1].password_hash, "stored-hash");
    assert_eq!(auth_set_password(&mut store, bob, &token("root"), &password), Ok(()));
    assert_eq!(store.adventurers[1].password_hash, password.hash(SALT).unwrap());
}

#[test]
fn setting_a_password_fails_where_the_stored_salt_is_broken() {
    let mut store = Store::new();
    let ada = create_account_with(
        &mut store,
        Name::from_str("Ada"),
        Email::from_str("ada@example.org"),
        Ok(("stored-hash".to_string(), "?".to_string())),
    )
    .unwrap();
    assert!(open_session(&mut store, ada, Ok(true), token("ada"), NOW).is_ok());
    let before = store.clone();
    assert_eq!(
        auth_set_password(&mut store, ada, &token("ada"), &Password::from_str("next")),
        Err(Error::CannotComputePasswordHash)
    );
    assert_eq!(store, before);
}

#[test]
fn reset_sets_the_password_of_the_address() {
    let mut store = Store::new();
    plain_account(&mut store, "Ada", "ada@example.org");
    plain_account(&mut store, "Bob", "bob@example.org");
    let password = Password::from_str("fresh");
    assert_eq!(reset_password(&mut store, &"bob@example.org".to_string(), &password), Ok(()));
    assert_eq!(store.adventurers[0].password_hash, "stored-hash");
    assert_eq!(store.adventurers[1].password_hash, password.hash(SALT).unwrap());
    assert_eq!(
        reset_password(&mut store, &"cyd@example.org".to_string(), &password),
        Err(Error::AdventurerNotFound { id: None })
    );
}

#[test]
fn reset_mail_carries_password_and_site() {
    let mail = reset_mail(
        "ada@example.org".to_string(),
        &Password::from_str("s3cret"),
        "https://quests.example.org",
    );
    assert_eq!(mail.to, "ada@example.org");
    assert_eq!(mail.subject, "DEI Adventures Password Reset");
    assert_eq!(
        mail.body,
        "This is your new password for DEI Adventures!\n\ns3cret\n\nLogin at https://quests.example.org"
    );
}

#[test]
fn forgotten_password_is_replaced_by_the_one_in_the_mail() {
    let mut store = Store::new();
    plain_account(&mut store, "Ada", "ada@example.org");
    let before = store.clone();
    assert!(auth_forgot_password(&mut store, "nobody@example.org".to_string(), "site").is_none());
    assert_eq!(store, before);

    let mail = auth_forgot_password(&mut store, "ada@example.org".to_string(), "site").unwrap();
    assert_eq!(mail.to, "ada@example.org");
    let prefix = "This is your new password for DEI Adventures!\n\n";
    let suffix = "\n\nLogin at site";
    assert!(mail.body.starts_with(prefix) && mail.body.ends_with(suffix));
    let sent = &mail.body[prefix.len()..mail.body.len() - suffix.len()];
    assert_eq!(sent.chars().count(), 20);
    assert_eq!(
        Password::from_str(sent).check_hash(&store.adventurers[0].password_hash, SALT),
        Ok(true)
    );
    assert_eq!(store.adventurers[0].password_salt, SALT);
}

#[test]
fn a_reset_is_answered_alike_however_it_went() {
    for outcome in [ResetOutcome::NotReset, ResetOutcome::MailSent, ResetOutcome::MailFailed] {
        assert_eq!(forgot_password_answer(outcome), Ok(()));
    }
}

#[test]
fn add_admin_makes_an_approved_super_user() {
    let mut store = Store::new();
    let id = add_admin(
        &mut store,
        Name::from_str("Root"),
        Email::from_str("root@example.org"),
        Password::from_str("toor"),
    )
    .unwrap();
    assert_eq!(id, UserId(1));
    assert!(store.has_permission(id, PermissionType::Approved));
    assert!(store.has_permission(id, PermissionType::SuperUser));
    assert!(!store.has_permission(id, PermissionType::Rejected));
    assert_eq!(store.permissions.len(), 2);
    assert_eq!(
        add_admin(
            &mut store,
            Name::from_str("Root"),
            Email::from_str("root@example.org"),
            Password::from_str("toor"),
        ),
        Err(Error::AccountAlreadyExists)
    );
    assert_eq!(store.permissions.len(), 2);
}

#[test]
fn hash_command_prints_the_hash_and_a_salt_that_it_drew() {
    let with_salt = hash_password(HashPassword {
        password: Password::from_str("pw"),
        salt: Some(SALT.to_string()),
    })
    .unwrap();
    assert_eq!(with_salt, vec![format!("Hash: {}", Password::from_str("pw").hash(SALT).unwrap())]);

    let without = hash_password(HashPassword { password: Password::from_str("pw"), salt: None })
        .unwrap();
    assert_eq!(without.len(), 2);
    let hash = without[0].strip_prefix("Hash: ").unwrap();
    let salt = without[1].strip_prefix("Salt: ").unwrap();
    assert_eq!(Password::from_str("pw").hash(salt).unwrap(), hash);

    assert_eq!(
        hash_password(HashPassword {
            password: Password::from_str("pw"),
            salt: Some("x".to_string())
        }),
        Err(HashFailure)
    );
}
