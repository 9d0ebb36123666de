//! Logging in, resolving a session, and changing a password.

use vstd::prelude::*;
use vstd::string::StringExecFns;
use crate::auth::password::{argon2_phc, spec_hash_matches, HashFailure, Password};
use crate::auth::token::AuthToken;
use crate::db::store::{Store, StoreView};
use crate::error::{DbFault, Error};
use crate::ids::UserId;
use crate::js::{is_safe_int, JsInt};
use crate::permission::PermissionType;

verus! {

/// How long a session lasts, in seconds: thirty days.
pub const SESSION_TIME_TO_LIVE: i64 = 2592000;

/// What a login hands back: who logged in, the bearer token, and when the
/// session started and how long it is recorded to last.
#[derive(Clone, PartialEq, Eq)]
pub struct AuthLoginSession {
    pub id: UserId,
    pub token: AuthToken,
    pub start_time: JsInt,
    pub time_to_live: JsInt,
}

/// The mail that tells an adventurer their new password.
#[derive(Clone, PartialEq, Eq)]
pub struct ResetMail {
    pub to: String,
    pub subject: String,
    pub body: String,
}

/// How a request to reset a forgotten password went.
#[derive(Debug, Copy, Clone, PartialEq, Eq, Structural)]
pub enum ResetOutcome {
    /// No password was changed: the address is unknown, or the new
    /// password could not be stored.
    NotReset,
    /// The password was changed and the mail that tells it was sent.
    MailSent,
    /// The password was changed and the mail could not be sent.
    MailFailed,
}

/// The text of the mail that carries `password` to a user of the site at
/// `site_url`.
pub open spec fn spec_reset_body(password: Seq<char>, site_url: Seq<char>) -> Seq<char> {
    "This is your new password for DEI Adventures!\n\n"@ + password + "\n\nLogin at "@ + site_url
}

/// Whether `e` says that a session may not set another user's password.
pub open spec fn is_insufficient_permissions(e: Error) -> bool {
    e matches Error::InsufficientPermissions { msg } && msg@
        == "insufficient permissions to set another user's password"@
}

impl StoreView {
    /// Why no session is opened after the password check `check` at the
    /// time `now`, if anything.
    pub open spec fn session_refusal(self, check: Result<bool, HashFailure>, now: i64) -> Option<
        Error,
    > {
        if check != Ok::<bool, HashFailure>(true) {
            Some(Error::UnauthorizedLogin)
        } else if self.sequences.auth_session == u32::MAX {
            Some(Error::DbError(DbFault::IdsExhausted))
        } else if !is_safe_int(now as int) {
            Some(Error::DbError(DbFault::OutOfRange(now)))
        } else {
            None
        }
    }

    /// Whether `password` is that of the adventurer with the address `email`.
    pub open spec fn password_check(self, email: Seq<char>, password: Seq<char>) -> Result<
        bool,
        HashFailure,
    > {
        let row = self.adventurer_by_email(email);
        spec_hash_matches(argon2_phc(password, row.password_salt@), row.password_hash@)
    }

    /// Why the login of `email` with `password` at `now` fails, if it does.
    pub open spec fn login_refusal(self, email: String, password: Seq<char>, now: i64) -> Option<
        Error,
    > {
        if !self.email_exists(email@) {
            Some(Error::AdventurerNotFoundByEmail { email })
        } else {
            self.session_refusal(self.password_check(email@, password), now)
        }
    }

    /// A session of `executing` may set the password of `target`: one's
    /// own, or anybody's for a super user.
    pub open spec fn may_set_password(self, executing: UserId, target: UserId) -> bool {
        target == executing || self.has_permission(executing, PermissionType::SuperUser)
    }

    /// Why the hash `computed` is not stored as the password of `target`,
    /// if anything.
    pub open spec fn store_refusal(self, target: UserId, computed: bool) -> Option<Error> {
        if !self.adventurer_exists(target) {
            Some(Error::DbError(DbFault::QueryReturnedNoRows))
        } else if !computed {
            Some(Error::CannotComputePasswordHash)
        } else {
            None
        }
    }

    /// The hash of `password` under the salt that `target` has.
    pub open spec fn rehash(self, target: UserId, password: Seq<char>) -> Option<Seq<char>> {
        argon2_phc(password, self.adventurer_row(target).password_salt@)
    }

    /// Whether `e` is the reason why the session `token` may not set the
    /// password of `target` to `password`.
    pub open spec fn set_password_refused(
        self,
        target: UserId,
        token: Seq<char>,
        password: Seq<char>,
        e: Error,
    ) -> bool {
        match self.session_owner(token) {
            None => e == Error::SessionNotFound,
            Some(executing) => if !self.may_set_password(executing, target) {
                is_insufficient_permissions(e)
            } else {
                self.store_refusal(target, self.rehash(target, password).is_some()) == Some(e)
            },
        }
    }
}

/// Opens a session for `user` under `token` if the password check `check`
/// passed. Nothing is recorded otherwise.
pub fn open_session(
    store: &mut Store,
    user: UserId,
    check: Result<bool, HashFailure>,
    token: AuthToken,
    now: i64,
) -> (r: Result<AuthLoginSession, Error>)
    requires
        old(store)@.wf(),
    ensures
        final(store)@.wf(),
        match r {
            Ok(session) => {
                &&& old(store)@.session_refusal(check, now).is_none()
                &&& final(store)@ == old(store)@.insert_session(
                    user,
                    token.token,
                    now,
                    SESSION_TIME_TO_LIVE,
                )
                &&& session.id == user
                &&& session.token == token
                &&& session.start_time@ == now
                &&& session.time_to_live@ == SESSION_TIME_TO_LIVE
            },
            Err(e) => {
                &&& old(store)@.session_refusal(check, now) == Some(e)
                &&& final(store)@ == old(store)@
            },
        },
{
    match check {
        Ok(true) => {},
        _ => {
            return Err(Error::UnauthorizedLogin);
        },
    }
    if store.sequences.auth_session == u32::MAX {
        return Err(Error::DbError(DbFault::IdsExhausted));
    }
    proof {
        JsInt::lemma_column_result(now);
        JsInt::lemma_column_result(SESSION_TIME_TO_LIVE);
    }
    let start_time = match JsInt::column_result(now) {
        Ok(t) => t,
        Err(e) => {
            return Err(Error::DbError(e));
        },
    };
    let time_to_live = match JsInt::column_result(SESSION_TIME_TO_LIVE) {
        Ok(t) => t,
        Err(e) => {
            return Err(Error::DbError(e));
        },
    };
    store.insert_session(user, token.token.clone(), now, SESSION_TIME_TO_LIVE);
    Ok(AuthLoginSession { id: user, token, start_time, time_to_live })
}

/// Logs in the adventurer with the address `email` under the bearer token
/// `token`, if `password` is theirs.
pub fn auth_login_with_token(
    store: &mut Store,
    email: String,
    password: &Password,
    token: AuthToken,
    now: i64,
) -> (r: Result<AuthLoginSession, Error>)
    requires
        old(store)@.wf(),
    ensures
        final(store)@.wf(),
        match r {
            Ok(session) => {
                &&& old(store)@.login_refusal(email, password.text@, now).is_none()
                &&& final(store)@ == old(store)@.insert_session(
                    old(store)@.adventurer_by_email(email@).id,
                    token.token,
                    now,
                    SESSION_TIME_TO_LIVE,
                )
                &&& session.id == old(store)@.adventurer_by_email(email@).id
                &&& session.token == token
                &&& session.start_time@ == now
                &&& session.time_to_live@ == SESSION_TIME_TO_LIVE
            },
            Err(e) => {
                &&& old(store)@.login_refusal(email, password.text@, now) == Some(e)
                &&& final(store)@ == old(store)@
            },
        },
{
    match store.find_email(&email) {
        None => Err(Error::AdventurerNotFoundByEmail { email }),
        Some(i) => {
            let user = store.adventurers[i].id;
            let check = password.check_hash(
                &store.adventurers[i].password_hash,
                store.adventurers[i].password_salt.as_str(),
            );
            open_session(store, user, check, token, now)
        },
    }
}

/// Logs in the adventurer with the address `email`, if `password` is
/// theirs, under a fresh random token.
pub fn auth_login(store: &mut Store, email: String, password: &Password, now: i64) -> (r: Result<
    AuthLoginSession,
    Error,
>)
    requires
        old(store)@.wf(),
    ensures
        final(store)@.wf(),
        match r {
            Ok(session) => {
                &&& old(store)@.login_refusal(email, password.text@, now).is_none()
                &&& final(store)@ == old(store)@.insert_session(
                    old(store)@.adventurer_by_email(email@).id,
                    session.token.token,
                    now,
                    SESSION_TIME_TO_LIVE,
                )
                &&& session.id == old(store)@.adventurer_by_email(email@).id
                &&& session.token.wf()
                &&& session.start_time@ == now
                &&& session.time_to_live@ == SESSION_TIME_TO_LIVE
            },
            Err(e) => {
                &&& old(store)@.login_refusal(email, password.text@, now) == Some(e)
                &&& final(store)@ == old(store)@
            },
        },
{
    let token = AuthToken::generate();
    auth_login_with_token(store, email, password, token, now)
}

/// The adventurer whose session `token` names. That a session has outlived
/// its time to live does not end it.
pub fn authorize(store: &Store, token: &AuthToken) -> (r: Result<UserId, Error>)
    ensures
        match r {
            Ok(user) => store@.session_owner(token.token@) == Some(user),
            Err(e) => store@.session_owner(token.token@).is_none() && e == Error::SessionNotFound,
        },
{
    match store.session_owner(&token.token) {
        Some(user) => Ok(user),
        None => Err(Error::SessionNotFound),
    }
}

/// Stores `computed` as the password hash of `target`, if a hash was
/// computed and `target` exists.
pub fn store_new_password(store: &mut Store, target: UserId, computed: Result<String, HashFailure>)
    -> (r: Result<(), Error>)
    requires
        old(store)@.wf(),
    ensures
        final(store)@.wf(),
        match r {
            Ok(_) => {
                &&& old(store)@.store_refusal(target, computed.is_ok()).is_none()
                &&& final(store)@ == old(store)@.store_password_hash(target, computed.unwrap())
            },
            Err(e) => {
                &&& old(store)@.store_refusal(target, computed.is_ok()) == Some(e)
                &&& final(store)@ == old(store)@
            },
        },
{
    if !store.adventurer_exists(target) {
        return Err(Error::DbError(DbFault::QueryReturnedNoRows));
    }
    match computed {
        Err(_) => Err(Error::CannotComputePasswordHash),
        Ok(hash) => {
            store.store_password_hash(target, hash);
            Ok(())
        },
    }
}

/// Hashes `password` under the salt that `target` has, and stores the hash
/// as the password of `target`.
pub fn rehash_password(store: &mut Store, target: UserId, password: &Password) -> (r: Result<
    (),
    Error,
>)
    requires
        old(store)@.wf(),
    ensures
        final(store)@.wf(),
        match r {
            Ok(_) => {
                &&& old(store)@.adventurer_exists(target)
                &&& exists|hash: String|
                    old(store)@.rehash(target, password.text@) == Some(hash@) && final(store)@
                        == old(store)@.store_password_hash(target, hash)
            },
            Err(e) => {
                &&& old(store)@.store_refusal(
                    target,
                    old(store)@.rehash(target, password.text@).is_some(),
                ) == Some(e)
                &&& final(store)@ == old(store)@
            },
        },
{
    match store.find_adventurer(target) {
        None => Err(Error::DbError(DbFault::QueryReturnedNoRows)),
        Some(i) => {
            let computed = password.hash(store.adventurers[i].password_salt.as_str());
            store_new_password(store, target, computed)
        },
    }
}

/// Sets the password of `target_user_id` to `password` on behalf of the
/// session `token`. A session may set its own adventurer's password, and a
/// super user's session anybody's. The salt stays.
pub fn auth_set_password(
    store: &mut Store,
    target_user_id: UserId,
    token: &AuthToken,
    password: &Password,
) -> (r: Result<(), Error>)
    requires
        old(store)@.wf(),
    ensures
        final(store)@.wf(),
        match r {
            Ok(_) => {
                &&& old(store)@.session_owner(token.token@).is_some()
                &&& old(store)@.may_set_password(
                    old(store)@.session_owner(token.token@).unwrap(),
                    target_user_id,
                )
                &&& old(store)@.adventurer_exists(target_user_id)
                &&& exists|hash: String|
                    old(store)@.rehash(target_user_id, password.text@) == Some(hash@) && final(store)@ == old(store)@.store_password_hash(target_user_id, hash)
            },
            Err(e) => {
                &&& old(store)@.set_password_refused(
                    target_user_id,
                    token.token@,
                    password.text@,
                    e,
                )
                &&& final(store)@ == old(store)@
            },
        },
{
    let executing = match authorize(store, token) {
        Ok(user) => user,
        Err(e) => {
            return Err(e);
        },
    };
    if target_user_id == executing || store.has_permission(executing, PermissionType::SuperUser) {
        rehash_password(store, target_user_id, password)
    } else {
        Err(
            Error::InsufficientPermissions {
                msg: "insufficient permissions to set another user's password".to_owned(),
            },
        )
    }
}

/// Sets the password of the adventurer with the address `email` to
/// `new_pass`, hashed under the salt that they have.
pub fn reset_password(store: &mut Store, email: &String, new_pass: &Password) -> (r: Result<
    (),
    Error,
>)
    requires
        old(store)@.wf(),
    ensures
        final(store)@.wf(),
        match r {
            Ok(_) => {
                &&& old(store)@.email_exists(email@)
                &&& exists|hash: String|
                    old(store)@.rehash(
                        old(store)@.adventurer_by_email(email@).id,
                        new_pass.text@,
                    ) == Some(hash@) && final(store)@ == old(store)@.store_password_hash(
                        old(store)@.adventurer_by_email(email@).id,
                        hash,
                    )
            },
            Err(e) => {
                &&& final(store)@ == old(store)@
                &&& e == if !old(store)@.email_exists(email@) {
                    Error::AdventurerNotFound { id: None }
                } else {
                    Error::CannotComputePasswordHash
                }
                &&& old(store)@.email_exists(email@) ==> old(store)@.rehash(
                    old(store)@.adventurer_by_email(email@).id,
                    new_pass.text@,
                ).is_none()
            },
        },
{
    match store.find_email(email) {
        None => Err(Error::AdventurerNotFound { id: None }),
        Some(i) => {
            let user = store.adventurers[i].id;
            proof {
                store@.lemma_adventurer_row(i as int);
            }
            rehash_password(store, user, new_pass)
        },
    }
}

/// The mail that carries the new password `new_pass` to `to`.
pub fn reset_mail(to: String, new_pass: &Password, site_url: &str) -> (mail: ResetMail)
    ensures
        mail.to == to,
        mail.subject@ == "DEI Adventures Password Reset"@,
        mail.body@ == spec_reset_body(new_pass.text@, site_url@),
{
    let mut body = "This is your new password for DEI Adventures!\n\n".to_owned();
    body.append(new_pass.text.as_str());
    body.append("\n\nLogin at ");
    body.append(site_url);
    ResetMail { to, subject: "DEI Adventures Password Reset".to_owned(), body }
}

/// What whoever asked for a password reset is told: the same, however the
/// reset went, so that the answer does not disclose whether the address
/// belongs to anybody, nor whether a mail left.
pub fn forgot_password_answer(outcome: ResetOutcome) -> (r: Result<(), Error>)
    ensures
        r == Ok::<(), Error>(()),
{
    match outcome {
        ResetOutcome::NotReset => Ok(()),
        ResetOutcome::MailSent => Ok(()),
        ResetOutcome::MailFailed => Ok(()),
    }
}

/// Gives the adventurer with the address `email` a fresh random password
/// and returns the mail that tells them so, to be sent by the caller.
/// It returns `None`, with nothing changed, in two cases only: there is no
/// such adventurer, or the password that was drawn could not be hashed
/// under the salt that the adventurer has. The caller answers alike in
/// every case, so that the answer does not tell whether the address is
/// known.
pub fn auth_forgot_password(store: &mut Store, email: String, site_url: &str) -> (r: Option<
    ResetMail,
>)
    requires
        old(store)@.wf(),
    ensures
        final(store)@.wf(),
        match r {
            Some(mail) => {
                &&& old(store)@.email_exists(email@)
                &&& mail.to == email
                &&& mail.subject@ == "DEI Adventures Password Reset"@
                &&& exists|new_pass: AuthToken, hash: String|
                    {
                        &&& new_pass.wf()
                        &&& mail.body@ == spec_reset_body(new_pass.token@, site_url@)
                        &&& old(store)@.rehash(
                            old(store)@.adventurer_by_email(email@).id,
                            new_pass.token@,
                        ) == Some(hash@)
                        &&& final(store)@ == old(store)@.store_password_hash(
                            old(store)@.adventurer_by_email(email@).id,
                            hash,
                        )
                    }
            },
            None => {
                &&& final(store)@ == old(store)@
                &&& old(store)@.email_exists(email@) ==> exists|new_pass: AuthToken|
                    new_pass.wf() && (#[trigger] old(store)@.rehash(
                        old(store)@.adventurer_by_email(email@).id,
                        new_pass.token@,
                    )).is_none()
            },
        },
        !old(store)@.email_exists(email@) ==> r.is_none(),
{
    let generated = AuthToken::generate();
    let ghost witness = generated;
    let new_pass = Password { text: generated.token };
    match reset_password(store, &email, &new_pass) {
        Ok(_) => {
            let mail = reset_mail(email, &new_pass, site_url);
            proof {
                let hash = choose|hash: String|
                    old(store)@.rehash(
                        old(store)@.adventurer_by_email(email@).id,
                        new_pass.text@,
                    ) == Some(hash@) && store@ == old(store)@.store_password_hash(
                        old(store)@.adventurer_by_email(email@).id,
                        hash,
                    );
                assert(witness.wf() && mail.body@ == spec_reset_body(witness.token@, site_url@)
                    && old(store)@.rehash(
                    old(store)@.adventurer_by_email(email@).id,
                    witness.token@,
                ) == Some(hash@) && store@ == old(store)@.store_password_hash(
                    old(store)@.adventurer_by_email(email@).id,
                    hash,
                ));
            }
            Some(mail)
        },
        Err(_) => {
            proof {
                if old(store)@.email_exists(email@) {
                    assert(witness.wf() && old(store)@.rehash(
                        old(store)@.adventurer_by_email(email@).id,
                        witness.token@,
                    ).is_none());
                }
            }
            None
        },
    }
}

} // verus!
