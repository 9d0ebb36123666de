//! Adventurer rows and login sessions.

use vstd::prelude::*;
use crate::db::rows::{AdventurerRow, AuthSessionRow};
use crate::db::store::{Sequences, Store, StoreView};
use crate::ids::UserId;
use crate::seqs::{lemma_filter_first, lemma_filter_keeps_none};

verus! {

/// The test that the sessions with the token `token` pass.
pub open spec fn session_of(token: Seq<char>) -> spec_fn(AuthSessionRow) -> bool {
    |s: AuthSessionRow| s.token@ == token
}

impl StoreView {
    /// The id that the next adventurer gets.
    pub open spec fn next_adventurer_id(self) -> UserId {
        UserId((self.sequences.adventurer + 1) as u32)
    }

    /// The id that the next session gets.
    pub open spec fn next_session_id(self) -> u32 {
        (self.sequences.auth_session + 1) as u32
    }

    /// The position of the adventurer with the address `email`.
    pub open spec fn email_index(self, email: Seq<char>) -> int {
        choose|i: int|
            0 <= i < self.adventurers.len() && (#[trigger] self.adventurers[i]).email@ == email
    }

    /// The adventurer with the address `email`.
    pub open spec fn adventurer_by_email(self, email: Seq<char>) -> AdventurerRow {
        self.adventurers[self.email_index(email)]
    }

    /// The store with one more adventurer.
    pub open spec fn insert_adventurer(
        self,
        name: String,
        email: String,
        password_hash: String,
        password_salt: String,
    ) -> StoreView {
        StoreView {
            adventurers: self.adventurers.push(
                AdventurerRow {
                    id: self.next_adventurer_id(),
                    name,
                    email,
                    password_hash,
                    password_salt,
                },
            ),
            sequences: Sequences { adventurer: self.next_adventurer_id().0, ..self.sequences },
            ..self
        }
    }

    /// The store once `user` has the password hash `password_hash`.
    pub open spec fn store_password_hash(self, user: UserId, password_hash: String) -> StoreView {
        StoreView {
            adventurers: self.adventurers.map_values(
                |a: AdventurerRow|
                    if a.id == user {
                        AdventurerRow { password_hash, ..a }
                    } else {
                        a
                    },
            ),
            ..self
        }
    }

    /// The store with one more session, of `user` under `token`.
    pub open spec fn insert_session(
        self,
        user: UserId,
        token: String,
        start_time: i64,
        time_to_live: i64,
    ) -> StoreView {
        StoreView {
            auth_sessions: self.auth_sessions.push(
                AuthSessionRow {
                    id: self.next_session_id(),
                    adventurer_id: user,
                    token,
                    start_time,
                    time_to_live,
                },
            ),
            sequences: Sequences { auth_session: self.next_session_id(), ..self.sequences },
            ..self
        }
    }

    /// The adventurer whose session `token` names: that of the first
    /// session recorded under it.
    pub open spec fn session_owner(self, token: Seq<char>) -> Option<UserId> {
        let sessions = self.auth_sessions.filter(session_of(token));
        if sessions.len() > 0 {
            Some(sessions[0].adventurer_id)
        } else {
            None
        }
    }

    /// With addresses used once, a row found under an address is the row of
    /// that address.
    pub proof fn lemma_adventurer_by_email(self, i: int)
        requires
            self.adventurers_wf(),
            0 <= i < self.adventurers.len(),
        ensures
            self.email_index(self.adventurers[i].email@) == i,
            self.adventurer_by_email(self.adventurers[i].email@) == self.adventurers[i],
            self.email_exists(self.adventurers[i].email@),
    {
        let k = self.email_index(self.adventurers[i].email@);
        assert(0 <= k < self.adventurers.len() && self.adventurers[k].email@
            == self.adventurers[i].email@);
        if k < i {
            assert(self.adventurers[k].email@ != self.adventurers[i].email@);
        } else if i < k {
            assert(self.adventurers[i].email@ != self.adventurers[k].email@);
        }
    }

    /// A new adventurer under an address that nobody has keeps the store
    /// sound.
    pub proof fn lemma_insert_adventurer_wf(
        self,
        name: String,
        email: String,
        password_hash: String,
        password_salt: String,
    )
        requires
            self.wf(),
            !self.email_exists(email@),
            self.sequences.adventurer < u32::MAX,
        ensures
            self.insert_adventurer(name, email, password_hash, password_salt).wf(),
            forall|u: UserId|
                self.adventurer_exists(u) ==> #[trigger] self.insert_adventurer(
                    name,
                    email,
                    password_hash,
                    password_salt,
                ).adventurer_exists(u),
            self.insert_adventurer(name, email, password_hash, password_salt).adventurer_exists(
                self.next_adventurer_id(),
            ),
    {
        let after = self.insert_adventurer(name, email, password_hash, password_salt);
        let n = self.adventurers.len() as int;
        assert(after.adventurers[n].id == self.next_adventurer_id());
        assert forall|i: int| 0 <= i < n implies after.adventurers[i] == self.adventurers[i] by {}
        assert forall|u: UserId| self.adventurer_exists(u) implies after.adventurer_exists(u) by {
            let k = choose|k: int| 0 <= k < n && (#[trigger] self.adventurers[k]).id == u;
            assert(after.adventurers[k].id == u);
        }
        assert forall|i: int, j: int| 0 <= i < j < after.adventurers.len() implies (
        #[trigger] after.adventurers[i]).email@ != (#[trigger] after.adventurers[j]).email@ by {
            assert(after.adventurers[i] == self.adventurers[i]);
            if j < n {
                assert(after.adventurers[j] == self.adventurers[j]);
            }
        }
        assert forall|i: int, j: int| 0 <= i < j < after.adventurers.len() implies (
        #[trigger] after.adventurers[i]).id != (#[trigger] after.adventurers[j]).id by {
            assert(after.adventurers[i] == self.adventurers[i]);
            if j < n {
                assert(after.adventurers[j] == self.adventurers[j]);
            }
        }
    }

    /// A new password hash keeps the store sound, and whoever existed still
    /// does.
    pub proof fn lemma_store_password_hash_wf(self, user: UserId, password_hash: String)
        requires
            self.wf(),
        ensures
            self.store_password_hash(user, password_hash).wf(),
    {
        let after = self.store_password_hash(user, password_hash);
        assert forall|i: int, j: int| 0 <= i < j < after.adventurers.len() implies (
        #[trigger] after.adventurers[i]).email@ != (#[trigger] after.adventurers[j]).email@ by {
            assert(self.adventurers[i].email@ != self.adventurers[j].email@);
        }
        assert forall|i: int, j: int| 0 <= i < j < after.adventurers.len() implies (
        #[trigger] after.adventurers[i]).id != (#[trigger] after.adventurers[j]).id by {
            assert(self.adventurers[i].id != self.adventurers[j].id);
        }
        assert forall|i: int| 0 <= i < after.adventurers.len() implies (
        #[trigger] after.adventurers[i]).id.0 <= after.sequences.adventurer by {
            assert(self.adventurers[i].id.0 <= self.sequences.adventurer);
        }
    }

    /// A new session keeps the store sound.
    pub proof fn lemma_insert_session_wf(
        self,
        user: UserId,
        token: String,
        start_time: i64,
        time_to_live: i64,
    )
        requires
            self.wf(),
            self.sequences.auth_session < u32::MAX,
        ensures
            self.insert_session(user, token, start_time, time_to_live).wf(),
    {
        let after = self.insert_session(user, token, start_time, time_to_live);
        let n = self.auth_sessions.len() as int;
        assert forall|i: int| 0 <= i < n implies after.auth_sessions[i] == self.auth_sessions[i] by {}
        assert forall|i: int, j: int| 0 <= i < j < after.auth_sessions.len() implies (
        #[trigger] after.auth_sessions[i]).id != (#[trigger] after.auth_sessions[j]).id by {
            assert(after.auth_sessions[i] == self.auth_sessions[i]);
            if j < n {
                assert(after.auth_sessions[j] == self.auth_sessions[j]);
            }
        }
    }
}

impl Store {
    /// The position of the adventurer with the address `email`, if there
    /// is one.
    pub fn find_email(&self, email: &String) -> (r: Option<usize>)
        ensures
            r.is_some() == self@.email_exists(email@),
            r.is_some() ==> r.unwrap() < self.adventurers.len()
                && self.adventurers[r.unwrap() as int].email@ == email@,
            r.is_some() && self@.adventurers_wf() ==> r.unwrap() == self@.email_index(email@),
    {
        let mut i: usize = 0;
        while i < self.adventurers.len()
            invariant
                i <= self.adventurers.len(),
                forall|k: int| 0 <= k < i ==> (#[trigger] self.adventurers[k]).email@ != email@,
            decreases self.adventurers.len() - i,
        {
            if self.adventurers[i].email == *email {
                proof {
                    if self@.adventurers_wf() {
                        self@.lemma_adventurer_by_email(i as int);
                    }
                }
                return Some(i);
            }
            i += 1;
        }
        None
    }

    /// The adventurer whose session `token` names, if there is such a
    /// session.
    pub fn session_owner(&self, token: &String) -> (r: Option<UserId>)
        ensures
            r == self@.session_owner(token@),
    {
        let mut i: usize = 0;
        while i < self.auth_sessions.len()
            invariant
                i <= self.auth_sessions.len(),
                forall|k: int| 0 <= k < i ==> !session_of(token@)(self.auth_sessions[k]),
            decreases self.auth_sessions.len() - i,
        {
            if self.auth_sessions[i].token == *token {
                proof {
                    lemma_filter_first(self.auth_sessions@, session_of(token@), i as int);
                }
                return Some(self.auth_sessions[i].adventurer_id);
            }
            i += 1;
        }
        proof {
            lemma_filter_keeps_none(self.auth_sessions@, session_of(token@));
        }
        None
    }

    /// Adds an adventurer and returns the id that it got.
    pub fn insert_adventurer(
        &mut self,
        name: String,
        email: String,
        password_hash: String,
        password_salt: String,
    ) -> (id: UserId)
        requires
            old(self)@.wf(),
            !old(self)@.email_exists(email@),
            old(self).sequences.adventurer < u32::MAX,
        ensures
            final(self)@ == old(self)@.insert_adventurer(name, email, password_hash, password_salt),
            final(self)@.wf(),
            id == old(self)@.next_adventurer_id(),
    {
        proof {
            old(self)@.lemma_insert_adventurer_wf(name, email, password_hash, password_salt);
        }
        let id = UserId(self.sequences.adventurer + 1);
        self.adventurers.push(AdventurerRow { id, name, email, password_hash, password_salt });
        self.sequences.adventurer = id.0;
        id
    }

    /// Replaces the password hash of `user`.
    pub fn store_password_hash(&mut self, user: UserId, password_hash: String)
        requires
            old(self)@.wf(),
            old(self)@.adventurer_exists(user),
        ensures
            final(self)@ == old(self)@.store_password_hash(user, password_hash),
            final(self)@.wf(),
    {
        proof {
            old(self)@.lemma_store_password_hash_wf(user, password_hash);
        }
        let found = self.find_adventurer(user);
        let i = found.unwrap();
        self.adventurers[i].password_hash = password_hash;
        assert(self@.adventurers =~= old(self)@.store_password_hash(user, password_hash).adventurers);
    }

    /// Adds a session of `user` under `token`.
    pub fn insert_session(&mut self, user: UserId, token: String, start_time: i64, time_to_live: i64)
        requires
            old(self)@.wf(),
            old(self).sequences.auth_session < u32::MAX,
        ensures
            final(self)@ == old(self)@.insert_session(user, token, start_time, time_to_live),
            final(self)@.wf(),
    {
        proof {
            old(self)@.lemma_insert_session_wf(user, token, start_time, time_to_live);
        }
        let id = self.sequences.auth_session + 1;
        self.auth_sessions.push(
            AuthSessionRow { id, adventurer_id: user, token, start_time, time_to_live },
        );
        self.sequences.auth_session = id;
    }
}

} // verus!
