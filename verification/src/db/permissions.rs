//! Granting and revoking permission flags.

use vstd::prelude::*;
use crate::db::rows::PermissionRow;
use crate::db::store::{permissions_distinct, Store, StoreView};
use crate::ids::UserId;
use crate::permission::PermissionType;
use crate::seqs::{
    is, is_not, lemma_filter_contains, lemma_filter_pairwise, lemma_filter_take_none,
    lemma_filter_take_step, lemma_occurs_once, lemma_split_len,
};

verus! {

impl StoreView {
    /// The row that records that `user` holds `perm`.
    pub open spec fn permission_row(user: UserId, perm: PermissionType) -> PermissionRow {
        PermissionRow { adventurer_id: user, permission_type: perm }
    }

    /// The store once `user` no longer holds `perm`.
    pub open spec fn revoke(self, user: UserId, perm: PermissionType) -> StoreView {
        StoreView {
            permissions: self.permissions.filter(is_not(Self::permission_row(user, perm))),
            ..self
        }
    }

    /// The store once `user` holds `perm`, recorded once.
    pub open spec fn record(self, user: UserId, perm: PermissionType) -> StoreView {
        if self.has_permission(user, perm) {
            self
        } else {
            StoreView {
                permissions: self.permissions.push(Self::permission_row(user, perm)),
                ..self
            }
        }
    }

    /// The store once `user` holds `perm` and no longer the flag that it
    /// excludes.
    pub open spec fn grant(self, user: UserId, perm: PermissionType) -> StoreView {
        match perm.spec_conflict() {
            Some(other) => self.record(user, perm).revoke(user, other),
            None => self.record(user, perm),
        }
    }

    /// The store once `user` holds `perm` or not, as `truth` says.
    pub open spec fn set_user_permission(
        self,
        user: UserId,
        perm: PermissionType,
        truth: bool,
    ) -> StoreView {
        if truth {
            self.grant(user, perm)
        } else {
            self.revoke(user, perm)
        }
    }

    /// How often the table records that `user` holds `perm`.
    pub open spec fn permission_count(self, user: UserId, perm: PermissionType) -> nat {
        self.permissions.filter(is(Self::permission_row(user, perm))).len()
    }

    /// After revoking, exactly the one flag is gone, and no flag is recorded
    /// twice if none was.
    pub proof fn lemma_revoke(self, user: UserId, perm: PermissionType)
        ensures
            forall|u: UserId, p: PermissionType|
                #[trigger] self.revoke(user, perm).has_permission(u, p) <==> (self.has_permission(
                    u,
                    p,
                ) && !(u == user && p == perm)),
            permissions_distinct(self.permissions) ==> permissions_distinct(
                self.revoke(user, perm).permissions,
            ),
    {
        let after = self.revoke(user, perm);
        let pred = is_not(Self::permission_row(user, perm));
        assert forall|u: UserId, p: PermissionType|
            after.has_permission(u, p) <==> (self.has_permission(u, p) && !(u == user && p
                == perm)) by {
            lemma_filter_contains(self.permissions, pred, Self::permission_row(u, p));
        }
        if permissions_distinct(self.permissions) {
            lemma_filter_pairwise(
                self.permissions,
                pred,
                |a: PermissionRow, b: PermissionRow| a != b,
            );
        }
    }

    /// After recording, exactly the one flag is added, and no flag is
    /// recorded twice if none was.
    pub proof fn lemma_record(self, user: UserId, perm: PermissionType)
        ensures
            forall|u: UserId, p: PermissionType|
                #[trigger] self.record(user, perm).has_permission(u, p) <==> (self.has_permission(
                    u,
                    p,
                ) || (u == user && p == perm)),
            permissions_distinct(self.permissions) ==> permissions_distinct(
                self.record(user, perm).permissions,
            ),
    {
        let after = self.record(user, perm);
        let row = Self::permission_row(user, perm);
        if !self.has_permission(user, perm) {
            let n = self.permissions.len() as int;
            assert(after.permissions[n] == row);
            assert forall|u: UserId, p: PermissionType|
                after.has_permission(u, p) <==> (self.has_permission(u, p) || (u == user && p
                    == perm)) by {
                let x = Self::permission_row(u, p);
                if self.permissions.contains(x) {
                    let k = choose|k: int| 0 <= k < n && self.permissions[k] == x;
                    assert(after.permissions[k] == x);
                }
                if after.permissions.contains(x) {
                    let k = choose|k: int| 0 <= k < n + 1 && after.permissions[k] == x;
                    if k < n {
                        assert(self.permissions[k] == x);
                    }
                }
            }
            if permissions_distinct(self.permissions) {
                assert forall|i: int, j: int| 0 <= i < j < after.permissions.len() implies (
                #[trigger] after.permissions[i]) != (#[trigger] after.permissions[j]) by {
                    assert(self.permissions[i] == after.permissions[i]);
                    if j == n {
                        assert(self.permissions.contains(self.permissions[i]));
                    } else {
                        assert(self.permissions[j] == after.permissions[j]);
                    }
                }
            }
        }
    }

    /// Setting a flag keeps the table sound, and says exactly who holds what
    /// afterwards.
    pub proof fn lemma_set_user_permission(self, user: UserId, perm: PermissionType, truth: bool)
        requires
            self.permissions_wf(),
        ensures
            self.set_user_permission(user, perm, truth).permissions_wf(),
            forall|u: UserId, p: PermissionType|
                #[trigger] self.set_user_permission(user, perm, truth).has_permission(u, p)
                    <==> if u == user && p == perm {
                    truth
                } else if u == user && truth && perm.spec_conflict() == Some(p) {
                    false
                } else {
                    self.has_permission(u, p)
                },
    {
        let after = self.set_user_permission(user, perm, truth);
        if truth {
            self.lemma_record(user, perm);
            match perm.spec_conflict() {
                Some(other) => {
                    self.record(user, perm).lemma_revoke(user, other);
                },
                None => {},
            }
        } else {
            self.lemma_revoke(user, perm);
        }
        assert forall|u: UserId|
            !(#[trigger] after.permissions.contains(
                PermissionRow { adventurer_id: u, permission_type: PermissionType::Approved },
            ) && after.permissions.contains(
                PermissionRow { adventurer_id: u, permission_type: PermissionType::Rejected },
            )) by {
            assert(!(self.permissions.contains(
                PermissionRow { adventurer_id: u, permission_type: PermissionType::Approved },
            ) && self.permissions.contains(
                PermissionRow { adventurer_id: u, permission_type: PermissionType::Rejected },
            )));
            assert(after.has_permission(u, PermissionType::Approved) ==> self.has_permission(
                u,
                PermissionType::Approved,
            ) || (u == user && perm == PermissionType::Approved && truth));
            assert(after.has_permission(u, PermissionType::Rejected) ==> self.has_permission(
                u,
                PermissionType::Rejected,
            ) || (u == user && perm == PermissionType::Rejected && truth));
        }
    }

    /// Setting a flag in a sound table adds at most one row and removes at
    /// most one.
    pub proof fn lemma_set_user_permission_rows(
        self,
        user: UserId,
        perm: PermissionType,
        truth: bool,
    )
        requires
            self.permissions_wf(),
        ensures
            self.permissions.len() - 1 <= self.set_user_permission(
                user,
                perm,
                truth,
            ).permissions.len() <= self.permissions.len() + 1,
    {
        if truth {
            self.lemma_record(user, perm);
            match perm.spec_conflict() {
                Some(other) => {
                    let recorded = self.record(user, perm);
                    lemma_split_len(recorded.permissions, Self::permission_row(user, other));
                    lemma_occurs_once(recorded.permissions, Self::permission_row(user, other));
                },
                None => {},
            }
        } else {
            lemma_split_len(self.permissions, Self::permission_row(user, perm));
            lemma_occurs_once(self.permissions, Self::permission_row(user, perm));
        }
    }

    /// In a sound table a flag that is held is recorded exactly once.
    pub proof fn lemma_permission_count(self, user: UserId, perm: PermissionType)
        requires
            self.permissions_wf(),
        ensures
            self.permission_count(user, perm) == if self.has_permission(user, perm) {
                1nat
            } else {
                0nat
            },
    {
        lemma_occurs_once(self.permissions, Self::permission_row(user, perm));
    }
}

impl Store {
    /// Removes the record that `user` holds `perm`, if there is one.
    fn delete_permission(&mut self, user: UserId, perm: PermissionType)
        ensures
            final(self)@ == old(self)@.revoke(user, perm),
    {
        let ghost pred = is_not(StoreView::permission_row(user, perm));
        let ghost rows = self.permissions@;
        let mut kept: Vec<PermissionRow> = Vec::new();
        let mut i: usize = 0;
        proof {
            lemma_filter_take_none(rows, pred);
        }
        while i < self.permissions.len()
            invariant
                i <= self.permissions.len(),
                rows == self.permissions@,
                *self == *old(self),
                pred == is_not(StoreView::permission_row(user, perm)),
                kept@ == rows.take(i as int).filter(pred),
            decreases self.permissions.len() - i,
        {
            let row = self.permissions[i];
            proof {
                lemma_filter_take_step(rows, pred, i as int);
            }
            if !(row.adventurer_id == user && row.permission_type == perm) {
                kept.push(row);
            }
            i += 1;
        }
        assert(rows.take(i as int) =~= rows);
        self.permissions = kept;
    }

    /// Sets or clears one permission flag of `user`.
    ///
    /// Setting a flag that is already held changes nothing, and setting
    /// `Approved` clears `Rejected` and the reverse. No flag is ever
    /// recorded twice.
    pub fn set_user_permission(&mut self, user: UserId, perm: PermissionType, truth: bool)
        requires
            old(self)@.wf(),
        ensures
            final(self)@ == old(self)@.set_user_permission(user, perm, truth),
            final(self)@.wf(),
            final(self)@.has_permission(user, perm) == truth,
            final(self)@.permission_count(user, perm) == if truth { 1nat } else { 0nat },
            old(self)@.permissions.len() - 1 <= final(self)@.permissions.len() <= old(self)@.permissions.len() + 1,
    {
        proof {
            old(self)@.lemma_set_user_permission(user, perm, truth);
            old(self)@.lemma_set_user_permission_rows(user, perm, truth);
            old(self)@.set_user_permission(user, perm, truth).lemma_permission_count(user, perm);
        }
        if truth {
            if !self.has_permission(user, perm) {
                self.permissions.push(PermissionRow { adventurer_id: user, permission_type: perm });
            }
            assert(self@ == old(self)@.record(user, perm));
            match perm.conflict() {
                Some(other) => {
                    self.delete_permission(user, other);
                },
                None => {},
            }
        } else {
            self.delete_permission(user, perm);
        }
    }
}

} // verus!
