//! Telling whether tables that came from elsewhere are sound.

use vstd::prelude::*;
use crate::db::rows::{PermissionRow, QuestType};
use crate::db::store::{permissions_distinct, permissions_exclusive, Store};
use crate::ids::{QuestId, UserId};
use crate::js::{is_safe_time, MAX_SAFE_INT};
use crate::permission::PermissionType;

verus! {

/// Whether no number occurs twice in `v`.
pub fn all_distinct(v: &Vec<u32>) -> (b: bool)
    ensures
        b == (forall|i: int, j: int| 0 <= i < j < v.len() ==> v[i] != v[j]),
{
    let mut j: usize = 0;
    while j < v.len()
        invariant
            j <= v.len(),
            forall|a: int, c: int| 0 <= a < c < j ==> v[a] != v[c],
        decreases v.len() - j,
    {
        let mut i: usize = 0;
        while i < j
            invariant
                i <= j < v.len(),
                forall|a: int| 0 <= a < i ==> v[a] != v[j as int],
            decreases j - i,
        {
            if v[i] == v[j] {
                return false;
            }
            i += 1;
        }
        j += 1;
    }
    true
}

/// Whether no number in `v` is beyond `bound`.
pub fn all_at_most(v: &Vec<u32>, bound: u32) -> (b: bool)
    ensures
        b == (forall|i: int| 0 <= i < v.len() ==> v[i] <= bound),
{
    let mut i: usize = 0;
    while i < v.len()
        invariant
            i <= v.len(),
            forall|a: int| 0 <= a < i ==> v[a] <= bound,
        decreases v.len() - i,
    {
        if v[i] > bound {
            return false;
        }
        i += 1;
    }
    true
}

/// Whether `seconds` is a time that is a safe integer in milliseconds.
pub fn safe_time(seconds: i64) -> (b: bool)
    ensures
        b == is_safe_time(seconds as int),
{
    let limit: i64 = MAX_SAFE_INT / 1000;
    -limit <= seconds && seconds <= limit
}

impl Store {
    /// The ids of the guilds, in table order.
    fn guild_ids(&self) -> (ids: Vec<u32>)
        ensures
            ids@.len() == self.guilds@.len(),
            forall|i: int| 0 <= i < ids@.len() ==> ids@[i] == self.guilds@[i].id.0,
    {
        let mut ids: Vec<u32> = Vec::new();
        let mut i: usize = 0;
        while i < self.guilds.len()
            invariant
                i <= self.guilds.len(),
                ids@.len() == i,
                forall|k: int| 0 <= k < i ==> ids@[k] == self.guilds@[k].id.0,
            decreases self.guilds.len() - i,
        {
            ids.push(self.guilds[i].id.0);
            i += 1;
        }
        ids
    }

    /// The ids of the adventurers, in table order.
    fn adventurer_ids(&self) -> (ids: Vec<u32>)
        ensures
            ids@.len() == self.adventurers@.len(),
            forall|i: int| 0 <= i < ids@.len() ==> ids@[i] == self.adventurers@[i].id.0,
    {
        let mut ids: Vec<u32> = Vec::new();
        let mut i: usize = 0;
        while i < self.adventurers.len()
            invariant
                i <= self.adventurers.len(),
                ids@.len() == i,
                forall|k: int| 0 <= k < i ==> ids@[k] == self.adventurers@[k].id.0,
            decreases self.adventurers.len() - i,
        {
            ids.push(self.adventurers[i].id.0);
            i += 1;
        }
        ids
    }

    /// The ids of the quests, in table order.
    fn quest_ids(&self) -> (ids: Vec<u32>)
        ensures
            ids@.len() == self.quests@.len(),
            forall|i: int| 0 <= i < ids@.len() ==> ids@[i] == self.quests@[i].id.0,
    {
        let mut ids: Vec<u32> = Vec::new();
        let mut i: usize = 0;
        while i < self.quests.len()
            invariant
                i <= self.quests.len(),
                ids@.len() == i,
                forall|k: int| 0 <= k < i ==> ids@[k] == self.quests@[k].id.0,
            decreases self.quests.len() - i,
        {
            ids.push(self.quests[i].id.0);
            i += 1;
        }
        ids
    }

    /// The ids of the tasks, and the ids of the quests that they belong to.
    fn task_ids(&self) -> (ids: (Vec<u32>, Vec<u32>))
        ensures
            ids.0@.len() == self.quest_tasks@.len(),
            ids.1@.len() == self.quest_tasks@.len(),
            forall|i: int| 0 <= i < ids.0@.len() ==> ids.0@[i] == self.quest_tasks@[i].id,
            forall|i: int| 0 <= i < ids.1@.len() ==> ids.1@[i] == self.quest_tasks@[i].quest_id.0,
    {
        let mut own: Vec<u32> = Vec::new();
        let mut quests: Vec<u32> = Vec::new();
        let mut i: usize = 0;
        while i < self.quest_tasks.len()
            invariant
                i <= self.quest_tasks.len(),
                own@.len() == i,
                quests@.len() == i,
                forall|k: int| 0 <= k < i ==> own@[k] == self.quest_tasks@[k].id,
                forall|k: int| 0 <= k < i ==> quests@[k] == self.quest_tasks@[k].quest_id.0,
            decreases self.quest_tasks.len() - i,
        {
            own.push(self.quest_tasks[i].id);
            quests.push(self.quest_tasks[i].quest_id.0);
            i += 1;
        }
        (own, quests)
    }

    /// The ids of the details, and the ids of the quests that they belong
    /// to.
    fn detail_ids(&self) -> (ids: (Vec<u32>, Vec<u32>))
        ensures
            ids.0@.len() == self.quest_details@.len(),
            ids.1@.len() == self.quest_details@.len(),
            forall|i: int| 0 <= i < ids.0@.len() ==> ids.0@[i] == self.quest_details@[i].id,
            forall|i: int|
                0 <= i < ids.1@.len() ==> ids.1@[i] == self.quest_details@[i].quest_id.0,
    {
        let mut own: Vec<u32> = Vec::new();
        let mut quests: Vec<u32> = Vec::new();
        let mut i: usize = 0;
        while i < self.quest_details.len()
            invariant
                i <= self.quest_details.len(),
                own@.len() == i,
                quests@.len() == i,
                forall|k: int| 0 <= k < i ==> own@[k] == self.quest_details@[k].id,
                forall|k: int| 0 <= k < i ==> quests@[k] == self.quest_details@[k].quest_id.0,
            decreases self.quest_details.len() - i,
        {
            own.push(self.quest_details[i].id);
            quests.push(self.quest_details[i].quest_id.0);
            i += 1;
        }
        (own, quests)
    }

    /// The ids of the quests that have a party, in table order.
    fn party_quest_ids(&self) -> (ids: Vec<u32>)
        ensures
            ids@.len() == self.party_members@.len(),
            forall|i: int| 0 <= i < ids@.len() ==> ids@[i] == self.party_members@[i].quest_id.0,
    {
        let mut ids: Vec<u32> = Vec::new();
        let mut i: usize = 0;
        while i < self.party_members.len()
            invariant
                i <= self.party_members.len(),
                ids@.len() == i,
                forall|k: int| 0 <= k < i ==> ids@[k] == self.party_members@[k].quest_id.0,
            decreases self.party_members.len() - i,
        {
            ids.push(self.party_members[i].quest_id.0);
            i += 1;
        }
        ids
    }

    /// The ids of the guilds that have a leader, in table order.
    fn led_guild_ids(&self) -> (ids: Vec<u32>)
        ensures
            ids@.len() == self.adventurer_roles@.len(),
            forall|i: int| 0 <= i < ids@.len() ==> ids@[i] == self.adventurer_roles@[i].guild_id.0,
    {
        let mut ids: Vec<u32> = Vec::new();
        let mut i: usize = 0;
        while i < self.adventurer_roles.len()
            invariant
                i <= self.adventurer_roles.len(),
                ids@.len() == i,
                forall|k: int| 0 <= k < i ==> ids@[k] == self.adventurer_roles@[k].guild_id.0,
            decreases self.adventurer_roles.len() - i,
        {
            ids.push(self.adventurer_roles[i].guild_id.0);
            i += 1;
        }
        ids
    }

    /// The ids of the sessions, in table order.
    fn session_ids(&self) -> (ids: Vec<u32>)
        ensures
            ids@.len() == self.auth_sessions@.len(),
            forall|i: int| 0 <= i < ids@.len() ==> ids@[i] == self.auth_sessions@[i].id,
    {
        let mut ids: Vec<u32> = Vec::new();
        let mut i: usize = 0;
        while i < self.auth_sessions.len()
            invariant
                i <= self.auth_sessions.len(),
                ids@.len() == i,
                forall|k: int| 0 <= k < i ==> ids@[k] == self.auth_sessions@[k].id,
            decreases self.auth_sessions.len() - i,
        {
            ids.push(self.auth_sessions[i].id);
            i += 1;
        }
        ids
    }

    /// Whether the guild table is sound.
    pub fn guilds_are_sound(&self) -> (b: bool)
        ensures
            b == self@.guilds_wf(),
    {
        let ids = self.guild_ids();
        let bounded = all_at_most(&ids, self.sequences.guild);
        let distinct = all_distinct(&ids);
        proof {
            if bounded && distinct {
                assert forall|i: int, j: int| 0 <= i < j < self.guilds.len() implies (
                #[trigger] self.guilds[i]).id != (#[trigger] self.guilds[j]).id by {
                    assert(ids@[i] != ids@[j]);
                }
                assert forall|i: int| 0 <= i < self.guilds.len() implies (
                #[trigger] self.guilds[i]).id.0 <= self.sequences.guild by {
                    assert(ids@[i] <= self.sequences.guild);
                }
            }
            if self@.guilds_wf() {
                assert forall|i: int, j: int| 0 <= i < j < ids@.len() implies ids@[i] != ids@[j] by {
                    assert(self@.guilds[i].id != self@.guilds[j].id);
                }
                assert forall|i: int| 0 <= i < ids@.len() implies ids@[i]
                    <= self.sequences.guild by {
                    assert(self@.guilds[i].id.0 <= self.sequences.guild);
                }
            }
        }
        bounded && distinct
    }

    /// Whether no address belongs to two adventurers.
    fn emails_are_distinct(&self) -> (b: bool)
        ensures
            b == (forall|i: int, j: int|
                0 <= i < j < self.adventurers.len() ==> (#[trigger] self.adventurers[i]).email@
                    != (#[trigger] self.adventurers[j]).email@),
    {
        let mut j: usize = 0;
        while j < self.adventurers.len()
            invariant
                j <= self.adventurers.len(),
                forall|a: int, c: int|
                    0 <= a < c < j ==> (#[trigger] self.adventurers[a]).email@ != (
                    #[trigger] self.adventurers[c]).email@,
            decreases self.adventurers.len() - j,
        {
            let mut i: usize = 0;
            while i < j
                invariant
                    i <= j < self.adventurers.len(),
                    forall|a: int|
                        0 <= a < i ==> (#[trigger] self.adventurers[a]).email@
                            != self.adventurers[j as int].email@,
                decreases j - i,
            {
                if self.adventurers[i].email == self.adventurers[j].email {
                    return false;
                }
                i += 1;
            }
            j += 1;
        }
        true
    }

    /// Whether the adventurer table is sound.
    pub fn adventurers_are_sound(&self) -> (b: bool)
        ensures
            b == self@.adventurers_wf(),
    {
        let ids = self.adventurer_ids();
        let bounded = all_at_most(&ids, self.sequences.adventurer);
        let distinct = all_distinct(&ids);
        let emails = self.emails_are_distinct();
        proof {
            if bounded && distinct {
                assert forall|i: int, j: int| 0 <= i < j < self.adventurers.len() implies (
                #[trigger] self.adventurers[i]).id != (#[trigger] self.adventurers[j]).id by {
                    assert(ids@[i] != ids@[j]);
                }
                assert forall|i: int| 0 <= i < self.adventurers.len() implies (
                #[trigger] self.adventurers[i]).id.0 <= self.sequences.adventurer by {
                    assert(ids@[i] <= self.sequences.adventurer);
                }
            }
            if self@.adventurers_wf() {
                assert forall|i: int, j: int| 0 <= i < j < ids@.len() implies ids@[i] != ids@[j] by {
                    assert(self@.adventurers[i].id != self@.adventurers[j].id);
                }
                assert forall|i: int| 0 <= i < ids@.len() implies ids@[i]
                    <= self.sequences.adventurer by {
                    assert(self@.adventurers[i].id.0 <= self.sequences.adventurer);
                }
            }
        }
        bounded && distinct && emails
    }

    /// Whether every quest row is sound in itself and has its parent
    /// before it.
    fn quest_rows_are_sound(&self) -> (b: bool)
        ensures
            b == (forall|i: int|
                0 <= i < self.quests.len() ==> self@.quest_row_is_sound(#[trigger] self.quests[i])),
    {
        let mut i: usize = 0;
        while i < self.quests.len()
            invariant
                i <= self.quests.len(),
                forall|k: int|
                    0 <= k < i ==> self@.quest_row_is_sound(#[trigger] self.quests[k]),
            decreases self.quests.len() - i,
        {
            let q = &self.quests[i];
            let kind_fits = match q.parent_quest_id {
                Some(parent) => q.quest_type == QuestType::Instance && parent.0 < q.id.0
                    && self.find_quest(parent).is_some(),
                None => q.quest_type == QuestType::Template,
            };
            let opened_fits = match q.open_date {
                Some(t) => safe_time(t),
                None => true,
            };
            let closed_fits = match q.close_date {
                Some(t) => safe_time(t),
                None => true,
            };
            let date_fits = opened_fits && closed_fits;
            if !(kind_fits && date_fits) {
                return false;
            }
            i += 1;
        }
        true
    }

    /// Whether the quest table is sound.
    pub fn quests_are_sound(&self) -> (b: bool)
        ensures
            b == self@.quests_wf(),
    {
        let ids = self.quest_ids();
        let bounded = all_at_most(&ids, self.sequences.quest);
        let distinct = all_distinct(&ids);
        let rows = self.quest_rows_are_sound();
        proof {
            if bounded && distinct && rows {
                assert forall|i: int, j: int| 0 <= i < j < self.quests.len() implies (
                #[trigger] self.quests[i]).id != (#[trigger] self.quests[j]).id by {
                    assert(ids@[i] != ids@[j]);
                }
                assert forall|i: int| 0 <= i < self.quests.len() implies (
                #[trigger] self.quests[i]).id.0 <= self.sequences.quest by {
                    assert(ids@[i] <= self.sequences.quest);
                }
                assert forall|i: int| 0 <= i < self.quests.len() implies self@.quest_row_is_sound(
                    #[trigger] self.quests[i],
                ) by {}
                assert(self@.quests_wf());
            }
            if self@.quests_wf() {
                assert forall|i: int, j: int| 0 <= i < j < ids@.len() implies ids@[i] != ids@[j] by {
                    assert(self@.quests[i].id != self@.quests[j].id);
                }
                assert forall|i: int| 0 <= i < ids@.len() implies ids@[i]
                    <= self.sequences.quest by {
                    assert(self@.quests[i].id.0 <= self.sequences.quest);
                }
            }
        }
        bounded && distinct && rows
    }

    /// Whether the task table is sound in itself.
    pub fn quest_tasks_are_sound(&self) -> (b: bool)
        ensures
            b == self@.quest_tasks_wf(),
    {
        let (own, quests) = self.task_ids();
        let bounded = all_at_most(&own, self.sequences.quest_task);
        let owned = all_at_most(&quests, self.sequences.quest);
        let distinct = all_distinct(&own);
        proof {
            if bounded && owned && distinct {
                assert forall|i: int, j: int| 0 <= i < j < self.quest_tasks.len() implies (
                #[trigger] self.quest_tasks[i]).id != (#[trigger] self.quest_tasks[j]).id by {
                    assert(own@[i] != own@[j]);
                }
                assert forall|i: int| 0 <= i < self.quest_tasks.len() implies (
                #[trigger] self.quest_tasks[i]).id <= self.sequences.quest_task
                    && self.quest_tasks[i].quest_id.0 <= self.sequences.quest by {
                    assert(own@[i] <= self.sequences.quest_task);
                    assert(quests@[i] <= self.sequences.quest);
                }
            }
            if self@.quest_tasks_wf() {
                assert forall|i: int, j: int| 0 <= i < j < own@.len() implies own@[i] != own@[j] by {
                    assert(self@.quest_tasks[i].id != self@.quest_tasks[j].id);
                }
                assert forall|i: int| 0 <= i < own@.len() implies own@[i]
                    <= self.sequences.quest_task by {
                    assert(self@.quest_tasks[i].id <= self.sequences.quest_task);
                }
                assert forall|i: int| 0 <= i < quests@.len() implies quests@[i]
                    <= self.sequences.quest by {
                    assert(self@.quest_tasks[i].quest_id.0 <= self.sequences.quest);
                }
            }
        }
        bounded && owned && distinct
    }

    /// Whether every quest has its one task.
    pub fn quests_have_one_task(&self) -> (b: bool)
        ensures
            b == self@.one_task_per_quest(),
    {
        let mut i: usize = 0;
        while i < self.quests.len()
            invariant
                i <= self.quests.len(),
                forall|k: int|
                    0 <= k < i ==> self@.tasks_of((#[trigger] self.quests[k]).id).len() == 1,
            decreases self.quests.len() - i,
        {
            if self.count_tasks(self.quests[i].id) != 1 {
                return false;
            }
            i += 1;
        }
        true
    }

    /// Whether the detail table is sound.
    pub fn quest_details_are_sound(&self) -> (b: bool)
        ensures
            b == self@.quest_details_wf(),
    {
        let (own, quests) = self.detail_ids();
        let bounded = all_at_most(&own, self.sequences.quest_detail);
        let owned = all_at_most(&quests, self.sequences.quest);
        let distinct = all_distinct(&own);
        proof {
            if bounded && owned && distinct {
                assert forall|i: int, j: int| 0 <= i < j < self.quest_details.len() implies (
                #[trigger] self.quest_details[i]).id != (#[trigger] self.quest_details[j]).id by {
                    assert(own@[i] != own@[j]);
                }
                assert forall|i: int| 0 <= i < self.quest_details.len() implies (
                #[trigger] self.quest_details[i]).id <= self.sequences.quest_detail
                    && self.quest_details[i].quest_id.0 <= self.sequences.quest by {
                    assert(own@[i] <= self.sequences.quest_detail);
                    assert(quests@[i] <= self.sequences.quest);
                }
            }
            if self@.quest_details_wf() {
                assert forall|i: int, j: int| 0 <= i < j < own@.len() implies own@[i] != own@[j] by {
                    assert(self@.quest_details[i].id != self@.quest_details[j].id);
                }
                assert forall|i: int| 0 <= i < own@.len() implies own@[i]
                    <= self.sequences.quest_detail by {
                    assert(self@.quest_details[i].id <= self.sequences.quest_detail);
                }
                assert forall|i: int| 0 <= i < quests@.len() implies quests@[i]
                    <= self.sequences.quest by {
                    assert(self@.quest_details[i].quest_id.0 <= self.sequences.quest);
                }
            }
        }
        bounded && owned && distinct
    }

    /// Whether some quest row with the id `quest` is an instance.
    pub fn is_instance(&self, quest: QuestId) -> (b: bool)
        ensures
            b == self@.is_instance(quest),
    {
        let mut i: usize = 0;
        while i < self.quests.len()
            invariant
                i <= self.quests.len(),
                forall|k: int|
                    0 <= k < i ==> !((#[trigger] self.quests[k]).id == quest
                        && !self.quests[k].is_template()),
            decreases self.quests.len() - i,
        {
            if self.quests[i].id == quest && self.quests[i].quest_type == QuestType::Instance {
                return true;
            }
            i += 1;
        }
        false
    }

    /// Whether every party belongs to an instance.
    fn parties_have_instances(&self) -> (b: bool)
        ensures
            b == (forall|i: int|
                0 <= i < self.party_members.len() ==> self@.is_instance(
                    (#[trigger] self.party_members[i]).quest_id,
                )),
    {
        let mut i: usize = 0;
        while i < self.party_members.len()
            invariant
                i <= self.party_members.len(),
                forall|k: int|
                    0 <= k < i ==> self@.is_instance((#[trigger] self.party_members[k]).quest_id),
            decreases self.party_members.len() - i,
        {
            if !self.is_instance(self.party_members[i].quest_id) {
                return false;
            }
            i += 1;
        }
        true
    }

    /// Whether the party table is sound.
    pub fn party_members_are_sound(&self) -> (b: bool)
        ensures
            b == self@.party_members_wf(),
    {
        let ids = self.party_quest_ids();
        let distinct = all_distinct(&ids);
        let instances = self.parties_have_instances();
        proof {
            if distinct {
                assert forall|i: int, j: int| 0 <= i < j < self.party_members.len() implies (
                #[trigger] self.party_members[i]).quest_id != (
                #[trigger] self.party_members[j]).quest_id by {
                    assert(ids@[i] != ids@[j]);
                }
            }
            if self@.party_members_wf() {
                assert forall|i: int, j: int| 0 <= i < j < ids@.len() implies ids@[i] != ids@[j] by {
                    assert(self@.party_members[i].quest_id != self@.party_members[j].quest_id);
                }
            }
        }
        distinct && instances
    }

    /// Whether the role table is sound.
    pub fn adventurer_roles_are_sound(&self) -> (b: bool)
        ensures
            b == self@.adventurer_roles_wf(),
    {
        let ids = self.led_guild_ids();
        let bounded = all_at_most(&ids, self.sequences.guild);
        let distinct = all_distinct(&ids);
        proof {
            if bounded && distinct {
                assert forall|i: int, j: int| 0 <= i < j < self.adventurer_roles.len() implies (
                #[trigger] self.adventurer_roles[i]).guild_id != (
                #[trigger] self.adventurer_roles[j]).guild_id by {
                    assert(ids@[i] != ids@[j]);
                }
                assert forall|i: int| 0 <= i < self.adventurer_roles.len() implies (
                #[trigger] self.adventurer_roles[i]).guild_id.0 <= self.sequences.guild by {
                    assert(ids@[i] <= self.sequences.guild);
                }
            }
            if self@.adventurer_roles_wf() {
                assert forall|i: int, j: int| 0 <= i < j < ids@.len() implies ids@[i] != ids@[j] by {
                    assert(self@.adventurer_roles[i].guild_id != self@.adventurer_roles[j].guild_id);
                }
                assert forall|i: int| 0 <= i < ids@.len() implies ids@[i]
                    <= self.sequences.guild by {
                    assert(self@.adventurer_roles[i].guild_id.0 <= self.sequences.guild);
                }
            }
        }
        bounded && distinct
    }

    /// Whether no flag is recorded twice.
    fn permissions_are_distinct(&self) -> (b: bool)
        ensures
            b == permissions_distinct(self.permissions@),
    {
        let mut j: usize = 0;
        while j < self.permissions.len()
            invariant
                j <= self.permissions.len(),
                forall|a: int, c: int|
                    0 <= a < c < j ==> (#[trigger] self.permissions[a]) != (
                    #[trigger] self.permissions[c]),
            decreases self.permissions.len() - j,
        {
            let mut i: usize = 0;
            while i < j
                invariant
                    i <= j < self.permissions.len(),
                    forall|a: int|
                        0 <= a < i ==> (#[trigger] self.permissions[a])
                            != self.permissions[j as int],
                decreases j - i,
            {
                let a = self.permissions[i];
                let c = self.permissions[j];
                if a.adventurer_id == c.adventurer_id && a.permission_type == c.permission_type {
                    return false;
                }
                i += 1;
            }
            j += 1;
        }
        true
    }

    /// Whether nobody is both approved and rejected.
    fn permissions_are_exclusive(&self) -> (b: bool)
        ensures
            b == permissions_exclusive(self.permissions@),
    {
        let mut i: usize = 0;
        while i < self.permissions.len()
            invariant
                i <= self.permissions.len(),
                forall|k: int|
                    0 <= k < i && (#[trigger] self.permissions[k]).permission_type
                        == PermissionType::Approved ==> !self@.has_permission(
                        self.permissions[k].adventurer_id,
                        PermissionType::Rejected,
                    ),
            decreases self.permissions.len() - i,
        {
            let row = self.permissions[i];
            if row.permission_type == PermissionType::Approved && self.has_permission(
                row.adventurer_id,
                PermissionType::Rejected,
            ) {
                proof {
                    assert(self.permissions@.contains(
                        PermissionRow {
                            adventurer_id: row.adventurer_id,
                            permission_type: PermissionType::Approved,
                        },
                    ));
                }
                return false;
            }
            i += 1;
        }
        proof {
            assert forall|user: UserId|
                !(#[trigger] self.permissions@.contains(
                    PermissionRow { adventurer_id: user, permission_type: PermissionType::Approved },
                ) && self.permissions@.contains(
                    PermissionRow { adventurer_id: user, permission_type: PermissionType::Rejected },
                )) by {
                let approved = PermissionRow {
                    adventurer_id: user,
                    permission_type: PermissionType::Approved,
                };
                if self.permissions@.contains(approved) {
                    let k = choose|k: int|
                        0 <= k < self.permissions@.len() && self.permissions@[k] == approved;
                    assert(!self@.has_permission(
                        self.permissions[k].adventurer_id,
                        PermissionType::Rejected,
                    ));
                }
            }
        }
        true
    }

    /// Whether the permission table is sound.
    pub fn permissions_are_sound(&self) -> (b: bool)
        ensures
            b == self@.permissions_wf(),
    {
        self.permissions_are_distinct() && self.permissions_are_exclusive()
    }

    /// Whether the session table is sound.
    pub fn auth_sessions_are_sound(&self) -> (b: bool)
        ensures
            b == self@.auth_sessions_wf(),
    {
        let ids = self.session_ids();
        let bounded = all_at_most(&ids, self.sequences.auth_session);
        let distinct = all_distinct(&ids);
        proof {
            if bounded && distinct {
                assert forall|i: int, j: int| 0 <= i < j < self.auth_sessions.len() implies (
                #[trigger] self.auth_sessions[i]).id != (#[trigger] self.auth_sessions[j]).id by {
                    assert(ids@[i] != ids@[j]);
                }
                assert forall|i: int| 0 <= i < self.auth_sessions.len() implies (
                #[trigger] self.auth_sessions[i]).id <= self.sequences.auth_session by {
                    assert(ids@[i] <= self.sequences.auth_session);
                }
            }
            if self@.auth_sessions_wf() {
                assert forall|i: int, j: int| 0 <= i < j < ids@.len() implies ids@[i] != ids@[j] by {
                    assert(self@.auth_sessions[i].id != self@.auth_sessions[j].id);
                }
                assert forall|i: int| 0 <= i < ids@.len() implies ids@[i]
                    <= self.sequences.auth_session by {
                    assert(self@.auth_sessions[i].id <= self.sequences.auth_session);
                }
            }
        }
        bounded && distinct
    }

    /// Whether the tables are sound: whether everything holds of them that
    /// the operations rely on. Tables that were filled by the operations
    /// are; tables that were read from elsewhere need not be.
    pub fn is_well_formed(&self) -> (b: bool)
        ensures
            b == self@.wf(),
    {
        self.guilds_are_sound() && self.adventurers_are_sound() && self.quests_are_sound()
            && self.quest_tasks_are_sound() && self.quests_have_one_task()
            && self.quest_details_are_sound() && self.party_members_are_sound()
            && self.adventurer_roles_are_sound() && self.permissions_are_sound()
            && self.auth_sessions_are_sound()
    }
}

} // verus!
