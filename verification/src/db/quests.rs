//! Quest rows: copying a quest into an instance, and closing or deleting one.

use vstd::prelude::*;
use crate::db::rows::{
    clone_text, PartyMemberRow, QuestDetailRow, QuestRow, QuestTaskRow, QuestType,
};
use crate::db::store::{detail_of, task_of, Sequences, Store, StoreView};
use crate::error::DbFault;
use crate::ids::{QuestId, UserId};
use crate::js::is_safe_time;
use crate::seqs::{
    lemma_filter_keeps_all, lemma_filter_keeps_none, lemma_filter_take_none, lemma_filter_take_step,
};

verus! {

/// The tasks `src` as copied into the quest `quest`, numbered from `last + 1`.
pub open spec fn copied_tasks(src: Seq<QuestTaskRow>, last: u32, quest: QuestId) -> Seq<
    QuestTaskRow,
> {
    Seq::new(src.len(), |k: int| src[k].copied((last + 1 + k) as u32, quest))
}

/// The details `src` as copied into the quest `quest`, numbered from `last + 1`.
pub open spec fn copied_details(src: Seq<QuestDetailRow>, last: u32, quest: QuestId) -> Seq<
    QuestDetailRow,
> {
    Seq::new(src.len(), |k: int| src[k].copied((last + 1 + k) as u32, quest))
}

impl StoreView {
    /// The id that the next quest row gets.
    pub open spec fn next_quest_id(self) -> QuestId {
        QuestId((self.sequences.quest + 1) as u32)
    }

    /// The row that accepting `quest` adds: an open instance of it in the
    /// same guild, under the same name.
    pub open spec fn instance_of(self, quest: QuestId) -> QuestRow {
        let source = self.quest_row(quest);
        QuestRow {
            id: self.next_quest_id(),
            guild_id: source.guild_id,
            parent_quest_id: Some(quest),
            name: source.name,
            quest_type: QuestType::Instance,
            repeatable: false,
            open_date: None,
            close_date: None,
            deleted_date: None,
        }
    }

    /// The tables have ids left for an instance of `quest` and for the
    /// copies of its tasks and details.
    pub open spec fn has_room_to_accept(self, quest: QuestId) -> bool {
        &&& self.sequences.quest < u32::MAX
        &&& self.sequences.quest_task + self.tasks_of(quest).len() <= u32::MAX
        &&& self.sequences.quest_detail + self.details_of(quest).len() <= u32::MAX
    }

    /// The store once `user` has accepted `quest`: one more quest row, a copy
    /// of each task and detail of `quest` under it, and `user` as its party.
    pub open spec fn accept_quest(self, user: UserId, quest: QuestId) -> StoreView {
        let new_id = self.next_quest_id();
        StoreView {
            quests: self.quests.push(self.instance_of(quest)),
            quest_tasks: self.quest_tasks + copied_tasks(
                self.tasks_of(quest),
                self.sequences.quest_task,
                new_id,
            ),
            quest_details: self.quest_details + copied_details(
                self.details_of(quest),
                self.sequences.quest_detail,
                new_id,
            ),
            party_members: self.party_members.push(
                PartyMemberRow { adventurer_id: user, quest_id: new_id },
            ),
            sequences: Sequences {
                quest: new_id.0,
                quest_task: (self.sequences.quest_task + self.tasks_of(quest).len()) as u32,
                quest_detail: (self.sequences.quest_detail + self.details_of(quest).len()) as u32,
                ..self.sequences
            },
            ..self
        }
    }

    /// The store once the quest `quest` was completed at `now`.
    pub open spec fn close_quest(self, quest: QuestId, now: i64) -> StoreView {
        StoreView {
            quests: self.quests.map_values(
                |q: QuestRow|
                    if q.id == quest {
                        QuestRow { close_date: Some(now), ..q }
                    } else {
                        q
                    },
            ),
            ..self
        }
    }

    /// The store once the quest `quest` was deleted at `now`. The row stays.
    pub open spec fn delete_quest(self, quest: QuestId, now: i64) -> StoreView {
        StoreView {
            quests: self.quests.map_values(
                |q: QuestRow|
                    if q.id == quest {
                        QuestRow { deleted_date: Some(now), ..q }
                    } else {
                        q
                    },
            ),
            ..self
        }
    }

    /// Accepting keeps the store sound.
    pub proof fn lemma_accept_quest_wf(self, user: UserId, quest: QuestId)
        requires
            self.wf(),
            self.quest_row_exists(quest),
            self.has_room_to_accept(quest),
        ensures
            self.accept_quest(user, quest).wf(),
    {
        let after = self.accept_quest(user, quest);
        let new_id = self.next_quest_id();
        let n = self.quests.len() as int;
        assert(after.quests[n] == self.instance_of(quest));
        assert forall|i: int| 0 <= i < n implies after.quests[i] == self.quests[i] by {}
        // quests
        assert forall|i: int|
            0 <= i < after.quests.len() && (#[trigger] after.quests[i]).parent_quest_id.is_some()
            implies after.quest_row_exists(after.quests[i].parent_quest_id.unwrap())
            && after.quests[i].parent_quest_id.unwrap().0 < after.quests[i].id.0 by {
            let parent = after.quests[i].parent_quest_id.unwrap();
            if i < n {
                assert(self.quests[i] == after.quests[i]);
            }
            assert(self.quest_row_exists(parent));
            let k = choose|k: int| 0 <= k < n && (#[trigger] self.quests[k]).id == parent;
            assert(after.quests[k].id == parent);
        }
        assert(after.quests_wf());
        // tasks
        let tasks = self.tasks_of(quest);
        let m = self.quest_tasks.len() as int;
        assert forall|i: int| 0 <= i < after.quest_tasks.len() implies (
        #[trigger] after.quest_tasks[i]).id <= after.sequences.quest_task
            && after.quest_tasks[i].quest_id.0 <= after.sequences.quest by {
            if i < m {
                assert(after.quest_tasks[i] == self.quest_tasks[i]);
            }
        }
        assert forall|i: int, j: int| 0 <= i < j < after.quest_tasks.len() implies (
        #[trigger] after.quest_tasks[i]).id != (#[trigger] after.quest_tasks[j]).id by {
            if i < m {
                assert(after.quest_tasks[i] == self.quest_tasks[i]);
            }
            if j < m {
                assert(after.quest_tasks[j] == self.quest_tasks[j]);
            }
        }
        let new_tasks = copied_tasks(tasks, self.sequences.quest_task, new_id);
        assert forall|i: int| 0 <= i < after.quests.len() implies after.tasks_of(
            (#[trigger] after.quests[i]).id,
        ).len() == 1 by {
            let id = after.quests[i].id;
            Seq::filter_distributes_over_add(self.quest_tasks, new_tasks, task_of(id));
            if i < n {
                assert(self.tasks_of(self.quests[i].id).len() == 1);
                lemma_filter_keeps_none(new_tasks, task_of(id));
            } else {
                let k = choose|k: int| 0 <= k < n && (#[trigger] self.quests[k]).id == quest;
                assert(self.tasks_of(self.quests[k].id).len() == 1);
                lemma_filter_keeps_none(self.quest_tasks, task_of(id));
                lemma_filter_keeps_all(new_tasks, task_of(id));
            }
        }
        // details
        let d = self.quest_details.len() as int;
        assert forall|i: int| 0 <= i < after.quest_details.len() implies (
        #[trigger] after.quest_details[i]).id <= after.sequences.quest_detail
            && after.quest_details[i].quest_id.0 <= after.sequences.quest by {
            if i < d {
                assert(after.quest_details[i] == self.quest_details[i]);
            }
        }
        assert forall|i: int, j: int| 0 <= i < j < after.quest_details.len() implies (
        #[trigger] after.quest_details[i]).id != (#[trigger] after.quest_details[j]).id by {
            if i < d {
                assert(after.quest_details[i] == self.quest_details[i]);
            }
            if j < d {
                assert(after.quest_details[j] == self.quest_details[j]);
            }
        }
        // party
        let p = self.party_members.len() as int;
        assert forall|i: int| 0 <= i < after.party_members.len() implies after.is_instance(
            (#[trigger] after.party_members[i]).quest_id,
        ) by {
            if i < p {
                assert(after.party_members[i] == self.party_members[i]);
                let q = self.party_members[i].quest_id;
                assert(self.is_instance(q));
                let k = choose|k: int|
                    0 <= k < n && (#[trigger] self.quests[k]).id == q
                        && !self.quests[k].is_template();
                assert(after.quests[k] == self.quests[k]);
            } else {
                assert(after.quests[n].id == new_id);
            }
        }
        assert forall|i: int, j: int| 0 <= i < j < after.party_members.len() implies (
        #[trigger] after.party_members[i]).quest_id != (
        #[trigger] after.party_members[j]).quest_id by {
            assert(after.party_members[i] == self.party_members[i]);
            let q = self.party_members[i].quest_id;
            assert(self.is_instance(q));
            if j < p {
                assert(after.party_members[j] == self.party_members[j]);
            }
        }
    }

    /// Rewriting quest rows keeps the store sound as long as each keeps its
    /// id, its kind, its parent and its opening time, and every completion
    /// time is one that a client can be shown.
    pub proof fn lemma_quests_rewritten_wf(self, after: StoreView)
        requires
            self.wf(),
            after == (StoreView { quests: after.quests, ..self }),
            after.quests.len() == self.quests.len(),
            forall|i: int|
                0 <= i < self.quests.len() ==> (#[trigger] after.quests[i]).id == self.quests[i].id
                    && after.quests[i].quest_type == self.quests[i].quest_type
                    && after.quests[i].parent_quest_id == self.quests[i].parent_quest_id,
            forall|i: int|
                0 <= i < self.quests.len() && (#[trigger] after.quests[i]).close_date.is_some()
                    ==> is_safe_time(after.quests[i].close_date.unwrap() as int),
            forall|i: int|
                0 <= i < self.quests.len() ==> (#[trigger] after.quests[i]).open_date
                    == self.quests[i].open_date,
        ensures
            after.wf(),
    {
        assert forall|q: QuestId| self.quest_row_exists(q) implies after.quest_row_exists(q) by {
            let k = choose|k: int| 0 <= k < self.quests.len() && (#[trigger] self.quests[k]).id == q;
            assert(after.quests[k].id == q);
        }
        assert forall|q: QuestId| self.is_instance(q) implies after.is_instance(q) by {
            let k = choose|k: int|
                0 <= k < self.quests.len() && (#[trigger] self.quests[k]).id == q
                    && !self.quests[k].is_template();
            assert(after.quests[k].id == q);
        }
        assert forall|i: int|
            0 <= i < after.quests.len() && (#[trigger] after.quests[i]).parent_quest_id.is_some()
            implies after.quest_row_exists(after.quests[i].parent_quest_id.unwrap())
            && after.quests[i].parent_quest_id.unwrap().0 < after.quests[i].id.0 by {
            assert(self.quests[i].parent_quest_id == after.quests[i].parent_quest_id);
        }
        assert forall|i: int| 0 <= i < after.quests.len() implies ((
        #[trigger] after.quests[i]).is_template() <==> after.quests[i].parent_quest_id.is_none()) by {
            assert(self.quests[i].is_template() <==> self.quests[i].parent_quest_id.is_none());
        }
        assert forall|i: int, j: int| 0 <= i < j < after.quests.len() implies (
        #[trigger] after.quests[i]).id != (#[trigger] after.quests[j]).id by {
            assert(self.quests[i].id != self.quests[j].id);
        }
        assert forall|i: int| 0 <= i < after.quests.len() implies (#[trigger] after.quests[i]).id.0
            <= after.sequences.quest by {
            assert(self.quests[i].id.0 <= self.sequences.quest);
        }
        assert forall|i: int| 0 <= i < after.party_members.len() implies after.is_instance(
            (#[trigger] after.party_members[i]).quest_id,
        ) by {
            assert(self.is_instance(self.party_members[i].quest_id));
        }
        assert forall|i: int| 0 <= i < after.quests.len() implies after.tasks_of(
            (#[trigger] after.quests[i]).id,
        ).len() == 1 by {
            assert(self.tasks_of(self.quests[i].id).len() == 1);
        }
    }

    /// A quest that is not deleted is the row found under its id.
    pub proof fn lemma_live_quest_row(self, quest: QuestId)
        requires
            self.quests_wf(),
            self.quest_exists(quest),
        ensures
            self.quest_row_exists(quest),
            self.quest_row(quest).id == quest,
            self.quest_row(quest).is_live(),
    {
        let i = choose|i: int|
            0 <= i < self.quests.len() && (#[trigger] self.quests[i]).id == quest
                && self.quests[i].is_live();
        self.lemma_quest_row(i);
    }

    /// Completing changes the completion time of the one row and no other
    /// row.
    pub proof fn lemma_close_quest_row(self, quest: QuestId, now: i64)
        requires
            self.quests_wf(),
            self.quest_row_exists(quest),
        ensures
            self.close_quest(quest, now).quest_row(quest) == (QuestRow {
                close_date: Some(now),
                ..self.quest_row(quest)
            }),
            forall|other: QuestId|
                other != quest && self.quest_row_exists(other) ==> #[trigger] self.close_quest(
                    quest,
                    now,
                ).quest_row(other) == self.quest_row(other),
    {
        let after = self.close_quest(quest, now);
        let i = choose|i: int| 0 <= i < self.quests.len() && (#[trigger] self.quests[i]).id == quest;
        self.lemma_quest_row(i);
        assert forall|a: int, b: int| 0 <= a < b < after.quests.len() implies (
        #[trigger] after.quests[a]).id != (#[trigger] after.quests[b]).id by {
            assert(self.quests[a].id != self.quests[b].id);
        }
        assert(after.quests[i].id == quest);
        after.lemma_row_at(i);
        assert forall|other: QuestId| other != quest && self.quest_row_exists(other) implies (
        #[trigger] after.quest_row(other)) == self.quest_row(other) by {
            let k = choose|k: int|
                0 <= k < self.quests.len() && (#[trigger] self.quests[k]).id == other;
            self.lemma_quest_row(k);
            assert(after.quests[k] == self.quests[k]);
            after.lemma_row_at(k);
        }
    }

    /// Deleting changes the deletion time of the one row and no other row.
    pub proof fn lemma_delete_quest_row(self, quest: QuestId, now: i64)
        requires
            self.quests_wf(),
            self.quest_row_exists(quest),
        ensures
            self.delete_quest(quest, now).quest_row(quest) == (QuestRow {
                deleted_date: Some(now),
                ..self.quest_row(quest)
            }),
            forall|other: QuestId|
                other != quest && self.quest_row_exists(other) ==> #[trigger] self.delete_quest(
                    quest,
                    now,
                ).quest_row(other) == self.quest_row(other),
    {
        let after = self.delete_quest(quest, now);
        let i = choose|i: int| 0 <= i < self.quests.len() && (#[trigger] self.quests[i]).id == quest;
        self.lemma_quest_row(i);
        assert forall|a: int, b: int| 0 <= a < b < after.quests.len() implies (
        #[trigger] after.quests[a]).id != (#[trigger] after.quests[b]).id by {
            assert(self.quests[a].id != self.quests[b].id);
        }
        assert(after.quests[i].id == quest);
        after.lemma_row_at(i);
        assert forall|other: QuestId| other != quest && self.quest_row_exists(other) implies (
        #[trigger] after.quest_row(other)) == self.quest_row(other) by {
            let k = choose|k: int|
                0 <= k < self.quests.len() && (#[trigger] self.quests[k]).id == other;
            self.lemma_quest_row(k);
            assert(after.quests[k] == self.quests[k]);
            after.lemma_row_at(k);
        }
    }

    /// Deleting a quest removes no row: whatever id had a row has one.
    pub proof fn lemma_delete_quest_exists(self, before: StoreView, quest: QuestId, now: i64)
        requires
            self == before.delete_quest(quest, now),
        ensures
            forall|q: QuestId| before.quest_row_exists(q) ==> #[trigger] self.quest_row_exists(q),
    {
        assert forall|q: QuestId| before.quest_row_exists(q) implies self.quest_row_exists(q) by {
            let k = choose|k: int|
                0 <= k < before.quests.len() && (#[trigger] before.quests[k]).id == q;
            assert(self.quests[k].id == q);
        }
    }

    /// Completing at a time that a client can be shown keeps the store sound.
    pub proof fn lemma_close_quest_wf(self, quest: QuestId, now: i64)
        requires
            self.wf(),
            is_safe_time(now as int),
        ensures
            self.close_quest(quest, now).wf(),
    {
        self.lemma_quests_rewritten_wf(self.close_quest(quest, now));
    }

    /// Deleting keeps the store sound.
    pub proof fn lemma_delete_quest_wf(self, quest: QuestId, now: i64)
        requires
            self.wf(),
        ensures
            self.delete_quest(quest, now).wf(),
    {
        self.lemma_quests_rewritten_wf(self.delete_quest(quest, now));
    }
}

impl Store {
    /// How many tasks `quest` has.
    pub fn count_tasks(&self, quest: QuestId) -> (n: usize)
        ensures
            n == self@.tasks_of(quest).len(),
    {
        let ghost rows = self.quest_tasks@;
        let ghost pred = task_of(quest);
        let mut n: usize = 0;
        let mut i: usize = 0;
        proof {
            lemma_filter_take_none(rows, pred);
        }
        while i < self.quest_tasks.len()
            invariant
                i <= self.quest_tasks.len(),
                rows == self.quest_tasks@,
                pred == task_of(quest),
                n == rows.take(i as int).filter(pred).len(),
                n <= i,
            decreases self.quest_tasks.len() - i,
        {
            proof {
                lemma_filter_take_step(rows, pred, i as int);
            }
            if self.quest_tasks[i].quest_id == quest {
                n += 1;
            }
            i += 1;
        }
        assert(rows.take(i as int) =~= rows);
        n
    }

    /// How many details `quest` has.
    pub fn count_details(&self, quest: QuestId) -> (n: usize)
        ensures
            n == self@.details_of(quest).len(),
    {
        let ghost rows = self.quest_details@;
        let ghost pred = detail_of(quest);
        let mut n: usize = 0;
        let mut i: usize = 0;
        proof {
            lemma_filter_take_none(rows, pred);
        }
        while i < self.quest_details.len()
            invariant
                i <= self.quest_details.len(),
                rows == self.quest_details@,
                pred == detail_of(quest),
                n == rows.take(i as int).filter(pred).len(),
                n <= i,
            decreases self.quest_details.len() - i,
        {
            proof {
                lemma_filter_take_step(rows, pred, i as int);
            }
            if self.quest_details[i].quest_id == quest {
                n += 1;
            }
            i += 1;
        }
        assert(rows.take(i as int) =~= rows);
        n
    }

    /// Copies every task of `quest` into the quest `into`.
    fn copy_tasks(&mut self, quest: QuestId, into: QuestId)
        requires
            old(self).sequences.quest_task + old(self)@.tasks_of(quest).len() <= u32::MAX,
        ensures
            final(self)@ == (StoreView {
                quest_tasks: old(self)@.quest_tasks + copied_tasks(
                    old(self)@.tasks_of(quest),
                    old(self).sequences.quest_task,
                    into,
                ),
                sequences: Sequences {
                    quest_task: (old(self).sequences.quest_task + old(self)@.tasks_of(
                        quest,
                    ).len()) as u32,
                    ..old(self).sequences
                },
                ..old(self)@
            }),
    {
        let ghost rows = self.quest_tasks@;
        let ghost pred = task_of(quest);
        let last = self.sequences.quest_task;
        let len = self.quest_tasks.len();
        let mut next = last;
        let mut i: usize = 0;
        proof {
            lemma_filter_take_none(rows, pred);
            assert(self.quest_tasks@ =~= rows + copied_tasks(
                rows.take(0).filter(pred),
                last,
                into,
            ));
        }
        while i < len
            invariant
                i <= len,
                len == rows.len(),
                rows == old(self)@.quest_tasks,
                pred == task_of(quest),
                last == old(self).sequences.quest_task,
                last + rows.filter(pred).len() <= u32::MAX,
                next == last + rows.take(i as int).filter(pred).len(),
                self.quest_tasks@ == rows + copied_tasks(
                    rows.take(i as int).filter(pred),
                    last,
                    into,
                ),
                self@ == (StoreView { quest_tasks: self.quest_tasks@, ..old(self)@ }),
            decreases len - i,
        {
            proof {
                lemma_filter_take_step(rows, pred, i as int);
                rows.lemma_filter_take_len(pred, i as int + 1);
            }
            assert(self.quest_tasks[i as int] == rows[i as int]);
            if self.quest_tasks[i].quest_id == quest {
                next = next + 1;
                let copy = self.quest_tasks[i].copy_for(next, into);
                self.quest_tasks.push(copy);
                assert(self.quest_tasks@ =~= rows + copied_tasks(
                    rows.take(i as int + 1).filter(pred),
                    last,
                    into,
                ));
            }
            i += 1;
        }
        assert(rows.take(i as int) =~= rows);
        self.sequences.quest_task = next;
    }

    /// Copies every detail of `quest` into the quest `into`.
    fn copy_details(&mut self, quest: QuestId, into: QuestId)
        requires
            old(self).sequences.quest_detail + old(self)@.details_of(quest).len() <= u32::MAX,
        ensures
            final(self)@ == (StoreView {
                quest_details: old(self)@.quest_details + copied_details(
                    old(self)@.details_of(quest),
                    old(self).sequences.quest_detail,
                    into,
                ),
                sequences: Sequences {
                    quest_detail: (old(self).sequences.quest_detail + old(self)@.details_of(
                        quest,
                    ).len()) as u32,
                    ..old(self).sequences
                },
                ..old(self)@
            }),
    {
        let ghost rows = self.quest_details@;
        let ghost pred = detail_of(quest);
        let last = self.sequences.quest_detail;
        let len = self.quest_details.len();
        let mut next = last;
        let mut i: usize = 0;
        proof {
            lemma_filter_take_none(rows, pred);
            assert(self.quest_details@ =~= rows + copied_details(
                rows.take(0).filter(pred),
                last,
                into,
            ));
        }
        while i < len
            invariant
                i <= len,
                len == rows.len(),
                rows == old(self)@.quest_details,
                pred == detail_of(quest),
                last == old(self).sequences.quest_detail,
                last + rows.filter(pred).len() <= u32::MAX,
                next == last + rows.take(i as int).filter(pred).len(),
                self.quest_details@ == rows + copied_details(
                    rows.take(i as int).filter(pred),
                    last,
                    into,
                ),
                self@ == (StoreView { quest_details: self.quest_details@, ..old(self)@ }),
            decreases len - i,
        {
            proof {
                lemma_filter_take_step(rows, pred, i as int);
                rows.lemma_filter_take_len(pred, i as int + 1);
            }
            assert(self.quest_details[i as int] == rows[i as int]);
            if self.quest_details[i].quest_id == quest {
                next = next + 1;
                let copy = self.quest_details[i].copy_for(next, into);
                self.quest_details.push(copy);
                assert(self.quest_details@ =~= rows + copied_details(
                    rows.take(i as int + 1).filter(pred),
                    last,
                    into,
                ));
            }
            i += 1;
        }
        assert(rows.take(i as int) =~= rows);
        self.sequences.quest_detail = next;
    }

    /// Whether the tables have ids left for an instance of `quest`.
    pub fn has_room_to_accept(&self, quest: QuestId) -> (b: bool)
        ensures
            b == self@.has_room_to_accept(quest),
    {
        let tasks = self.count_tasks(quest);
        let details = self.count_details(quest);
        self.sequences.quest < u32::MAX && tasks <= (u32::MAX - self.sequences.quest_task) as usize
            && details <= (u32::MAX - self.sequences.quest_detail) as usize
    }

    /// Makes `user` an instance of `quest`: a new quest row in the same guild
    /// and under the same name, a copy of every task and detail of `quest`
    /// under it, and `user` as its party. Returns the instance's id.
    ///
    /// Either all of this happens or, where a table has no id left, nothing.
    pub fn accept_quest(&mut self, user: UserId, quest: QuestId) -> (r: Result<QuestId, DbFault>)
        requires
            old(self)@.wf(),
            old(self)@.quest_exists(quest),
        ensures
            final(self)@.wf(),
            match r {
                Ok(id) => {
                    &&& old(self)@.has_room_to_accept(quest)
                    &&& id == old(self)@.next_quest_id()
                    &&& final(self)@ == old(self)@.accept_quest(user, quest)
                },
                Err(e) => {
                    &&& !old(self)@.has_room_to_accept(quest)
                    &&& e == DbFault::IdsExhausted
                    &&& final(self)@ == old(self)@
                },
            },
    {
        if !self.has_room_to_accept(quest) {
            return Err(DbFault::IdsExhausted);
        }
        let found = self.find_quest(quest);
        let source = found.unwrap();
        let new_id = QuestId(self.sequences.quest + 1);
        let row = QuestRow {
            id: new_id,
            guild_id: self.quests[source].guild_id,
            parent_quest_id: Some(quest),
            name: clone_text(&self.quests[source].name),
            quest_type: QuestType::Instance,
            repeatable: false,
            open_date: None,
            close_date: None,
            deleted_date: None,
        };
        assert(row == old(self)@.instance_of(quest));
        self.quests.push(row);
        self.sequences.quest = new_id.0;
        self.copy_tasks(quest, new_id);
        self.copy_details(quest, new_id);
        self.party_members.push(PartyMemberRow { adventurer_id: user, quest_id: new_id });
        proof {
            old(self)@.lemma_accept_quest_wf(user, quest);
            assert(self@ =~= old(self)@.accept_quest(user, quest));
        }
        Ok(new_id)
    }

    /// Records `now` as the completion time of the quest `quest`.
    pub fn close_quest(&mut self, quest: QuestId, now: i64)
        requires
            old(self)@.wf(),
            old(self)@.quest_row_exists(quest),
            is_safe_time(now as int),
        ensures
            final(self)@ == old(self)@.close_quest(quest, now),
            final(self)@.wf(),
    {
        let found = self.find_quest(quest);
        let i = found.unwrap();
        self.quests[i].close_date = Some(now);
        proof {
            assert(self@.quests =~= old(self)@.close_quest(quest, now).quests);
            old(self)@.lemma_close_quest_wf(quest, now);
        }
    }

    /// Records `now` as the deletion time of the quest `quest`.
    pub fn delete_quest(&mut self, quest: QuestId, now: i64)
        requires
            old(self)@.wf(),
            old(self)@.quest_row_exists(quest),
        ensures
            final(self)@ == old(self)@.delete_quest(quest, now),
            final(self)@.wf(),
    {
        let found = self.find_quest(quest);
        let i = found.unwrap();
        self.quests[i].deleted_date = Some(now);
        proof {
            assert(self@.quests =~= old(self)@.delete_quest(quest, now).quests);
            old(self)@.lemma_delete_quest_wf(quest, now);
        }
    }
}

} // verus!
