//! The life of a quest instance: accepting a quest, completing or cancelling
//! the instance, and what an adventurer can accept next.

use vstd::prelude::*;
use crate::db::rows::{clone_text, PartyMemberRow, QuestRow, QuestTaskRow, QuestType};
use crate::db::check::safe_time;
use crate::db::quests::{copied_details, copied_tasks};
use crate::db::store::{task_of, Store, StoreView};
use crate::error::{DbFault, Error};
use crate::ids::{GuildId, QuestId, UserId};
use crate::js::{is_safe_time, JsInt, JsTimestamp};
use crate::laws::{law_accepting_copies_rows, lemma_accept_quest_rows};
use crate::seqs::{
    lemma_collect_ok, lemma_filter_contains, lemma_filter_first, lemma_filter_keeps_none,
    lemma_select_error_stays, lemma_select_none, lemma_select_step, select, yields,
};

verus! {

/// The answer to accepting a quest: the id of the new instance.
#[derive(Debug, Copy, Clone, PartialEq, Eq, Structural)]
pub struct AcceptedQuest {
    pub quest_id: QuestId,
}

/// A quest action that an adventurer can accept.
#[derive(Debug, Clone, PartialEq, Eq)]
pub struct AvailableQuestAction {
    pub guild_id: GuildId,
    pub quest_id: QuestId,
    pub name: String,
    pub description: Option<String>,
    pub adventurer_note: Option<String>,
    pub xp: u32,
    pub repeatable: bool,
}

/// A quest instance that an adventurer has accepted and not yet completed.
#[derive(Debug, Clone, PartialEq, Eq)]
pub struct AcceptedQuestAction {
    pub guild_id: GuildId,
    pub quest_id: QuestId,
    pub name: String,
    pub description: Option<String>,
    pub adventurer_note: Option<String>,
    pub xp: u32,
    pub open_date: Option<JsTimestamp>,
}

/// A quest instance that an adventurer has completed.
#[derive(Debug, Clone, PartialEq, Eq)]
pub struct CompletedQuestAction {
    pub guild_id: GuildId,
    pub quest_id: QuestId,
    pub name: String,
    pub description: Option<String>,
    pub adventurer_note: Option<String>,
    pub xp: u32,
    pub accepted_date: Option<JsTimestamp>,
    /// In milliseconds, within the integers that a client holds exactly.
    pub completed_date: JsInt,
}

impl StoreView {
    /// The quest `quest` is neither completed nor deleted.
    pub open spec fn is_open_quest(self, quest: QuestId) -> bool {
        exists|i: int|
            0 <= i < self.quests.len() && (#[trigger] self.quests[i]).id == quest
                && self.quests[i].close_date.is_none() && self.quests[i].is_live()
    }

    /// The quest `quest` is completed and not deleted.
    pub open spec fn is_completed_quest(self, quest: QuestId) -> bool {
        exists|i: int|
            0 <= i < self.quests.len() && (#[trigger] self.quests[i]).id == quest
                && self.quests[i].close_date.is_some() && self.quests[i].is_live()
    }

    /// The test that the parties of the open quests of `user` pass.
    pub open spec fn accepted_by(self, user: UserId) -> spec_fn(PartyMemberRow) -> bool {
        |pm: PartyMemberRow| pm.adventurer_id == user && self.is_open_quest(pm.quest_id)
    }

    /// The test that the parties of the completed quests of `user` pass.
    pub open spec fn completed_by(self, user: UserId) -> spec_fn(PartyMemberRow) -> bool {
        |pm: PartyMemberRow| pm.adventurer_id == user && self.is_completed_quest(pm.quest_id)
    }

    /// How the quest of the party `pm` is shown among the accepted ones.
    pub open spec fn accepted_action(self, pm: PartyMemberRow) -> Result<
        AcceptedQuestAction,
        Error,
    > {
        let q = self.quest_row(pm.quest_id);
        match JsTimestamp::spec_optional(q.open_date) {
            Err(fault) => Err(Error::DbError(fault)),
            Ok(open_date) => match self.first_task(q.id) {
                None => Err(Error::DbError(DbFault::QueryReturnedNoRows)),
                Some(t) => Ok(
                    AcceptedQuestAction {
                        guild_id: q.guild_id,
                        quest_id: q.id,
                        name: t.name,
                        description: t.description,
                        adventurer_note: t.adventurer_note,
                        xp: t.xp,
                        open_date,
                    },
                ),
            },
        }
    }

    /// [`Self::accepted_action`] as a function value.
    pub open spec fn accepted_action_of(self) -> spec_fn(PartyMemberRow) -> Result<
        AcceptedQuestAction,
        Error,
    > {
        |pm: PartyMemberRow| self.accepted_action(pm)
    }

    /// How the quest of the party `pm` is shown among the completed ones.
    pub open spec fn completed_action(self, pm: PartyMemberRow) -> Result<
        CompletedQuestAction,
        Error,
    > {
        let q = self.quest_row(pm.quest_id);
        match JsTimestamp::spec_optional(q.open_date) {
            Err(fault) => Err(Error::DbError(fault)),
            Ok(accepted_date) => match self.first_task(q.id) {
                None => Err(Error::DbError(DbFault::QueryReturnedNoRows)),
                Some(t) => Ok(
                    CompletedQuestAction {
                        guild_id: q.guild_id,
                        quest_id: q.id,
                        name: t.name,
                        description: t.description,
                        adventurer_note: t.adventurer_note,
                        xp: t.xp,
                        accepted_date,
                        completed_date: JsInt::spec_millis(q.close_date.unwrap()),
                    },
                ),
            },
        }
    }

    /// [`Self::completed_action`] as a function value.
    pub open spec fn completed_action_of(self) -> spec_fn(PartyMemberRow) -> Result<
        CompletedQuestAction,
        Error,
    > {
        |pm: PartyMemberRow| self.completed_action(pm)
    }

    /// The quests that `user` has accepted and not yet completed or
    /// cancelled, in the order in which they were accepted.
    pub open spec fn accepted_quest_actions(self, user: UserId) -> Result<
        Seq<AcceptedQuestAction>,
        Error,
    > {
        if !self.adventurer_exists(user) {
            Err(Error::AdventurerNotFound { id: Some(user) })
        } else {
            select(self.party_members, self.accepted_by(user), self.accepted_action_of())
        }
    }

    /// The quests that `user` has completed, in the order in which they
    /// were accepted.
    pub open spec fn completed_quest_actions(self, user: UserId) -> Result<
        Seq<CompletedQuestAction>,
        Error,
    > {
        if !self.adventurer_exists(user) {
            Err(Error::AdventurerNotFound { id: Some(user) })
        } else {
            select(self.party_members, self.completed_by(user), self.completed_action_of())
        }
    }

    /// The first task of `quest`, which describes it in listings.
    pub open spec fn first_task(self, quest: QuestId) -> Option<QuestTaskRow> {
        let tasks = self.tasks_of(quest);
        if tasks.len() > 0 {
            Some(tasks[0])
        } else {
            None
        }
    }

    /// `user` is the party of an instance of `template` that is not deleted.
    pub open spec fn holds_live_instance_of(self, user: UserId, template: QuestId) -> bool {
        exists|i: int|
            0 <= i < self.quests.len() && (#[trigger] self.quests[i]).parent_quest_id == Some(
                template,
            ) && self.quests[i].is_live() && self.is_party_member(user, self.quests[i].id)
    }

    /// `user` can accept the quest `q`: it is a template that was not
    /// retired, and it is repeatable or `user` holds no instance of it.
    pub open spec fn is_available(self, q: QuestRow, user: UserId) -> bool {
        q.is_template() && q.is_live() && (q.repeatable || !self.holds_live_instance_of(
            user,
            q.id,
        ))
    }

    /// The quest `quest` is among those that `user` can accept.
    pub open spec fn offers(self, user: UserId, quest: QuestId) -> bool {
        exists|i: int|
            0 <= i < self.quests.len() && (#[trigger] self.quests[i]).id == quest
                && self.is_available(self.quests[i], user)
    }

    /// The test that the quests available to `user` pass.
    pub open spec fn available_to(self, user: UserId) -> spec_fn(QuestRow) -> bool {
        |q: QuestRow| self.is_available(q, user)
    }

    /// How the quest `q` is shown among the available ones.
    pub open spec fn available_action(self, q: QuestRow) -> Result<AvailableQuestAction, Error> {
        match self.first_task(q.id) {
            Some(t) => Ok(
                AvailableQuestAction {
                    guild_id: q.guild_id,
                    quest_id: q.id,
                    name: t.name,
                    description: t.description,
                    adventurer_note: t.adventurer_note,
                    xp: t.xp,
                    repeatable: q.repeatable,
                },
            ),
            None => Err(Error::DbError(DbFault::QueryReturnedNoRows)),
        }
    }

    /// [`Self::available_action`] as a function value.
    pub open spec fn available_action_of(self) -> spec_fn(QuestRow) -> Result<
        AvailableQuestAction,
        Error,
    > {
        |q: QuestRow| self.available_action(q)
    }

    /// The quest actions that `user` can accept, in table order.
    pub open spec fn available_quest_actions(self, user: UserId) -> Result<
        Seq<AvailableQuestAction>,
        Error,
    > {
        if !self.adventurer_exists(user) {
            Err(Error::AdventurerNotFound { id: Some(user) })
        } else {
            select(self.quests, self.available_to(user), self.available_action_of())
        }
    }

    /// In sound tables the listing of an adventurer's completed quests
    /// succeeds, and shows each of their completed parties in turn.
    pub proof fn lemma_completed_listing(self, user: UserId)
        requires
            self.wf(),
            self.adventurer_exists(user),
        ensures
            self.completed_quest_actions(user).is_ok(),
            self.completed_quest_actions(user).unwrap().len() == self.party_members.filter(
                self.completed_by(user),
            ).len(),
            forall|k: int|
                0 <= k < self.completed_quest_actions(user).unwrap().len() ==> {
                    let pm = self.party_members.filter(self.completed_by(user))[k];
                    &&& self.party_members.contains(pm)
                    &&& pm.adventurer_id == user
                    &&& self.is_completed_quest(pm.quest_id)
                    &&& (#[trigger] self.completed_quest_actions(user).unwrap()[k])
                        == self.completed_action(pm).unwrap()
                    &&& self.completed_quest_actions(user).unwrap()[k].quest_id == pm.quest_id
                },
    {
        let pred = self.completed_by(user);
        let f = self.completed_action_of();
        let kept = self.party_members.filter(pred);
        assert forall|k: int| 0 <= k < kept.len() implies (#[trigger] kept.map_values(
            f,
        )[k]).is_ok() && self.party_members.contains(kept[k]) && pred(kept[k])
            && self.completed_action(kept[k]).unwrap().quest_id == kept[k].quest_id by {
            assert(kept.contains(kept[k]));
            lemma_filter_contains(self.party_members, pred, kept[k]);
            let quest = kept[k].quest_id;
            let i = choose|i: int|
                0 <= i < self.quests.len() && (#[trigger] self.quests[i]).id == quest
                    && self.quests[i].close_date.is_some() && self.quests[i].is_live();
            self.lemma_quest_row(i);
            assert(self.quest_row_is_sound(self.quests[i]));
            assert(self.tasks_of(self.quests[i].id).len() == 1);
            if self.quests[i].open_date.is_some() {
                JsTimestamp::lemma_column_result(self.quests[i].open_date.unwrap());
            }
            assert(kept.map_values(f)[k] == self.completed_action(kept[k]));
        }
        lemma_collect_ok(kept.map_values(f));
    }

    /// In sound tables the listing of an adventurer's accepted quests
    /// succeeds, and shows each of their open parties in turn.
    pub proof fn lemma_accepted_listing(self, user: UserId)
        requires
            self.wf(),
            self.adventurer_exists(user),
        ensures
            self.accepted_quest_actions(user).is_ok(),
            self.accepted_quest_actions(user).unwrap().len() == self.party_members.filter(
                self.accepted_by(user),
            ).len(),
            forall|k: int|
                0 <= k < self.accepted_quest_actions(user).unwrap().len() ==> {
                    let pm = self.party_members.filter(self.accepted_by(user))[k];
                    &&& self.party_members.contains(pm)
                    &&& pm.adventurer_id == user
                    &&& self.is_open_quest(pm.quest_id)
                    &&& (#[trigger] self.accepted_quest_actions(user).unwrap()[k])
                        == self.accepted_action(pm).unwrap()
                    &&& self.accepted_quest_actions(user).unwrap()[k].quest_id == pm.quest_id
                },
    {
        let pred = self.accepted_by(user);
        let f = self.accepted_action_of();
        let kept = self.party_members.filter(pred);
        assert forall|k: int| 0 <= k < kept.len() implies (#[trigger] kept.map_values(
            f,
        )[k]).is_ok() && self.party_members.contains(kept[k]) && pred(kept[k])
            && self.accepted_action(kept[k]).unwrap().quest_id == kept[k].quest_id by {
            assert(kept.contains(kept[k]));
            lemma_filter_contains(self.party_members, pred, kept[k]);
            let quest = kept[k].quest_id;
            let i = choose|i: int|
                0 <= i < self.quests.len() && (#[trigger] self.quests[i]).id == quest
                    && self.quests[i].close_date.is_none() && self.quests[i].is_live();
            self.lemma_quest_row(i);
            assert(self.quest_row_is_sound(self.quests[i]));
            assert(self.tasks_of(self.quests[i].id).len() == 1);
            if self.quests[i].open_date.is_some() {
                JsTimestamp::lemma_column_result(self.quests[i].open_date.unwrap());
            }
            assert(kept.map_values(f)[k] == self.accepted_action(kept[k]));
        }
        lemma_collect_ok(kept.map_values(f));
    }

    /// In sound tables the listing for an adventurer succeeds.
    pub proof fn lemma_available_listing_succeeds(self, user: UserId)
        requires
            self.wf(),
            self.adventurer_exists(user),
        ensures
            self.available_quest_actions(user).is_ok(),
    {
        let pred = self.available_to(user);
        let f = self.available_action_of();
        let kept = self.quests.filter(pred);
        assert forall|k: int| 0 <= k < kept.len() implies (#[trigger] kept.map_values(
            f,
        )[k]).is_ok() by {
            assert(kept.contains(kept[k]));
            lemma_filter_contains(self.quests, pred, kept[k]);
            let i = choose|i: int| 0 <= i < self.quests.len() && self.quests[i] == kept[k];
            assert(self.tasks_of(self.quests[i].id).len() == 1);
            assert(kept.map_values(f)[k] == self.available_action(kept[k]));
        }
        lemma_collect_ok(kept.map_values(f));
    }

    /// A listing that succeeds names exactly the quests that `user` can
    /// accept.
    pub proof fn lemma_available_listing(self, user: UserId, quest: QuestId)
        requires
            self.available_quest_actions(user).is_ok(),
        ensures
            self.offers(user, quest) <==> exists|k: int|
                0 <= k < self.available_quest_actions(user).unwrap().len() && (
                #[trigger] self.available_quest_actions(user).unwrap()[k]).quest_id == quest,
    {
        let pred = self.available_to(user);
        let f = self.available_action_of();
        let kept = self.quests.filter(pred);
        let list = self.available_quest_actions(user).unwrap();
        lemma_collect_ok(kept.map_values(f));
        assert forall|k: int| 0 <= k < kept.len() implies (#[trigger] list[k]).quest_id
            == kept[k].id && pred(kept[k]) && self.quests.contains(kept[k]) by {
            assert(kept.map_values(f)[k] == self.available_action(kept[k]));
            assert(kept.contains(kept[k]));
            lemma_filter_contains(self.quests, pred, kept[k]);
        }
        if self.offers(user, quest) {
            let i = choose|i: int|
                0 <= i < self.quests.len() && (#[trigger] self.quests[i]).id == quest
                    && self.is_available(self.quests[i], user);
            assert(self.quests.contains(self.quests[i]));
            lemma_filter_contains(self.quests, pred, self.quests[i]);
            let k = choose|k: int| 0 <= k < kept.len() && kept[k] == self.quests[i];
            assert(list[k].quest_id == quest);
        }
        if exists|k: int| 0 <= k < list.len() && (#[trigger] list[k]).quest_id == quest {
            let k = choose|k: int| 0 <= k < list.len() && (#[trigger] list[k]).quest_id == quest;
            let i = choose|i: int| 0 <= i < self.quests.len() && self.quests[i] == kept[k];
            assert(self.quests[i].id == quest);
        }
    }

    /// Why `user` may not complete or cancel `quest`, if anything.
    pub open spec fn party_refusal(self, user: UserId, quest: QuestId) -> Option<Error> {
        if !self.adventurer_exists(user) {
            Some(Error::AdventurerNotFound { id: Some(user) })
        } else if !self.quest_exists(quest) {
            Some(Error::QuestNotFound { id: Some(quest) })
        } else if !self.is_party_member(user, quest) {
            Some(Error::NotQuestMember { user_id: user, quest_id: quest })
        } else {
            None
        }
    }

    /// Why `user` may not complete `quest` at the time `now`, if anything:
    /// whatever keeps them from the quest, or else a time that a client
    /// could not be shown.
    pub open spec fn complete_refusal(self, user: UserId, quest: QuestId, now: i64) -> Option<
        Error,
    > {
        match self.party_refusal(user, quest) {
            Some(e) => Some(e),
            None => if is_safe_time(now as int) {
                None
            } else {
                Some(Error::DbError(DbFault::OutOfRange(now)))
            },
        }
    }

    /// Why `user` may not accept `quest`, if anything.
    pub open spec fn accept_refusal(self, user: UserId, quest: QuestId) -> Option<Error> {
        if !self.adventurer_exists(user) {
            Some(Error::AdventurerNotFound { id: Some(user) })
        } else if !self.quest_exists(quest) {
            Some(Error::QuestNotFound { id: Some(quest) })
        } else if !self.has_room_to_accept(quest) {
            Some(Error::DbError(DbFault::IdsExhausted))
        } else {
            None
        }
    }
}

impl Store {
    /// The position of the first task of `quest`, if it has one.
    pub fn first_task(&self, quest: QuestId) -> (r: Option<usize>)
        ensures
            match r {
                Some(i) => i < self.quest_tasks.len() && self@.first_task(quest) == Some(
                    self.quest_tasks[i as int],
                ),
                None => self@.first_task(quest).is_none(),
            },
    {
        let mut i: usize = 0;
        while i < self.quest_tasks.len()
            invariant
                i <= self.quest_tasks.len(),
                forall|k: int| 0 <= k < i ==> !task_of(quest)(self.quest_tasks[k]),
            decreases self.quest_tasks.len() - i,
        {
            if self.quest_tasks[i].quest_id == quest {
                proof {
                    lemma_filter_first(self.quest_tasks@, task_of(quest), i as int);
                }
                return Some(i);
            }
            i += 1;
        }
        proof {
            lemma_filter_keeps_none(self.quest_tasks@, task_of(quest));
        }
        None
    }

    /// Whether `user` is the party of a live instance of `template`.
    pub fn holds_live_instance_of(&self, user: UserId, template: QuestId) -> (b: bool)
        ensures
            b == self@.holds_live_instance_of(user, template),
    {
        let mut i: usize = 0;
        while i < self.quests.len()
            invariant
                i <= self.quests.len(),
                forall|k: int|
                    0 <= k < i ==> !((#[trigger] self.quests[k]).parent_quest_id == Some(template)
                        && self.quests[k].is_live() && self@.is_party_member(
                        user,
                        self.quests[k].id,
                    )),
            decreases self.quests.len() - i,
        {
            let is_child = match self.quests[i].parent_quest_id {
                Some(parent) => parent == template,
                None => false,
            };
            if is_child && self.quests[i].deleted_date.is_none() && self.is_party_member(
                user,
                self.quests[i].id,
            ) {
                return true;
            }
            i += 1;
        }
        false
    }

    /// Whether `user` can accept the quest at position `i`.
    pub fn is_available_at(&self, i: usize, user: UserId) -> (b: bool)
        requires
            i < self.quests.len(),
        ensures
            b == self@.is_available(self.quests[i as int], user),
    {
        let q = &self.quests[i];
        q.quest_type == QuestType::Template && q.deleted_date.is_none() && (q.repeatable || !self.holds_live_instance_of(
            user,
            q.id,
        ))
    }
}

/// Lists the quest actions that `user_id` can accept: every template that
/// was not retired and that is repeatable or of which the adventurer holds
/// no instance. The listing is computed anew from the tables on every call.
pub fn get_user_available_quest_actions(store: &Store, user_id: UserId) -> (r: Result<
    Vec<AvailableQuestAction>,
    Error,
>)
    ensures
        yields(r, store@.available_quest_actions(user_id)),
{
    if !store.adventurer_exists(user_id) {
        return Err(Error::AdventurerNotFound { id: Some(user_id) });
    }
    let ghost pred = store@.available_to(user_id);
    let ghost f = store@.available_action_of();
    let ghost rows = store.quests@;
    let mut out: Vec<AvailableQuestAction> = Vec::new();
    let mut i: usize = 0;
    proof {
        lemma_select_none(rows, pred, f);
    }
    while i < store.quests.len()
        invariant
            i <= store.quests.len(),
            store@.adventurer_exists(user_id),
            rows == store.quests@,
            pred == store@.available_to(user_id),
            f == store@.available_action_of(),
            select(rows.take(i as int), pred, f) == Ok::<Seq<AvailableQuestAction>, Error>(out@),
        decreases store.quests.len() - i,
    {
        proof {
            lemma_select_step(rows, pred, f, i as int);
        }
        if store.is_available_at(i, user_id) {
            let q = &store.quests[i];
            match store.first_task(q.id) {
                Some(t) => {
                    let task = &store.quest_tasks[t];
                    out.push(
                        AvailableQuestAction {
                            guild_id: q.guild_id,
                            quest_id: q.id,
                            name: task.name.clone(),
                            description: clone_text(&task.description),
                            adventurer_note: clone_text(&task.adventurer_note),
                            xp: task.xp,
                            repeatable: q.repeatable,
                        },
                    );
                },
                None => {
                    proof {
                        assert(f(rows[i as int]) == store@.available_action(rows[i as int]));
                        lemma_select_error_stays(rows, pred, f, i as int + 1);
                    }
                    return Err(Error::DbError(DbFault::QueryReturnedNoRows));
                },
            }
        }
        i += 1;
    }
    assert(rows.take(i as int) =~= rows);
    Ok(out)
}

/// Lists the quests that `user_id` has accepted and neither completed nor
/// cancelled.
pub fn get_user_accepted_quest_actions(store: &Store, user_id: UserId) -> (r: Result<
    Vec<AcceptedQuestAction>,
    Error,
>)
    requires
        store@.wf(),
    ensures
        yields(r, store@.accepted_quest_actions(user_id)),
{
    if !store.adventurer_exists(user_id) {
        return Err(Error::AdventurerNotFound { id: Some(user_id) });
    }
    let ghost pred = store@.accepted_by(user_id);
    let ghost f = store@.accepted_action_of();
    let ghost rows = store.party_members@;
    let mut out: Vec<AcceptedQuestAction> = Vec::new();
    let mut i: usize = 0;
    proof {
        lemma_select_none(rows, pred, f);
    }
    while i < store.party_members.len()
        invariant
            i <= store.party_members.len(),
            store@.wf(),
            store@.adventurer_exists(user_id),
            rows == store.party_members@,
            pred == store@.accepted_by(user_id),
            f == store@.accepted_action_of(),
            select(rows.take(i as int), pred, f) == Ok::<Seq<AcceptedQuestAction>, Error>(out@),
        decreases store.party_members.len() - i,
    {
        proof {
            lemma_select_step(rows, pred, f, i as int);
        }
        let pm = store.party_members[i];
        let found = if pm.adventurer_id == user_id {
            store.find_quest(pm.quest_id)
        } else {
            None
        };
        let chosen = match found {
            Some(at) => {
                proof {
                    store@.lemma_quest_row(at as int);
                    store@.lemma_found_quest(at as int);
                }
                if store.quests[at].close_date.is_none() && store.quests[at].deleted_date.is_none() {
                    Some(at)
                } else {
                    None
                }
            },
            None => None,
        };
        assert(chosen.is_some() == pred(rows[i as int]));
        match chosen {
            Some(at) => {
                let q = &store.quests[at];
                assert(f(rows[i as int]) == store@.accepted_action(rows[i as int]));
                let open_date = match JsTimestamp::optional(q.open_date) {
                    Ok(t) => t,
                    Err(fault) => {
                        proof {
                            lemma_select_error_stays(rows, pred, f, i as int + 1);
                        }
                        return Err(Error::DbError(fault));
                    },
                };
                match store.first_task(q.id) {
                    Some(t) => {
                        let task = &store.quest_tasks[t];
                        out.push(
                            AcceptedQuestAction {
                                guild_id: q.guild_id,
                                quest_id: q.id,
                                name: task.name.clone(),
                                description: clone_text(&task.description),
                                adventurer_note: clone_text(&task.adventurer_note),
                                xp: task.xp,
                                open_date,
                            },
                        );
                    },
                    None => {
                        proof {
                            lemma_select_error_stays(rows, pred, f, i as int + 1);
                        }
                        return Err(Error::DbError(DbFault::QueryReturnedNoRows));
                    },
                }
            },
            None => {},
        }
        i += 1;
    }
    assert(rows.take(i as int) =~= rows);
    Ok(out)
}

/// Lists the quests that `user_id` has completed, each with the time of
/// its completion in milliseconds.
pub fn get_user_completed_quest_actions(store: &Store, user_id: UserId) -> (r: Result<
    Vec<CompletedQuestAction>,
    Error,
>)
    requires
        store@.wf(),
    ensures
        yields(r, store@.completed_quest_actions(user_id)),
{
    if !store.adventurer_exists(user_id) {
        return Err(Error::AdventurerNotFound { id: Some(user_id) });
    }
    let ghost pred = store@.completed_by(user_id);
    let ghost f = store@.completed_action_of();
    let ghost rows = store.party_members@;
    let mut out: Vec<CompletedQuestAction> = Vec::new();
    let mut i: usize = 0;
    proof {
        lemma_select_none(rows, pred, f);
    }
    while i < store.party_members.len()
        invariant
            i <= store.party_members.len(),
            store@.wf(),
            store@.adventurer_exists(user_id),
            rows == store.party_members@,
            pred == store@.completed_by(user_id),
            f == store@.completed_action_of(),
            select(rows.take(i as int), pred, f) == Ok::<Seq<CompletedQuestAction>, Error>(out@),
        decreases store.party_members.len() - i,
    {
        proof {
            lemma_select_step(rows, pred, f, i as int);
        }
        let pm = store.party_members[i];
        let found = if pm.adventurer_id == user_id {
            store.find_quest(pm.quest_id)
        } else {
            None
        };
        let chosen = match found {
            Some(at) => {
                proof {
                    store@.lemma_quest_row(at as int);
                    store@.lemma_found_quest(at as int);
                }
                if store.quests[at].close_date.is_some() && store.quests[at].deleted_date.is_none() {
                    Some(at)
                } else {
                    None
                }
            },
            None => None,
        };
        assert(chosen.is_some() == pred(rows[i as int]));
        match chosen {
            Some(at) => {
                let q = &store.quests[at];
                assert(f(rows[i as int]) == store@.completed_action(rows[i as int]));
                let completed_date = JsInt::millis(q.close_date.unwrap());
                let accepted_date = match JsTimestamp::optional(q.open_date) {
                    Ok(t) => t,
                    Err(fault) => {
                        proof {
                            lemma_select_error_stays(rows, pred, f, i as int + 1);
                        }
                        return Err(Error::DbError(fault));
                    },
                };
                match store.first_task(q.id) {
                    Some(t) => {
                        let task = &store.quest_tasks[t];
                        out.push(
                            CompletedQuestAction {
                                guild_id: q.guild_id,
                                quest_id: q.id,
                                name: task.name.clone(),
                                description: clone_text(&task.description),
                                adventurer_note: clone_text(&task.adventurer_note),
                                xp: task.xp,
                                accepted_date,
                                completed_date,
                            },
                        );
                    },
                    None => {
                        proof {
                            lemma_select_error_stays(rows, pred, f, i as int + 1);
                        }
                        return Err(Error::DbError(DbFault::QueryReturnedNoRows));
                    },
                }
            },
            None => {},
        }
        i += 1;
    }
    assert(rows.take(i as int) =~= rows);
    Ok(out)
}

/// Accepts the quest `quest_id` for `user_id`, and returns the id of the
/// instance that this made: an id that no quest had before. The instance
/// has a copy of every task and detail of the quest, in the same order and
/// equal to it in every field but the row's id and the quest it belongs
/// to; the quest's own rows stay as they were.
///
/// The quest need not be a template: an instance can be accepted too, and
/// the new instance then has that instance as its parent.
pub fn accept_quest(store: &mut Store, user_id: UserId, quest_id: QuestId) -> (r: Result<
    AcceptedQuest,
    Error,
>)
    requires
        old(store)@.wf(),
    ensures
        final(store)@.wf(),
        match r {
            Ok(accepted) => {
                &&& old(store)@.accept_refusal(user_id, quest_id).is_none()
                &&& accepted.quest_id == old(store)@.next_quest_id()
                &&& final(store)@ == old(store)@.accept_quest(user_id, quest_id)
                &&& accepted.quest_id != quest_id
                &&& forall|i: int|
                    0 <= i < old(store)@.quests.len() ==> (#[trigger] old(store)@.quests[i]).id
                        != accepted.quest_id
                &&& final(store)@.tasks_of(accepted.quest_id) == copied_tasks(
                    old(store)@.tasks_of(quest_id),
                    old(store).sequences.quest_task,
                    accepted.quest_id,
                )
                &&& final(store)@.details_of(accepted.quest_id) == copied_details(
                    old(store)@.details_of(quest_id),
                    old(store).sequences.quest_detail,
                    accepted.quest_id,
                )
                &&& final(store)@.tasks_of(quest_id) == old(store)@.tasks_of(quest_id)
                &&& final(store)@.details_of(quest_id) == old(store)@.details_of(quest_id)
                &&& final(store)@.is_party_member(user_id, accepted.quest_id)
            },
            Err(e) => {
                &&& old(store)@.accept_refusal(user_id, quest_id) == Some(e)
                &&& final(store)@ == old(store)@
            },
        },
{
    if !store.adventurer_exists(user_id) {
        return Err(Error::AdventurerNotFound { id: Some(user_id) });
    }
    if !store.quest_exists(quest_id) {
        return Err(Error::QuestNotFound { id: Some(quest_id) });
    }
    match store.accept_quest(user_id, quest_id) {
        Ok(new_id) => {
            proof {
                law_accepting_copies_rows(old(store)@, user_id, quest_id);
                lemma_accept_quest_rows(old(store)@, user_id, quest_id);
            }
            Ok(AcceptedQuest { quest_id: new_id })
        },
        Err(e) => Err(Error::DbError(e)),
    }
}

/// Completes the instance `quest_id` of `user_id` at the time `now`, in
/// seconds since the epoch: the time is recorded as the instance's
/// completion time, and nothing else changes. A time that is not a safe
/// integer in milliseconds is refused, since no client could be shown it.
pub fn complete_quest(store: &mut Store, user_id: UserId, quest_id: QuestId, now: i64) -> (r:
    Result<(), Error>)
    requires
        old(store)@.wf(),
    ensures
        final(store)@.wf(),
        match r {
            Ok(_) => {
                &&& old(store)@.complete_refusal(user_id, quest_id, now).is_none()
                &&& final(store)@ == old(store)@.close_quest(quest_id, now)
                &&& final(store)@.quest_row(quest_id) == (QuestRow {
                    close_date: Some(now),
                    ..old(store)@.quest_row(quest_id)
                })
                &&& final(store)@.quest_row(quest_id).deleted_date.is_none()
            },
            Err(e) => {
                &&& old(store)@.complete_refusal(user_id, quest_id, now) == Some(e)
                &&& final(store)@ == old(store)@
            },
        },
{
    if !store.adventurer_exists(user_id) {
        return Err(Error::AdventurerNotFound { id: Some(user_id) });
    }
    if !store.quest_exists(quest_id) {
        return Err(Error::QuestNotFound { id: Some(quest_id) });
    }
    if !store.is_party_member(user_id, quest_id) {
        return Err(Error::NotQuestMember { user_id, quest_id });
    }
    if !safe_time(now) {
        return Err(Error::DbError(DbFault::OutOfRange(now)));
    }
    proof {
        old(store)@.lemma_live_quest_row(quest_id);
        old(store)@.lemma_close_quest_row(quest_id, now);
    }
    store.close_quest(quest_id, now);
    Ok(())
}

/// Cancels the instance `quest_id` of `user_id` at the time `now`: the
/// instance is marked deleted and stays in the table.
pub fn cancel_quest(store: &mut Store, user_id: UserId, quest_id: QuestId, now: i64) -> (r: Result<
    (),
    Error,
>)
    requires
        old(store)@.wf(),
    ensures
        final(store)@.wf(),
        match r {
            Ok(_) => {
                &&& old(store)@.party_refusal(user_id, quest_id).is_none()
                &&& final(store)@ == old(store)@.delete_quest(quest_id, now)
                &&& final(store)@.quest_row(quest_id) == (QuestRow {
                    deleted_date: Some(now),
                    ..old(store)@.quest_row(quest_id)
                })
            },
            Err(e) => {
                &&& old(store)@.party_refusal(user_id, quest_id) == Some(e)
                &&& final(store)@ == old(store)@
            },
        },
{
    if !store.adventurer_exists(user_id) {
        return Err(Error::AdventurerNotFound { id: Some(user_id) });
    }
    if !store.quest_exists(quest_id) {
        return Err(Error::QuestNotFound { id: Some(quest_id) });
    }
    if !store.is_party_member(user_id, quest_id) {
        return Err(Error::NotQuestMember { user_id, quest_id });
    }
    proof {
        old(store)@.lemma_live_quest_row(quest_id);
        old(store)@.lemma_delete_quest_row(quest_id, now);
    }
    store.delete_quest(quest_id, now);
    Ok(())
}

} // verus!
