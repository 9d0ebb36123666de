//! Guilds: who leads them and which quest actions they publish.

use vstd::prelude::*;
use crate::db::guilds::ActionText;
use crate::db::rows::{clone_text, GuildRow, QuestRow, QuestType};
use crate::db::store::{Store, StoreView};
use crate::error::{DbFault, Error};
use crate::ids::{GuildId, QuestId, UserId};
use crate::seqs::{
    lemma_collect_ok, lemma_filter_contains, lemma_select_error_stays, lemma_select_none,
    lemma_select_step, select, yields,
};

verus! {

/// A guild as it is listed.
#[derive(Debug, Clone, PartialEq, Eq)]
pub struct Guild {
    pub id: GuildId,
    pub name: String,
    pub leader_id: Option<UserId>,
    pub leader_name: Option<String>,
}

/// What is asked for when a guild is created.
#[derive(Debug, Clone, PartialEq, Eq)]
pub struct CreateGuild {
    pub name: String,
    pub leader_id: Option<UserId>,
}

/// What is asked for when a guild is updated.
#[derive(Debug, Clone, PartialEq, Eq)]
pub struct UpdateGuild {
    pub name: String,
    pub leader_id: Option<UserId>,
}

/// What is asked for when a guild gets a leader, or none.
#[derive(Debug, Copy, Clone, PartialEq, Eq, Structural)]
pub struct SetGuildLeader {
    pub id: Option<UserId>,
}

/// The leader of a guild.
#[derive(Debug, Copy, Clone, PartialEq, Eq, Structural)]
pub struct GetGuildLeader {
    pub id: UserId,
}

/// What is asked for when a quest action is published.
#[derive(Debug, Clone, PartialEq, Eq)]
pub struct CreateGuildQuestAction {
    pub name: String,
    pub description: Option<String>,
    pub adventurer_note: Option<String>,
    pub xp: u32,
    pub repeatable: bool,
}

/// The answer to publishing a quest action.
#[derive(Debug, Copy, Clone, PartialEq, Eq, Structural)]
pub struct CreatedGuildQuestAction {
    pub quest_id: QuestId,
}

/// What is asked for when a quest action is edited.
#[derive(Debug, Clone, PartialEq, Eq)]
pub struct EditGuildQuestAction {
    pub quest_id: QuestId,
    pub name: String,
    pub description: Option<String>,
    pub adventurer_note: Option<String>,
    pub xp: u32,
    pub repeatable: bool,
}

/// A quest action as its guild lists it. An action is stored as a
/// nameless quest with one task, which describes it.
#[derive(Debug, Clone, PartialEq, Eq)]
pub struct GuildQuestAction {
    pub id: QuestId,
    pub name: String,
    pub description: Option<String>,
    pub adventurer_note: Option<String>,
    pub xp: u32,
    pub repeatable: bool,
}

/// A guild together with every quest action that it offers.
#[derive(Debug, Clone, PartialEq, Eq)]
pub struct GuildQuestActionsBundle {
    pub guild_id: GuildId,
    pub guild_title: String,
    pub guild_quest_actions: Vec<GuildQuestAction>,
}

/// The mathematical content of a [`GuildQuestActionsBundle`].
pub struct GuildQuestActionsBundleView {
    pub guild_id: GuildId,
    pub guild_title: String,
    pub guild_quest_actions: Seq<GuildQuestAction>,
}

impl View for GuildQuestActionsBundle {
    type V = GuildQuestActionsBundleView;

    open spec fn view(&self) -> GuildQuestActionsBundleView {
        GuildQuestActionsBundleView {
            guild_id: self.guild_id,
            guild_title: self.guild_title,
            guild_quest_actions: self.guild_quest_actions@,
        }
    }
}

/// The contents of the bundles `bundles`.
pub open spec fn bundle_views(bundles: Seq<GuildQuestActionsBundle>) -> Seq<
    GuildQuestActionsBundleView,
> {
    bundles.map_values(|b: GuildQuestActionsBundle| b@)
}

/// The test that every guild passes.
pub open spec fn every_guild() -> spec_fn(GuildRow) -> bool {
    |g: GuildRow| true
}

impl StoreView {
    /// Why the guild `guild` cannot be given the leader `leader`, if
    /// anything.
    pub open spec fn leader_refusal(self, guild: GuildId, leader: Option<UserId>) -> Option<Error> {
        if !self.guild_exists(guild) {
            Some(Error::GuildNotFound { id: Some(guild) })
        } else if leader.is_some() && !self.adventurer_exists(leader.unwrap()) {
            Some(Error::AdventurerNotFound { id: leader })
        } else {
            None
        }
    }

    /// The name of the adventurer `user`, if there is such an adventurer.
    pub open spec fn adventurer_name(self, user: UserId) -> Option<String> {
        if self.adventurer_exists(user) {
            Some(self.adventurer_row(user).name)
        } else {
            None
        }
    }

    /// How the guild `g` is listed.
    pub open spec fn guild_summary(self, g: GuildRow) -> Guild {
        let leader = self.guild_leader(g.id);
        Guild {
            id: g.id,
            name: g.name,
            leader_id: leader,
            leader_name: match leader {
                Some(l) => self.adventurer_name(l),
                None => None,
            },
        }
    }

    /// The guilds as they are listed, in table order.
    pub open spec fn guild_summaries(self) -> Seq<Guild> {
        self.guilds.map_values(|g: GuildRow| self.guild_summary(g))
    }

    /// Why no quest action can be published, if anything.
    pub open spec fn publish_refusal(self) -> Option<Error> {
        if self.sequences.quest == u32::MAX || self.sequences.quest_task == u32::MAX {
            Some(Error::DbError(DbFault::IdsExhausted))
        } else {
            None
        }
    }

    /// Why the quest action `quest` of `guild` cannot be edited, if
    /// anything.
    pub open spec fn edit_refusal(self, guild: GuildId, quest: QuestId) -> Option<Error> {
        if !self.guild_exists(guild) {
            Some(Error::GuildNotFound { id: Some(guild) })
        } else if !self.quest_exists(quest) {
            Some(Error::QuestNotFound { id: Some(quest) })
        } else {
            None
        }
    }

    /// Why `guild` cannot retire the quest `quest`, if anything.
    pub open spec fn retire_refusal(self, guild: GuildId, quest: QuestId) -> Option<Error> {
        if !self.quest_exists(quest) {
            Some(Error::QuestNotFound { id: Some(quest) })
        } else if self.quest_row(quest).guild_id != guild {
            Some(Error::QuestNotBelongToGuild { quest_id: quest, guild_id: guild })
        } else {
            None
        }
    }

    /// The quest `q` is a quest action that `guild` offers: a template of
    /// the guild that was not retired.
    pub open spec fn is_offered_by(q: QuestRow, guild: GuildId) -> bool {
        q.guild_id == guild && q.is_live() && q.is_template()
    }

    /// The test that the quest actions that `guild` offers pass.
    pub open spec fn offered_by(guild: GuildId) -> spec_fn(QuestRow) -> bool {
        |q: QuestRow| Self::is_offered_by(q, guild)
    }

    /// How the quest `q` is listed by its guild.
    pub open spec fn guild_action(self, q: QuestRow) -> Result<GuildQuestAction, Error> {
        match self.first_task(q.id) {
            Some(t) => Ok(
                GuildQuestAction {
                    id: q.id,
                    name: t.name,
                    description: t.description,
                    adventurer_note: t.adventurer_note,
                    xp: t.xp,
                    repeatable: q.repeatable,
                },
            ),
            None => Err(Error::DbError(DbFault::QueryReturnedNoRows)),
        }
    }

    /// [`Self::guild_action`] as a function value.
    pub open spec fn guild_action_of(self) -> spec_fn(QuestRow) -> Result<GuildQuestAction, Error> {
        |q: QuestRow| self.guild_action(q)
    }

    /// The quest actions that `guild` offers, in table order.
    pub open spec fn guild_quest_actions(self, guild: GuildId) -> Result<
        Seq<GuildQuestAction>,
        Error,
    > {
        select(self.quests, Self::offered_by(guild), self.guild_action_of())
    }

    /// The guild `g` with the quest actions that it offers.
    pub open spec fn guild_bundle(self, g: GuildRow) -> Result<GuildQuestActionsBundleView, Error> {
        match self.guild_quest_actions(g.id) {
            Ok(actions) => Ok(
                GuildQuestActionsBundleView {
                    guild_id: g.id,
                    guild_title: g.name,
                    guild_quest_actions: actions,
                },
            ),
            Err(e) => Err(e),
        }
    }

    /// [`Self::guild_bundle`] as a function value.
    pub open spec fn guild_bundle_of(self) -> spec_fn(GuildRow) -> Result<
        GuildQuestActionsBundleView,
        Error,
    > {
        |g: GuildRow| self.guild_bundle(g)
    }

    /// Every guild with the quest actions that it offers, in table order.
    pub open spec fn guild_bundles(self) -> Result<Seq<GuildQuestActionsBundleView>, Error> {
        select(self.guilds, every_guild(), self.guild_bundle_of())
    }

    /// The quest `quest` is among the quest actions that `guild` offers.
    pub open spec fn offers_action(self, guild: GuildId, quest: QuestId) -> bool {
        exists|i: int|
            0 <= i < self.quests.len() && (#[trigger] self.quests[i]).id == quest
                && Self::is_offered_by(self.quests[i], guild)
    }

    /// In sound tables the listing of a guild's quest actions succeeds.
    pub proof fn lemma_guild_listing_succeeds(self, guild: GuildId)
        requires
            self.wf(),
        ensures
            self.guild_quest_actions(guild).is_ok(),
    {
        let pred = Self::offered_by(guild);
        let f = self.guild_action_of();
        let kept = self.quests.filter(pred);
        assert forall|k: int| 0 <= k < kept.len() implies (#[trigger] kept.map_values(
            f,
        )[k]).is_ok() by {
            assert(kept.contains(kept[k]));
            lemma_filter_contains(self.quests, pred, kept[k]);
            let i = choose|i: int| 0 <= i < self.quests.len() && self.quests[i] == kept[k];
            assert(self.tasks_of(self.quests[i].id).len() == 1);
            assert(kept.map_values(f)[k] == self.guild_action(kept[k]));
        }
        lemma_collect_ok(kept.map_values(f));
    }

    /// A listing that succeeds names exactly the quest actions that the
    /// guild offers.
    pub proof fn lemma_guild_listing(self, guild: GuildId, quest: QuestId)
        requires
            self.guild_quest_actions(guild).is_ok(),
        ensures
            self.offers_action(guild, quest) <==> exists|k: int|
                0 <= k < self.guild_quest_actions(guild).unwrap().len() && (
                #[trigger] self.guild_quest_actions(guild).unwrap()[k]).id == quest,
    {
        let pred = Self::offered_by(guild);
        let f = self.guild_action_of();
        let kept = self.quests.filter(pred);
        let list = self.guild_quest_actions(guild).unwrap();
        lemma_collect_ok(kept.map_values(f));
        assert forall|k: int| 0 <= k < kept.len() implies (#[trigger] list[k]).id == kept[k].id
            && pred(kept[k]) && self.quests.contains(kept[k]) by {
            assert(kept.map_values(f)[k] == self.guild_action(kept[k]));
            assert(kept.contains(kept[k]));
            lemma_filter_contains(self.quests, pred, kept[k]);
        }
        if self.offers_action(guild, quest) {
            let i = choose|i: int|
                0 <= i < self.quests.len() && (#[trigger] self.quests[i]).id == quest
                    && Self::is_offered_by(self.quests[i], guild);
            assert(self.quests.contains(self.quests[i]));
            lemma_filter_contains(self.quests, pred, self.quests[i]);
            let k = choose|k: int| 0 <= k < kept.len() && kept[k] == self.quests[i];
            assert(list[k].id == quest);
        }
        if exists|k: int| 0 <= k < list.len() && (#[trigger] list[k]).id == quest {
            let k = choose|k: int| 0 <= k < list.len() && (#[trigger] list[k]).id == quest;
            let i = choose|i: int| 0 <= i < self.quests.len() && self.quests[i] == kept[k];
            assert(self.quests[i].id == quest);
        }
    }
}

/// Creates a guild, led by the adventurer named if one is, and returns its
/// id.
pub fn create_guild(store: &mut Store, guild: CreateGuild) -> (r: Result<GuildId, Error>)
    requires
        old(store)@.wf(),
    ensures
        final(store)@.wf(),
        match r {
            Ok(id) => {
                &&& old(store).sequences.guild < u32::MAX
                &&& id == old(store)@.next_guild_id()
                &&& final(store)@ == old(store)@.create_guild(guild.name, guild.leader_id)
            },
            Err(e) => {
                &&& old(store).sequences.guild == u32::MAX
                &&& e == Error::DbError(DbFault::IdsExhausted)
                &&& final(store)@ == old(store)@
            },
        },
{
    if store.sequences.guild == u32::MAX {
        return Err(Error::DbError(DbFault::IdsExhausted));
    }
    Ok(store.create_guild(guild.name, guild.leader_id))
}

/// Gives the guild `guild_id` a new name and a new leader, or none. Either
/// both happen or, where the guild or the leader does not exist, neither.
pub fn update_guild(store: &mut Store, guild_id: GuildId, update: UpdateGuild) -> (r: Result<
    (),
    Error,
>)
    requires
        old(store)@.wf(),
    ensures
        final(store)@.wf(),
        match r {
            Ok(_) => {
                &&& old(store)@.leader_refusal(guild_id, update.leader_id).is_none()
                &&& final(store)@ == old(store)@.rename_guild(guild_id, update.name).set_leader(
                    guild_id,
                    update.leader_id,
                )
                &&& final(store)@.guild_leader(guild_id) == update.leader_id
            },
            Err(e) => {
                &&& old(store)@.leader_refusal(guild_id, update.leader_id) == Some(e)
                &&& final(store)@ == old(store)@
            },
        },
{
    if !store.guild_exists(guild_id) {
        return Err(Error::GuildNotFound { id: Some(guild_id) });
    }
    match update.leader_id {
        Some(leader) => {
            if !store.adventurer_exists(leader) {
                return Err(Error::AdventurerNotFound { id: Some(leader) });
            }
        },
        None => {},
    }
    proof {
        old(store)@.lemma_rename_guild_wf(guild_id, update.name);
    }
    store.rename_guild(guild_id, update.name);
    store.set_leader(guild_id, update.leader_id);
    Ok(())
}

/// The name of the guild `guild_id`.
pub fn get_guild_name(store: &Store, guild_id: GuildId) -> (r: Result<String, Error>)
    requires
        store@.wf(),
    ensures
        match r {
            Ok(name) => store@.guild_exists(guild_id) && name == store@.guild_row(guild_id).name,
            Err(e) => !store@.guild_exists(guild_id) && e == (Error::GuildNotFound {
                id: Some(guild_id),
            }),
        },
{
    match store.find_guild(guild_id) {
        Some(i) => Ok(store.guilds[i].name.clone()),
        None => Err(Error::GuildNotFound { id: Some(guild_id) }),
    }
}

/// Gives the guild `guild_id` the name `name`.
pub fn set_guild_name(store: &mut Store, guild_id: GuildId, name: String) -> (r: Result<(), Error>)
    requires
        old(store)@.wf(),
    ensures
        final(store)@.wf(),
        match r {
            Ok(_) => old(store)@.guild_exists(guild_id) && final(store)@ == old(store)@.rename_guild(guild_id, name),
            Err(e) => {
                &&& !old(store)@.guild_exists(guild_id)
                &&& e == Error::GuildNotFound { id: Some(guild_id) }
                &&& final(store)@ == old(store)@
            },
        },
{
    if !store.guild_exists(guild_id) {
        return Err(Error::GuildNotFound { id: Some(guild_id) });
    }
    store.rename_guild(guild_id, name);
    Ok(())
}

/// Makes the adventurer named the leader of the guild `guild_id`, in place
/// of whoever was; with no adventurer named, the guild is left without.
pub fn set_guild_leader(store: &mut Store, guild_id: GuildId, leader: SetGuildLeader) -> (r: Result<
    (),
    Error,
>)
    requires
        old(store)@.wf(),
    ensures
        final(store)@.wf(),
        match r {
            Ok(_) => {
                &&& old(store)@.leader_refusal(guild_id, leader.id).is_none()
                &&& final(store)@ == old(store)@.set_leader(guild_id, leader.id)
                &&& final(store)@.guild_leader(guild_id) == leader.id
            },
            Err(e) => {
                &&& old(store)@.leader_refusal(guild_id, leader.id) == Some(e)
                &&& final(store)@ == old(store)@
            },
        },
{
    if !store.guild_exists(guild_id) {
        return Err(Error::GuildNotFound { id: Some(guild_id) });
    }
    match leader.id {
        Some(id) => {
            if !store.adventurer_exists(id) {
                return Err(Error::AdventurerNotFound { id: Some(id) });
            }
        },
        None => {},
    }
    store.set_leader(guild_id, leader.id);
    Ok(())
}

/// The leader of the guild `guild_id`; `None` where it has none, and also
/// where there is no such guild.
pub fn get_guild_leader(store: &Store, guild_id: GuildId) -> (r: Option<GetGuildLeader>)
    ensures
        r == match store@.guild_leader(guild_id) {
            Some(id) => Some(GetGuildLeader { id }),
            None => None,
        },
{
    match store.guild_leader(guild_id) {
        Some(id) => Some(GetGuildLeader { id }),
        None => None,
    }
}

/// Lists the guilds, each with its leader's id and name if it has one.
pub fn get_guilds(store: &Store) -> (r: Vec<Guild>)
    requires
        store@.wf(),
    ensures
        r@ == store@.guild_summaries(),
{
    let mut out: Vec<Guild> = Vec::new();
    let mut i: usize = 0;
    while i < store.guilds.len()
        invariant
            i <= store.guilds.len(),
            store@.wf(),
            out@ == store@.guild_summaries().take(i as int),
        decreases store.guilds.len() - i,
    {
        let g = &store.guilds[i];
        let leader_id = store.guild_leader(g.id);
        let leader_name = match leader_id {
            Some(l) => match store.find_adventurer(l) {
                Some(a) => Some(store.adventurers[a].name.clone()),
                None => None,
            },
            None => None,
        };
        out.push(Guild { id: g.id, name: g.name.clone(), leader_id, leader_name });
        assert(out@ =~= store@.guild_summaries().take(i as int + 1));
        i += 1;
    }
    assert(store@.guild_summaries().take(i as int) =~= store@.guild_summaries());
    out
}

/// Publishes a quest action of the guild `guild_id` and returns its id.
pub fn create_guild_quest_action(
    store: &mut Store,
    guild_id: GuildId,
    action: CreateGuildQuestAction,
) -> (r: Result<CreatedGuildQuestAction, Error>)
    requires
        old(store)@.wf(),
    ensures
        final(store)@.wf(),
        match r {
            Ok(created) => {
                &&& old(store)@.publish_refusal().is_none()
                &&& created.quest_id == old(store)@.next_quest_id()
                &&& final(store)@ == old(store)@.create_quest_action(
                    guild_id,
                    ActionText {
                        name: action.name,
                        description: action.description,
                        adventurer_note: action.adventurer_note,
                        xp: action.xp,
                    },
                    action.repeatable,
                )
            },
            Err(e) => {
                &&& old(store)@.publish_refusal() == Some(e)
                &&& final(store)@ == old(store)@
            },
        },
{
    if store.sequences.quest == u32::MAX || store.sequences.quest_task == u32::MAX {
        return Err(Error::DbError(DbFault::IdsExhausted));
    }
    let text = ActionText {
        name: action.name,
        description: action.description,
        adventurer_note: action.adventurer_note,
        xp: action.xp,
    };
    let quest_id = store.create_quest_action(guild_id, text, action.repeatable);
    Ok(CreatedGuildQuestAction { quest_id })
}

/// Edits the text of a quest action and whether it is repeatable.
pub fn edit_guild_quest_action(store: &mut Store, guild_id: GuildId, action: EditGuildQuestAction)
    -> (r: Result<(), Error>)
    requires
        old(store)@.wf(),
    ensures
        final(store)@.wf(),
        match r {
            Ok(_) => {
                &&& old(store)@.edit_refusal(guild_id, action.quest_id).is_none()
                &&& final(store)@ == old(store)@.edit_quest_action(
                    action.quest_id,
                    ActionText {
                        name: action.name,
                        description: action.description,
                        adventurer_note: action.adventurer_note,
                        xp: action.xp,
                    },
                    action.repeatable,
                )
            },
            Err(e) => {
                &&& old(store)@.edit_refusal(guild_id, action.quest_id) == Some(e)
                &&& final(store)@ == old(store)@
            },
        },
{
    if !store.guild_exists(guild_id) {
        return Err(Error::GuildNotFound { id: Some(guild_id) });
    }
    if !store.quest_exists(action.quest_id) {
        return Err(Error::QuestNotFound { id: Some(action.quest_id) });
    }
    let text = ActionText {
        name: action.name,
        description: action.description,
        adventurer_note: action.adventurer_note,
        xp: action.xp,
    };
    store.edit_quest_action(action.quest_id, text, action.repeatable);
    Ok(())
}

/// Retires the quest action `quest_id` of the guild `guild_id` at the time
/// `now`: it is marked deleted and no longer offered. Instances that
/// adventurers hold of it stay as they are.
pub fn retire_guild_quest_action(store: &mut Store, guild_id: GuildId, quest_id: QuestId, now: i64)
    -> (r: Result<(), Error>)
    requires
        old(store)@.wf(),
    ensures
        final(store)@.wf(),
        match r {
            Ok(_) => {
                &&& old(store)@.retire_refusal(guild_id, quest_id).is_none()
                &&& final(store)@ == old(store)@.delete_quest(quest_id, now)
            },
            Err(e) => {
                &&& old(store)@.retire_refusal(guild_id, quest_id) == Some(e)
                &&& final(store)@ == old(store)@
            },
        },
{
    if !store.quest_exists(quest_id) {
        return Err(Error::QuestNotFound { id: Some(quest_id) });
    }
    let found = store.find_quest(quest_id);
    let i = found.unwrap();
    if store.quests[i].guild_id != guild_id {
        return Err(Error::QuestNotBelongToGuild { quest_id, guild_id });
    }
    store.delete_quest(quest_id, now);
    Ok(())
}

/// The quest actions that `guild` offers; `None` where there is no such
/// guild.
pub fn lookup_guild_quest_actions(store: &Store, guild: GuildId) -> (r: Result<
    Option<Vec<GuildQuestAction>>,
    Error,
>)
    ensures
        match r {
            Ok(None) => !store@.guild_exists(guild),
            Ok(Some(actions)) => store@.guild_exists(guild) && store@.guild_quest_actions(guild)
                == Ok::<Seq<GuildQuestAction>, Error>(actions@),
            Err(e) => store@.guild_exists(guild) && store@.guild_quest_actions(guild) == Err::<
                Seq<GuildQuestAction>,
                Error,
            >(e),
        },
{
    if !store.guild_exists(guild) {
        return Ok(None);
    }
    let ghost pred = StoreView::offered_by(guild);
    let ghost f = store@.guild_action_of();
    let ghost rows = store.quests@;
    let mut out: Vec<GuildQuestAction> = Vec::new();
    let mut i: usize = 0;
    proof {
        lemma_select_none(rows, pred, f);
    }
    while i < store.quests.len()
        invariant
            i <= store.quests.len(),
            store@.guild_exists(guild),
            rows == store.quests@,
            pred == StoreView::offered_by(guild),
            f == store@.guild_action_of(),
            select(rows.take(i as int), pred, f) == Ok::<Seq<GuildQuestAction>, Error>(out@),
        decreases store.quests.len() - i,
    {
        proof {
            lemma_select_step(rows, pred, f, i as int);
        }
        let q = &store.quests[i];
        if q.guild_id == guild && q.deleted_date.is_none() && q.quest_type == QuestType::Template {
            match store.first_task(q.id) {
                Some(t) => {
                    let task = &store.quest_tasks[t];
                    out.push(
                        GuildQuestAction {
                            id: q.id,
                            name: task.name.clone(),
                            description: clone_text(&task.description),
                            adventurer_note: clone_text(&task.adventurer_note),
                            xp: task.xp,
                            repeatable: q.repeatable,
                        },
                    );
                },
                None => {
                    proof {
                        assert(f(rows[i as int]) == store@.guild_action(rows[i as int]));
                        lemma_select_error_stays(rows, pred, f, i as int + 1);
                    }
                    return Err(Error::DbError(DbFault::QueryReturnedNoRows));
                },
            }
        }
        i += 1;
    }
    assert(rows.take(i as int) =~= rows);
    Ok(Some(out))
}

/// Lists the quest actions that the guild `guild_id` offers.
pub fn get_guild_quest_actions(store: &Store, guild_id: GuildId) -> (r: Result<
    Vec<GuildQuestAction>,
    Error,
>)
    ensures
        yields(
            r,
            if store@.guild_exists(guild_id) {
                store@.guild_quest_actions(guild_id)
            } else {
                Err(Error::GuildNotFound { id: Some(guild_id) })
            },
        ),
{
    match lookup_guild_quest_actions(store, guild_id) {
        Ok(Some(actions)) => Ok(actions),
        Ok(None) => Err(Error::GuildNotFound { id: Some(guild_id) }),
        Err(e) => Err(e),
    }
}

/// Lists every guild together with the quest actions that it offers.
pub fn get_all_guilds_quest_actions(store: &Store) -> (r: Result<
    Vec<GuildQuestActionsBundle>,
    Error,
>)
    ensures
        match r {
            Ok(bundles) => store@.guild_bundles() == Ok::<
                Seq<GuildQuestActionsBundleView>,
                Error,
            >(bundle_views(bundles@)),
            Err(e) => store@.guild_bundles() == Err::<Seq<GuildQuestActionsBundleView>, Error>(e),
        },
{
    let ghost pred = every_guild();
    let ghost f = store@.guild_bundle_of();
    let ghost rows = store.guilds@;
    let mut out: Vec<GuildQuestActionsBundle> = Vec::new();
    let mut i: usize = 0;
    proof {
        lemma_select_none(rows, pred, f);
        assert(bundle_views(out@) =~= Seq::empty());
    }
    while i < store.guilds.len()
        invariant
            i <= store.guilds.len(),
            rows == store.guilds@,
            pred == every_guild(),
            f == store@.guild_bundle_of(),
            out@.len() == i,
            select(rows.take(i as int), pred, f) == Ok::<Seq<GuildQuestActionsBundleView>, Error>(
                bundle_views(out@),
            ),
        decreases store.guilds.len() - i,
    {
        proof {
            lemma_select_step(rows, pred, f, i as int);
        }
        let g = &store.guilds[i];
        proof {
            assert(store@.guild_exists(g.id));
        }
        match lookup_guild_quest_actions(store, g.id) {
            Ok(Some(actions)) => {
                let ghost before = out@;
                out.push(
                    GuildQuestActionsBundle {
                        guild_id: g.id,
                        guild_title: g.name.clone(),
                        guild_quest_actions: actions,
                    },
                );
                assert(bundle_views(out@) =~= bundle_views(before).push(out@[i as int]@));
            },
            Ok(None) => {
                assert(false);
            },
            Err(e) => {
                proof {
                    assert(f(rows[i as int]) == store@.guild_bundle(rows[i as int]));
                    lemma_select_error_stays(rows, pred, f, i as int + 1);
                }
                return Err(e);
            },
        }
        i += 1;
    }
    assert(rows.take(i as int) =~= rows);
    Ok(out)
}

} // verus!
