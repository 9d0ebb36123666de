//! Who has taken part in a quest action, and how.

use vstd::prelude::*;
use crate::db::rows::{clone_text, PartyMemberRow};
use crate::db::store::{Store, StoreView};
use crate::error::Error;
use crate::guild::{lookup_guild_quest_actions, GuildQuestAction};
use crate::ids::{GuildId, QuestId, UserId};
use crate::js::JsTimestamp;
use crate::seqs::{
    collect, lemma_collect_take_error, lemma_collect_take_step, lemma_select_error_stays,
    lemma_select_none, lemma_select_step, select,
};

verus! {

/// An adventurer who takes part in a quest action.
#[derive(Debug, Clone, PartialEq, Eq)]
pub struct QuestActionParticipant {
    pub id: UserId,
    pub name: String,
}

/// How one adventurer takes part in a quest action.
#[derive(Debug, Clone, PartialEq, Eq)]
pub struct QuestActionIndividualParticipation {
    pub user: QuestActionParticipant,
    pub quest_name: String,
    pub quest_description: Option<String>,
    pub accepted_date: Option<JsTimestamp>,
    pub completed_date: Option<JsTimestamp>,
    /// What the adventurer says of how they took part.
    pub adventurer_note: Option<String>,
}

/// Everybody who takes part in one quest action.
#[derive(Debug, Clone, PartialEq, Eq)]
pub struct QuestActionParticipation {
    pub adventurers: Vec<QuestActionIndividualParticipation>,
    pub quest_id: QuestId,
}

/// The mathematical content of a [`QuestActionParticipation`].
pub struct QuestActionParticipationView {
    pub adventurers: Seq<QuestActionIndividualParticipation>,
    pub quest_id: QuestId,
}

impl View for QuestActionParticipation {
    type V = QuestActionParticipationView;

    open spec fn view(&self) -> QuestActionParticipationView {
        QuestActionParticipationView { adventurers: self.adventurers@, quest_id: self.quest_id }
    }
}

/// The participation in every quest action of a guild.
#[derive(Debug, Clone, PartialEq, Eq)]
pub struct GuildParticipation {
    pub quest_actions: Vec<QuestActionParticipation>,
}

/// The contents of `list`.
pub open spec fn participation_views(list: Seq<QuestActionParticipation>) -> Seq<
    QuestActionParticipationView,
> {
    list.map_values(|p: QuestActionParticipation| p@)
}

impl StoreView {
    /// The party `pm` takes part in `action`: its quest is an instance of
    /// `action` that was not cancelled, and the adventurer and the
    /// instance's task are there to be shown.
    pub open spec fn is_participant(self, pm: PartyMemberRow, action: QuestId) -> bool {
        &&& self.quest_row_exists(pm.quest_id)
        &&& self.quest_row(pm.quest_id).parent_quest_id == Some(action)
        &&& self.quest_row(pm.quest_id).is_live()
        &&& self.adventurer_exists(pm.adventurer_id)
        &&& self.first_task(pm.quest_id).is_some()
    }

    /// The test that the parties that take part in `action` pass.
    pub open spec fn participant_in(self, action: QuestId) -> spec_fn(PartyMemberRow) -> bool {
        |pm: PartyMemberRow| self.is_participant(pm, action)
    }

    /// How the party `pm` is shown among those who take part.
    pub open spec fn individual_participation(self, pm: PartyMemberRow) -> Result<
        QuestActionIndividualParticipation,
        Error,
    > {
        let q = self.quest_row(pm.quest_id);
        let a = self.adventurer_row(pm.adventurer_id);
        let t = self.first_task(pm.quest_id).unwrap();
        match JsTimestamp::spec_optional(q.open_date) {
            Err(fault) => Err(Error::DbError(fault)),
            Ok(accepted_date) => match JsTimestamp::spec_optional(q.close_date) {
                Err(fault) => Err(Error::DbError(fault)),
                Ok(completed_date) => Ok(
                    QuestActionIndividualParticipation {
                        user: QuestActionParticipant { id: a.id, name: a.name },
                        quest_name: t.name,
                        quest_description: t.description,
                        accepted_date,
                        completed_date,
                        adventurer_note: None,
                    },
                ),
            },
        }
    }

    /// [`Self::individual_participation`] as a function value.
    pub open spec fn individual_participation_of(self) -> spec_fn(PartyMemberRow) -> Result<
        QuestActionIndividualParticipation,
        Error,
    > {
        |pm: PartyMemberRow| self.individual_participation(pm)
    }

    /// Those who take part in `action`, in the order in which they
    /// accepted it. Those who cancelled are left out.
    pub open spec fn participants(self, action: QuestId) -> Result<
        Seq<QuestActionIndividualParticipation>,
        Error,
    > {
        select(self.party_members, self.participant_in(action), self.individual_participation_of())
    }

    /// The participation in the quest action `action`.
    pub open spec fn quest_action_participation(self, action: QuestId) -> Result<
        QuestActionParticipationView,
        Error,
    > {
        match self.participants(action) {
            Ok(adventurers) => Ok(QuestActionParticipationView { adventurers, quest_id: action }),
            Err(e) => Err(e),
        }
    }

    /// [`Self::quest_action_participation`] of a listed quest action, as a
    /// function value.
    pub open spec fn participation_of(self) -> spec_fn(GuildQuestAction) -> Result<
        QuestActionParticipationView,
        Error,
    > {
        |a: GuildQuestAction| self.quest_action_participation(a.id)
    }

    /// The participation in each of the quest actions `actions`.
    pub open spec fn participation_in(self, actions: Seq<GuildQuestAction>) -> Result<
        Seq<QuestActionParticipationView>,
        Error,
    > {
        collect(actions.map_values(self.participation_of()))
    }

    /// The participation in every quest action that `guild` offers.
    pub open spec fn guild_participation(self, guild: GuildId) -> Result<
        Seq<QuestActionParticipationView>,
        Error,
    > {
        if !self.guild_exists(guild) {
            Err(Error::GuildNotFound { id: Some(guild) })
        } else {
            match self.guild_quest_actions(guild) {
                Ok(actions) => self.participation_in(actions),
                Err(e) => Err(e),
            }
        }
    }
}

/// Lists the adventurers who take part in the quest action
/// `quest_action_id`, with what is known of how. Those who cancelled are
/// left out.
pub fn get_quest_action_participation(store: &Store, quest_action_id: QuestId) -> (r: Result<
    QuestActionParticipation,
    Error,
>)
    requires
        store@.wf(),
    ensures
        match r {
            Ok(p) => store@.quest_action_participation(quest_action_id) == Ok::<
                QuestActionParticipationView,
                Error,
            >(p@),
            Err(e) => store@.quest_action_participation(quest_action_id) == Err::<
                QuestActionParticipationView,
                Error,
            >(e),
        },
{
    let ghost pred = store@.participant_in(quest_action_id);
    let ghost f = store@.individual_participation_of();
    let ghost rows = store.party_members@;
    let mut out: Vec<QuestActionIndividualParticipation> = Vec::new();
    let mut i: usize = 0;
    proof {
        lemma_select_none(rows, pred, f);
    }
    while i < store.party_members.len()
        invariant
            i <= store.party_members.len(),
            store@.wf(),
            rows == store.party_members@,
            pred == store@.participant_in(quest_action_id),
            f == store@.individual_participation_of(),
            select(rows.take(i as int), pred, f) == Ok::<
                Seq<QuestActionIndividualParticipation>,
                Error,
            >(out@),
        decreases store.party_members.len() - i,
    {
        proof {
            lemma_select_step(rows, pred, f, i as int);
        }
        let pm = store.party_members[i];
        let chosen = match store.find_quest(pm.quest_id) {
            Some(at) => {
                let is_child = match store.quests[at].parent_quest_id {
                    Some(parent) => parent == quest_action_id,
                    None => false,
                };
                if is_child && store.quests[at].deleted_date.is_none() {
                    match store.find_adventurer(pm.adventurer_id) {
                        Some(a) => match store.first_task(pm.quest_id) {
                            Some(t) => Some((at, a, t)),
                            None => None,
                        },
                        None => None,
                    }
                } else {
                    None
                }
            },
            None => None,
        };
        assert(chosen.is_some() == pred(rows[i as int]));
        match chosen {
            Some((at, a, t)) => {
                let q = &store.quests[at];
                let adventurer = &store.adventurers[a];
                let task = &store.quest_tasks[t];
                assert(f(rows[i as int]) == store@.individual_participation(rows[i as int]));
                let accepted_date = match JsTimestamp::optional(q.open_date) {
                    Ok(d) => d,
                    Err(fault) => {
                        proof {
                            lemma_select_error_stays(rows, pred, f, i as int + 1);
                        }
                        return Err(Error::DbError(fault));
                    },
                };
                let completed_date = match JsTimestamp::optional(q.close_date) {
                    Ok(d) => d,
                    Err(fault) => {
                        proof {
                            lemma_select_error_stays(rows, pred, f, i as int + 1);
                        }
                        return Err(Error::DbError(fault));
                    },
                };
                out.push(
                    QuestActionIndividualParticipation {
                        user: QuestActionParticipant {
                            id: adventurer.id,
                            name: adventurer.name.clone(),
                        },
                        quest_name: task.name.clone(),
                        quest_description: clone_text(&task.description),
                        accepted_date,
                        completed_date,
                        adventurer_note: None,
                    },
                );
            },
            None => {},
        }
        i += 1;
    }
    assert(rows.take(i as int) =~= rows);
    Ok(QuestActionParticipation { adventurers: out, quest_id: quest_action_id })
}

/// Lists, for every quest action that the guild `guild_id` offers, the
/// adventurers who take part in it.
pub fn get_guild_participation(store: &Store, guild_id: GuildId) -> (r: Result<
    GuildParticipation,
    Error,
>)
    requires
        store@.wf(),
    ensures
        match r {
            Ok(p) => store@.guild_participation(guild_id) == Ok::<
                Seq<QuestActionParticipationView>,
                Error,
            >(participation_views(p.quest_actions@)),
            Err(e) => store@.guild_participation(guild_id) == Err::<
                Seq<QuestActionParticipationView>,
                Error,
            >(e),
        },
{
    let actions = match lookup_guild_quest_actions(store, guild_id) {
        Ok(Some(actions)) => actions,
        Ok(None) => {
            return Err(Error::GuildNotFound { id: Some(guild_id) });
        },
        Err(e) => {
            return Err(e);
        },
    };
    let ghost mapped = actions@.map_values(store@.participation_of());
    let mut out: Vec<QuestActionParticipation> = Vec::new();
    let mut i: usize = 0;
    proof {
        if actions@.len() > 0 {
            lemma_collect_take_step(mapped, 0);
        } else {
            assert(mapped.take(0) =~= Seq::empty());
        }
        assert(participation_views(out@) =~= Seq::empty());
    }
    while i < actions.len()
        invariant
            i <= actions.len(),
            store@.wf(),
            out@.len() == i,
            store@.guild_exists(guild_id),
            store@.guild_quest_actions(guild_id) == Ok::<Seq<GuildQuestAction>, Error>(actions@),
            mapped == actions@.map_values(store@.participation_of()),
            collect(mapped.take(i as int)) == Ok::<Seq<QuestActionParticipationView>, Error>(
                participation_views(out@),
            ),
        decreases actions.len() - i,
    {
        proof {
            lemma_collect_take_step(mapped, i as int);
        }
        match get_quest_action_participation(store, actions[i].id) {
            Ok(p) => {
                let ghost before = out@;
                out.push(p);
                assert(participation_views(out@) =~= participation_views(before).push(p@));
            },
            Err(e) => {
                proof {
                    lemma_collect_take_error(mapped, i as int + 1);
                }
                return Err(e);
            },
        }
        i += 1;
    }
    assert(mapped.take(i as int) =~= mapped);
    Ok(GuildParticipation { quest_actions: out })
}

} // verus!
