//! Guild rows, their leaders, and the quest actions that guilds publish.

use vstd::prelude::*;
use crate::db::rows::{
    clone_text, AdventurerRoleRow, AssignedRole, GuildRow, QuestRow, QuestTaskRow, QuestType,
};
use crate::db::store::{task_of, Sequences, Store, StoreView};
use crate::ids::{GuildId, QuestId, UserId};
use crate::seqs::{
    lemma_filter_all, lemma_filter_contains, lemma_filter_first, lemma_filter_keeps_none,
    lemma_filter_map, lemma_filter_pairwise, lemma_filter_take_none, lemma_filter_take_step,
};

verus! {

/// The test that the leaders of `guild` pass.
pub open spec fn leader_of(guild: GuildId) -> spec_fn(AdventurerRoleRow) -> bool {
    |r: AdventurerRoleRow| r.guild_id == guild && r.assigned_role == AssignedRole::Leader
}

/// The test that every role but that of leader of `guild` passes.
pub open spec fn not_leader_of(guild: GuildId) -> spec_fn(AdventurerRoleRow) -> bool {
    |r: AdventurerRoleRow| !(r.guild_id == guild && r.assigned_role == AssignedRole::Leader)
}

/// What is said of a quest action when it is published or edited.
pub struct ActionText {
    pub name: String,
    pub description: Option<String>,
    pub adventurer_note: Option<String>,
    pub xp: u32,
}

impl ActionText {
    /// A copy of this text.
    pub fn duplicate(&self) -> (r: ActionText)
        ensures
            r == *self,
    {
        ActionText {
            name: self.name.clone(),
            description: clone_text(&self.description),
            adventurer_note: clone_text(&self.adventurer_note),
            xp: self.xp,
        }
    }
}

impl QuestTaskRow {
    /// The same row with the text `text`.
    pub open spec fn rewritten(self, text: ActionText) -> QuestTaskRow {
        QuestTaskRow {
            name: text.name,
            description: text.description,
            adventurer_note: text.adventurer_note,
            xp: text.xp,
            ..self
        }
    }
}

impl StoreView {
    /// The id that the next guild gets.
    pub open spec fn next_guild_id(self) -> GuildId {
        GuildId((self.sequences.guild + 1) as u32)
    }

    /// The id that the next task gets.
    pub open spec fn next_task_id(self) -> u32 {
        (self.sequences.quest_task + 1) as u32
    }

    /// The row that makes `leader` the leader of `guild`.
    pub open spec fn leader_row(guild: GuildId, leader: UserId) -> AdventurerRoleRow {
        AdventurerRoleRow {
            adventurer_id: leader,
            guild_id: guild,
            assigned_role: AssignedRole::Leader,
        }
    }

    /// The leader of `guild`, if it has one.
    pub open spec fn guild_leader(self, guild: GuildId) -> Option<UserId> {
        let leaders = self.adventurer_roles.filter(leader_of(guild));
        if leaders.len() > 0 {
            Some(leaders[0].adventurer_id)
        } else {
            None
        }
    }

    /// The store with one more guild, led by `leader` if one is given.
    pub open spec fn create_guild(self, name: String, leader: Option<UserId>) -> StoreView {
        let id = self.next_guild_id();
        StoreView {
            guilds: self.guilds.push(GuildRow { id, name }),
            adventurer_roles: match leader {
                Some(leader) => self.adventurer_roles.push(Self::leader_row(id, leader)),
                None => self.adventurer_roles,
            },
            sequences: Sequences { guild: id.0, ..self.sequences },
            ..self
        }
    }

    /// The store once the guild `guild` has the name `name`.
    pub open spec fn rename_guild(self, guild: GuildId, name: String) -> StoreView {
        StoreView {
            guilds: self.guilds.map_values(
                |g: GuildRow|
                    if g.id == guild {
                        GuildRow { name, ..g }
                    } else {
                        g
                    },
            ),
            ..self
        }
    }

    /// The store once `guild` has the leader `leader`, or none.
    pub open spec fn set_leader(self, guild: GuildId, leader: Option<UserId>) -> StoreView {
        let others = self.adventurer_roles.filter(not_leader_of(guild));
        StoreView {
            adventurer_roles: match leader {
                Some(leader) => others.push(Self::leader_row(guild, leader)),
                None => others,
            },
            ..self
        }
    }

    /// The store once `guild` has published a quest action: a template with
    /// its one task.
    pub open spec fn create_quest_action(
        self,
        guild: GuildId,
        text: ActionText,
        repeatable: bool,
    ) -> StoreView {
        let id = self.next_quest_id();
        StoreView {
            quests: self.quests.push(
                QuestRow {
                    id,
                    guild_id: guild,
                    parent_quest_id: None,
                    name: None,
                    quest_type: QuestType::Template,
                    repeatable,
                    open_date: None,
                    close_date: None,
                    deleted_date: None,
                },
            ),
            quest_tasks: self.quest_tasks.push(
                QuestTaskRow {
                    id: self.next_task_id(),
                    quest_id: id,
                    order_index: 0,
                    name: text.name,
                    description: text.description,
                    adventurer_note: text.adventurer_note,
                    xp: text.xp,
                },
            ),
            sequences: Sequences {
                quest: id.0,
                quest_task: self.next_task_id(),
                ..self.sequences
            },
            ..self
        }
    }

    /// The store once the quest `quest` is repeatable or not, as
    /// `repeatable` says.
    pub open spec fn set_repeatable(self, quest: QuestId, repeatable: bool) -> StoreView {
        StoreView {
            quests: self.quests.map_values(
                |q: QuestRow|
                    if q.id == quest {
                        QuestRow { repeatable, ..q }
                    } else {
                        q
                    },
            ),
            ..self
        }
    }

    /// How the tasks are rewritten when the quest `quest` gets the text
    /// `text`.
    pub open spec fn retexted(quest: QuestId, text: ActionText) -> spec_fn(QuestTaskRow)
        -> QuestTaskRow {
        |t: QuestTaskRow|
            if t.quest_id == quest {
                t.rewritten(text)
            } else {
                t
            }
    }

    /// The store once the tasks of `quest` say `text`.
    pub open spec fn set_action_text(self, quest: QuestId, text: ActionText) -> StoreView {
        StoreView { quest_tasks: self.quest_tasks.map_values(Self::retexted(quest, text)), ..self }
    }

    /// The store once the quest action `quest` was edited.
    pub open spec fn edit_quest_action(
        self,
        quest: QuestId,
        text: ActionText,
        repeatable: bool,
    ) -> StoreView {
        self.set_repeatable(quest, repeatable).set_action_text(quest, text)
    }

    /// A new guild keeps the store sound.
    pub proof fn lemma_create_guild_wf(self, name: String, leader: Option<UserId>)
        requires
            self.wf(),
            self.sequences.guild < u32::MAX,
        ensures
            self.create_guild(name, leader).wf(),
            self.create_guild(name, leader).guild_exists(self.next_guild_id()),
    {
        let after = self.create_guild(name, leader);
        let n = self.guilds.len() as int;
        assert(after.guilds[n].id == self.next_guild_id());
        assert forall|i: int, j: int| 0 <= i < j < after.guilds.len() implies (
        #[trigger] after.guilds[i]).id != (#[trigger] after.guilds[j]).id by {
            assert(after.guilds[i] == self.guilds[i]);
            if j < n {
                assert(after.guilds[j] == self.guilds[j]);
            }
        }
        assert forall|i: int| 0 <= i < after.guilds.len() implies (#[trigger] after.guilds[i]).id.0
            <= after.sequences.guild by {
            if i < n {
                assert(after.guilds[i] == self.guilds[i]);
            }
        }
        let m = self.adventurer_roles.len() as int;
        assert forall|i: int| 0 <= i < after.adventurer_roles.len() implies (
        #[trigger] after.adventurer_roles[i]).guild_id.0 <= after.sequences.guild by {
            if i < m {
                assert(after.adventurer_roles[i] == self.adventurer_roles[i]);
            }
        }
        assert forall|i: int, j: int| 0 <= i < j < after.adventurer_roles.len() implies (
        #[trigger] after.adventurer_roles[i]).guild_id != (
        #[trigger] after.adventurer_roles[j]).guild_id by {
            assert(after.adventurer_roles[i] == self.adventurer_roles[i]);
            if j < m {
                assert(after.adventurer_roles[j] == self.adventurer_roles[j]);
            }
        }
    }

    /// A new name keeps the store sound, and the guilds that exist.
    pub proof fn lemma_rename_guild_wf(self, guild: GuildId, name: String)
        requires
            self.wf(),
        ensures
            self.rename_guild(guild, name).wf(),
            forall|g: GuildId|
                self.guild_exists(g) <==> #[trigger] self.rename_guild(guild, name).guild_exists(g),
    {
        let after = self.rename_guild(guild, name);
        assert forall|i: int, j: int| 0 <= i < j < after.guilds.len() implies (
        #[trigger] after.guilds[i]).id != (#[trigger] after.guilds[j]).id by {
            assert(self.guilds[i].id != self.guilds[j].id);
        }
        assert forall|i: int| 0 <= i < after.guilds.len() implies (#[trigger] after.guilds[i]).id.0
            <= after.sequences.guild by {
            assert(self.guilds[i].id.0 <= self.sequences.guild);
        }
        assert forall|g: GuildId| self.guild_exists(g) <==> after.guild_exists(g) by {
            if self.guild_exists(g) {
                let k = choose|k: int| 0 <= k < self.guilds.len() && (#[trigger] self.guilds[k]).id
                    == g;
                assert(after.guilds[k].id == g);
            }
            if after.guild_exists(g) {
                let k = choose|k: int|
                    0 <= k < after.guilds.len() && (#[trigger] after.guilds[k]).id == g;
                assert(self.guilds[k].id == g);
            }
        }
    }

    /// A new leader, or none, keeps the store sound, and is the leader
    /// afterwards.
    pub proof fn lemma_set_leader_wf(self, guild: GuildId, leader: Option<UserId>)
        requires
            self.wf(),
            guild.0 <= self.sequences.guild,
        ensures
            self.set_leader(guild, leader).wf(),
            self.set_leader(guild, leader).guild_leader(guild) == leader,
    {
        let after = self.set_leader(guild, leader);
        let keep = not_leader_of(guild);
        let others = self.adventurer_roles.filter(keep);
        let bound = self.sequences.guild;
        lemma_filter_pairwise(
            self.adventurer_roles,
            keep,
            |a: AdventurerRoleRow, b: AdventurerRoleRow| a.guild_id != b.guild_id,
        );
        lemma_filter_all(
            self.adventurer_roles,
            keep,
            |a: AdventurerRoleRow| a.guild_id.0 <= bound,
        );
        assert forall|i: int| 0 <= i < others.len() implies keep(#[trigger] others[i]) by {
            assert(others.contains(others[i]));
            lemma_filter_contains(self.adventurer_roles, keep, others[i]);
        }
        assert forall|i: int| 0 <= i < others.len() implies !leader_of(guild)(others[i]) by {
            assert(keep(others[i]));
        }
        lemma_filter_keeps_none(others, leader_of(guild));
        match leader {
            Some(l) => {
                let row = Self::leader_row(guild, l);
                others.lemma_filter_push(row, leader_of(guild));
                assert forall|i: int, j: int|
                    0 <= i < j < after.adventurer_roles.len() implies (
                #[trigger] after.adventurer_roles[i]).guild_id != (
                #[trigger] after.adventurer_roles[j]).guild_id by {
                    assert(after.adventurer_roles[i] == others[i]);
                    if j < others.len() {
                        assert(after.adventurer_roles[j] == others[j]);
                    } else {
                        assert(keep(others[i]));
                    }
                }
                assert forall|i: int| 0 <= i < after.adventurer_roles.len() implies (
                #[trigger] after.adventurer_roles[i]).guild_id.0 <= after.sequences.guild by {
                    if i < others.len() {
                        assert(after.adventurer_roles[i] == others[i]);
                    }
                }
            },
            None => {},
        }
    }

    /// A new quest action keeps the store sound.
    pub proof fn lemma_create_quest_action_wf(
        self,
        guild: GuildId,
        text: ActionText,
        repeatable: bool,
    )
        requires
            self.wf(),
            self.sequences.quest < u32::MAX,
            self.sequences.quest_task < u32::MAX,
        ensures
            self.create_quest_action(guild, text, repeatable).wf(),
            self.create_quest_action(guild, text, repeatable).quest_exists(self.next_quest_id()),
    {
        let after = self.create_quest_action(guild, text, repeatable);
        let id = self.next_quest_id();
        let n = self.quests.len() as int;
        let m = self.quest_tasks.len() as int;
        assert(after.quests[n].id == id && after.quests[n].is_live());
        assert forall|i: int| 0 <= i < n implies after.quests[i] == self.quests[i] by {}
        assert forall|i: int| 0 <= i < m implies after.quest_tasks[i] == self.quest_tasks[i] by {}
        assert forall|q: QuestId| self.quest_row_exists(q) implies after.quest_row_exists(q) by {
            let k = choose|k: int| 0 <= k < n && (#[trigger] self.quests[k]).id == q;
            assert(after.quests[k].id == q);
        }
        assert forall|q: QuestId| self.is_instance(q) implies after.is_instance(q) by {
            let k = choose|k: int|
                0 <= k < n && (#[trigger] self.quests[k]).id == q && !self.quests[k].is_template();
            assert(after.quests[k].id == q);
        }
        assert forall|i: int|
            0 <= i < after.quests.len() && (#[trigger] after.quests[i]).parent_quest_id.is_some()
            implies after.quest_row_exists(after.quests[i].parent_quest_id.unwrap())
            && after.quests[i].parent_quest_id.unwrap().0 < after.quests[i].id.0 by {
            assert(after.quests[i] == self.quests[i]);
        }
        assert forall|i: int, j: int| 0 <= i < j < after.quests.len() implies (
        #[trigger] after.quests[i]).id != (#[trigger] after.quests[j]).id by {
            assert(after.quests[i] == self.quests[i]);
            if j < n {
                assert(after.quests[j] == self.quests[j]);
            }
        }
        assert(after.quests_wf());
        assert forall|i: int, j: int| 0 <= i < j < after.quest_tasks.len() implies (
        #[trigger] after.quest_tasks[i]).id != (#[trigger] after.quest_tasks[j]).id by {
            assert(after.quest_tasks[i] == self.quest_tasks[i]);
            if j < m {
                assert(after.quest_tasks[j] == self.quest_tasks[j]);
            }
        }
        assert forall|i: int| 0 <= i < after.quest_tasks.len() implies (
        #[trigger] after.quest_tasks[i]).id <= after.sequences.quest_task
            && after.quest_tasks[i].quest_id.0 <= after.sequences.quest by {
            if i < m {
                assert(after.quest_tasks[i] == self.quest_tasks[i]);
            }
        }
        assert forall|i: int| 0 <= i < after.quests.len() implies after.tasks_of(
            (#[trigger] after.quests[i]).id,
        ).len() == 1 by {
            let q = after.quests[i].id;
            self.quest_tasks.lemma_filter_push(after.quest_tasks[m], task_of(q));
            if i < n {
                assert(self.tasks_of(self.quests[i].id).len() == 1);
            } else {
                lemma_filter_keeps_none(self.quest_tasks, task_of(q));
            }
        }
        assert forall|i: int| 0 <= i < after.quest_details.len() implies (
        #[trigger] after.quest_details[i]).id <= after.sequences.quest_detail
            && after.quest_details[i].quest_id.0 <= after.sequences.quest by {
            assert(self.quest_details[i].quest_id.0 <= self.sequences.quest);
        }
        assert forall|i: int| 0 <= i < after.party_members.len() implies after.is_instance(
            (#[trigger] after.party_members[i]).quest_id,
        ) by {
            assert(self.is_instance(self.party_members[i].quest_id));
        }
    }

    /// New text for a quest's tasks keeps the store sound.
    pub proof fn lemma_set_action_text_wf(self, quest: QuestId, text: ActionText)
        requires
            self.wf(),
        ensures
            self.set_action_text(quest, text).wf(),
    {
        let after = self.set_action_text(quest, text);
        let g = Self::retexted(quest, text);
        assert forall|i: int| 0 <= i < after.quest_tasks.len() implies (
        #[trigger] after.quest_tasks[i]).id == self.quest_tasks[i].id
            && after.quest_tasks[i].quest_id == self.quest_tasks[i].quest_id by {
            assert(after.quest_tasks[i] == g(self.quest_tasks[i]));
        }
        assert forall|i: int, j: int| 0 <= i < j < after.quest_tasks.len() implies (
        #[trigger] after.quest_tasks[i]).id != (#[trigger] after.quest_tasks[j]).id by {
            assert(self.quest_tasks[i].id != self.quest_tasks[j].id);
        }
        assert forall|i: int| 0 <= i < after.quest_tasks.len() implies (
        #[trigger] after.quest_tasks[i]).id <= after.sequences.quest_task
            && after.quest_tasks[i].quest_id.0 <= after.sequences.quest by {
            assert(self.quest_tasks[i].id <= self.sequences.quest_task);
        }
        assert forall|i: int| 0 <= i < after.quests.len() implies after.tasks_of(
            (#[trigger] after.quests[i]).id,
        ).len() == 1 by {
            let q = after.quests[i].id;
            assert(self.tasks_of(self.quests[i].id).len() == 1);
            assert forall|k: int| 0 <= k < self.quest_tasks.len() implies task_of(q)(
                g(#[trigger] self.quest_tasks[k]),
            ) == task_of(q)(self.quest_tasks[k]) by {}
            lemma_filter_map(self.quest_tasks, task_of(q), g);
        }
    }

    /// Editing a quest action keeps the store sound.
    pub proof fn lemma_edit_quest_action_wf(self, quest: QuestId, text: ActionText, repeatable: bool)
        requires
            self.wf(),
        ensures
            self.edit_quest_action(quest, text, repeatable).wf(),
    {
        self.lemma_quests_rewritten_wf(self.set_repeatable(quest, repeatable));
        self.set_repeatable(quest, repeatable).lemma_set_action_text_wf(quest, text);
    }
}

impl Store {
    /// The leader of `guild`, if it has one.
    pub fn guild_leader(&self, guild: GuildId) -> (r: Option<UserId>)
        ensures
            r == self@.guild_leader(guild),
    {
        let mut i: usize = 0;
        while i < self.adventurer_roles.len()
            invariant
                i <= self.adventurer_roles.len(),
                forall|k: int| 0 <= k < i ==> !leader_of(guild)(self.adventurer_roles[k]),
            decreases self.adventurer_roles.len() - i,
        {
            let row = self.adventurer_roles[i];
            if row.guild_id == guild && row.assigned_role == AssignedRole::Leader {
                proof {
                    lemma_filter_first(self.adventurer_roles@, leader_of(guild), i as int);
                }
                return Some(row.adventurer_id);
            }
            i += 1;
        }
        proof {
            lemma_filter_keeps_none(self.adventurer_roles@, leader_of(guild));
        }
        None
    }

    /// Adds a guild, led by `leader` if one is given, and returns its id.
    pub fn create_guild(&mut self, name: String, leader: Option<UserId>) -> (id: GuildId)
        requires
            old(self)@.wf(),
            old(self).sequences.guild < u32::MAX,
        ensures
            final(self)@ == old(self)@.create_guild(name, leader),
            final(self)@.wf(),
            id == old(self)@.next_guild_id(),
    {
        proof {
            old(self)@.lemma_create_guild_wf(name, leader);
        }
        let id = GuildId(self.sequences.guild + 1);
        self.guilds.push(GuildRow { id, name });
        match leader {
            Some(leader) => {
                self.adventurer_roles.push(
                    AdventurerRoleRow {
                        adventurer_id: leader,
                        guild_id: id,
                        assigned_role: AssignedRole::Leader,
                    },
                );
            },
            None => {},
        }
        self.sequences.guild = id.0;
        id
    }

    /// Gives the guild `guild` the name `name`.
    pub fn rename_guild(&mut self, guild: GuildId, name: String)
        requires
            old(self)@.wf(),
            old(self)@.guild_exists(guild),
        ensures
            final(self)@ == old(self)@.rename_guild(guild, name),
            final(self)@.wf(),
    {
        proof {
            old(self)@.lemma_rename_guild_wf(guild, name);
        }
        let found = self.find_guild(guild);
        let i = found.unwrap();
        self.guilds[i].name = name;
        assert(self@.guilds =~= old(self)@.rename_guild(guild, name).guilds);
    }

    /// Makes `leader` the leader of `guild`, in place of whoever was; with
    /// `None` the guild is left without a leader.
    pub fn set_leader(&mut self, guild: GuildId, leader: Option<UserId>)
        requires
            old(self)@.wf(),
            old(self)@.guild_exists(guild),
        ensures
            final(self)@ == old(self)@.set_leader(guild, leader),
            final(self)@.wf(),
            final(self)@.guild_leader(guild) == leader,
    {
        proof {
            let k = choose|k: int|
                0 <= k < old(self)@.guilds.len() && (#[trigger] old(self)@.guilds[k]).id == guild;
            old(self)@.lemma_set_leader_wf(guild, leader);
        }
        let ghost pred = not_leader_of(guild);
        let ghost rows = self.adventurer_roles@;
        let mut kept: Vec<AdventurerRoleRow> = Vec::new();
        let mut i: usize = 0;
        proof {
            lemma_filter_take_none(rows, pred);
        }
        while i < self.adventurer_roles.len()
            invariant
                i <= self.adventurer_roles.len(),
                rows == self.adventurer_roles@,
                *self == *old(self),
                pred == not_leader_of(guild),
                kept@ == rows.take(i as int).filter(pred),
            decreases self.adventurer_roles.len() - i,
        {
            let row = self.adventurer_roles[i];
            proof {
                lemma_filter_take_step(rows, pred, i as int);
            }
            if !(row.guild_id == guild && row.assigned_role == AssignedRole::Leader) {
                kept.push(row);
            }
            i += 1;
        }
        assert(rows.take(i as int) =~= rows);
        match leader {
            Some(leader) => {
                kept.push(
                    AdventurerRoleRow {
                        adventurer_id: leader,
                        guild_id: guild,
                        assigned_role: AssignedRole::Leader,
                    },
                );
            },
            None => {},
        }
        self.adventurer_roles = kept;
    }

    /// Adds a quest action of `guild` and returns its id.
    pub fn create_quest_action(&mut self, guild: GuildId, text: ActionText, repeatable: bool) -> (id:
        QuestId)
        requires
            old(self)@.wf(),
            old(self).sequences.quest < u32::MAX,
            old(self).sequences.quest_task < u32::MAX,
        ensures
            final(self)@ == old(self)@.create_quest_action(guild, text, repeatable),
            final(self)@.wf(),
            id == old(self)@.next_quest_id(),
    {
        proof {
            old(self)@.lemma_create_quest_action_wf(guild, text, repeatable);
        }
        let id = QuestId(self.sequences.quest + 1);
        let task_id = self.sequences.quest_task + 1;
        self.quests.push(
            QuestRow {
                id,
                guild_id: guild,
                parent_quest_id: None,
                name: None,
                quest_type: QuestType::Template,
                repeatable,
                open_date: None,
                close_date: None,
                deleted_date: None,
            },
        );
        self.quest_tasks.push(
            QuestTaskRow {
                id: task_id,
                quest_id: id,
                order_index: 0,
                name: text.name,
                description: text.description,
                adventurer_note: text.adventurer_note,
                xp: text.xp,
            },
        );
        self.sequences.quest = id.0;
        self.sequences.quest_task = task_id;
        id
    }

    /// Makes the quest `quest` repeatable or not, and gives its tasks the
    /// text `text`.
    pub fn edit_quest_action(&mut self, quest: QuestId, text: ActionText, repeatable: bool)
        requires
            old(self)@.wf(),
            old(self)@.quest_row_exists(quest),
        ensures
            final(self)@ == old(self)@.edit_quest_action(quest, text, repeatable),
            final(self)@.wf(),
    {
        proof {
            old(self)@.lemma_edit_quest_action_wf(quest, text, repeatable);
        }
        let found = self.find_quest(quest);
        let at = found.unwrap();
        self.quests[at].repeatable = repeatable;
        assert(self@.quests =~= old(self)@.set_repeatable(quest, repeatable).quests);
        let ghost rows = self.quest_tasks@;
        let ghost g = StoreView::retexted(quest, text);
        let mut i: usize = 0;
        while i < self.quest_tasks.len()
            invariant
                i <= self.quest_tasks.len(),
                rows == old(self)@.quest_tasks,
                g == StoreView::retexted(quest, text),
                self.quest_tasks@.len() == rows.len(),
                forall|k: int| 0 <= k < i ==> self.quest_tasks@[k] == g(rows[k]),
                forall|k: int| i <= k < rows.len() ==> self.quest_tasks@[k] == rows[k],
                self@ == (StoreView {
                    quest_tasks: self.quest_tasks@,
                    ..old(self)@.set_repeatable(quest, repeatable)
                }),
            decreases self.quest_tasks.len() - i,
        {
            if self.quest_tasks[i].quest_id == quest {
                let fresh = text.duplicate();
                self.quest_tasks[i].name = fresh.name;
                self.quest_tasks[i].description = fresh.description;
                self.quest_tasks[i].adventurer_note = fresh.adventurer_note;
                self.quest_tasks[i].xp = fresh.xp;
            }
            i += 1;
        }
        assert(self.quest_tasks@ =~= rows.map_values(g));
    }
}

} // verus!
