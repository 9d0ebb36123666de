//! What holds of the operations together, across several calls.

use vstd::prelude::*;
use crate::db::accounts::session_of;
use crate::db::quests::{copied_details, copied_tasks};
use crate::db::rows::PartyMemberRow;
use crate::db::store::{detail_of, task_of, StoreView};
use crate::ids::{GuildId, QuestId, UserId};
use crate::permission::PermissionType;
use crate::js::{is_safe_time, JsInt, JsTimestamp};
use crate::seqs::{
    is_not, lemma_filter_contains, lemma_filter_keeps_all, lemma_filter_keeps_none,
    lemma_filter_pairwise,
};

verus! {

/// What accepting does to the quest table: the rows that were there stay as
/// they are, and one row follows them whose id none of them has.
pub proof fn lemma_accept_quest_rows(s: StoreView, user: UserId, quest: QuestId)
    requires
        s.wf(),
        s.has_room_to_accept(quest),
    ensures
        s.accept_quest(user, quest).quests.len() == s.quests.len() + 1,
        s.accept_quest(user, quest).quests[s.quests.len() as int] == s.instance_of(quest),
        forall|i: int|
            0 <= i < s.quests.len() ==> (#[trigger] s.accept_quest(user, quest).quests[i])
                == s.quests[i] && s.quests[i].id != s.next_quest_id(),
        forall|u: UserId, q: QuestId|
            #[trigger] s.accept_quest(user, quest).is_party_member(u, q) <==> (s.is_party_member(
                u,
                q,
            ) || (u == user && q == s.next_quest_id())),
{
    let after = s.accept_quest(user, quest);
    let n = s.party_members.len() as int;
    assert(after.party_members[n] == PartyMemberRow {
        adventurer_id: user,
        quest_id: s.next_quest_id(),
    });
    assert forall|u: UserId, q: QuestId|
        after.is_party_member(u, q) <==> (s.is_party_member(u, q) || (u == user && q
            == s.next_quest_id())) by {
        let x = PartyMemberRow { adventurer_id: u, quest_id: q };
        if s.party_members.contains(x) {
            let k = choose|k: int| 0 <= k < n && s.party_members[k] == x;
            assert(after.party_members[k] == x);
        }
        if after.party_members.contains(x) {
            let k = choose|k: int| 0 <= k < n + 1 && after.party_members[k] == x;
            if k < n {
                assert(s.party_members[k] == x);
            }
        }
    }
}

/// A quest action that is not repeatable leaves an adventurer's available
/// quests once they accept it.
pub proof fn law_accepting_hides_unrepeatable(s: StoreView, user: UserId, template: QuestId)
    requires
        s.wf(),
        s.accept_refusal(user, template).is_none(),
        s.quest_row(template).is_template(),
        !s.quest_row(template).repeatable,
    ensures
        !s.accept_quest(user, template).offers(user, template),
        s.accept_quest(user, template).available_quest_actions(user).is_ok(),
        forall|k: int|
            0 <= k < s.accept_quest(user, template).available_quest_actions(user).unwrap().len()
                ==> (#[trigger] s.accept_quest(user, template).available_quest_actions(
                user,
            ).unwrap()[k]).quest_id != template,
{
    let after = s.accept_quest(user, template);
    let n = s.quests.len() as int;
    lemma_accept_quest_rows(s, user, template);
    s.lemma_accept_quest_wf(user, template);
    let a = choose|a: int|
        0 <= a < s.adventurers.len() && (#[trigger] s.adventurers[a]).id == user;
    assert(after.adventurers[a].id == user);
    after.lemma_available_listing_succeeds(user);
    after.lemma_available_listing(user, template);
    assert(after.quests[n].parent_quest_id == Some(template));
    assert(after.is_party_member(user, after.quests[n].id));
    assert(after.holds_live_instance_of(user, template));
    assert forall|i: int|
        0 <= i < after.quests.len() && (#[trigger] after.quests[i]).id == template
        implies !after.is_available(after.quests[i], user) by {
        if i < n {
            s.lemma_quest_row(i);
        }
    }
}

/// A quest action that is not repeatable, and of which the adventurer held
/// no instance, returns to their available quests once they cancel the
/// instance that accepting it made. The cancellation itself is not refused.
pub proof fn law_cancelling_restores_unrepeatable(
    s: StoreView,
    user: UserId,
    template: QuestId,
    now: i64,
)
    requires
        s.wf(),
        s.accept_refusal(user, template).is_none(),
        s.quest_row(template).is_template(),
        !s.quest_row(template).repeatable,
        !s.holds_live_instance_of(user, template),
    ensures
        s.accept_quest(user, template).party_refusal(user, s.next_quest_id()).is_none(),
        s.accept_quest(user, template).delete_quest(s.next_quest_id(), now).offers(user, template),
        ({
            let listing = s.accept_quest(user, template).delete_quest(
                s.next_quest_id(),
                now,
            ).available_quest_actions(user);
            listing.is_ok() && exists|k: int|
                0 <= k < listing.unwrap().len() && (#[trigger] listing.unwrap()[k]).quest_id
                    == template
        }),
{
    let accepted = s.accept_quest(user, template);
    let instance = s.next_quest_id();
    let after = accepted.delete_quest(instance, now);
    s.lemma_accept_quest_wf(user, template);
    accepted.lemma_delete_quest_wf(instance, now);
    let b = choose|b: int|
        0 <= b < s.adventurers.len() && (#[trigger] s.adventurers[b]).id == user;
    assert(after.adventurers[b].id == user);
    after.lemma_available_listing_succeeds(user);
    after.lemma_available_listing(user, template);
    let n = s.quests.len() as int;
    lemma_accept_quest_rows(s, user, template);
    // the cancellation is not refused
    let a = choose|a: int|
        0 <= a < s.adventurers.len() && (#[trigger] s.adventurers[a]).id == user;
    assert(accepted.adventurers[a].id == user);
    assert(accepted.quests[n].id == instance && accepted.quests[n].is_live());
    // the template is offered again
    let t = choose|t: int|
        0 <= t < s.quests.len() && (#[trigger] s.quests[t]).id == template && s.quests[t].is_live();
    s.lemma_quest_row(t);
    assert(accepted.quests[t] == s.quests[t]);
    assert(after.quests[t] == s.quests[t]);
    assert forall|j: int|
        0 <= j < after.quests.len() && (#[trigger] after.quests[j]).parent_quest_id == Some(
            template,
        ) && after.quests[j].is_live() implies !after.is_party_member(
        user,
        after.quests[j].id,
    ) by {
        if j < n {
            assert(accepted.quests[j] == s.quests[j]);
            assert(after.quests[j] == s.quests[j]);
            if s.is_party_member(user, s.quests[j].id) {
                assert(s.holds_live_instance_of(user, template));
            }
        } else {
            assert(accepted.quests[n].id == instance);
        }
    }
    assert(!after.holds_live_instance_of(user, template));
    assert(after.is_available(after.quests[t], user));
}

/// A repeatable quest action that was not retired is among every
/// adventurer's available quests, whatever instances they hold, and stays
/// there when anybody accepts it.
pub proof fn law_repeatable_stays_available(
    s: StoreView,
    user: UserId,
    other: UserId,
    template: QuestId,
)
    requires
        s.wf(),
        s.quest_exists(template),
        s.quest_row(template).is_template(),
        s.quest_row(template).repeatable,
    ensures
        s.offers(user, template),
        s.accept_refusal(other, template).is_none() ==> s.accept_quest(other, template).offers(
            user,
            template,
        ),
        s.adventurer_exists(user) ==> s.available_quest_actions(user).is_ok() && exists|k: int|
            0 <= k < s.available_quest_actions(user).unwrap().len() && (
            #[trigger] s.available_quest_actions(user).unwrap()[k]).quest_id == template,
{
    if s.adventurer_exists(user) {
        s.lemma_available_listing_succeeds(user);
        s.lemma_available_listing(user, template);
    }
    let t = choose|t: int|
        0 <= t < s.quests.len() && (#[trigger] s.quests[t]).id == template && s.quests[t].is_live();
    s.lemma_quest_row(t);
    assert(s.is_available(s.quests[t], user));
    if s.accept_refusal(other, template).is_none() {
        let after = s.accept_quest(other, template);
        lemma_accept_quest_rows(s, other, template);
        assert(after.quests[t] == s.quests[t]);
        assert(after.is_available(after.quests[t], user));
    }
}

/// Accepting a quest gives the instance a copy of each of the quest's tasks
/// and details, equal to the quest's own in every field but the row's id and
/// the quest it belongs to, and leaves the quest's own rows as they were.
/// The instance names the quest as its parent and shares its guild and name.
pub proof fn law_accepting_copies_rows(s: StoreView, user: UserId, quest: QuestId)
    requires
        s.wf(),
        s.accept_refusal(user, quest).is_none(),
    ensures
        ({
            let after = s.accept_quest(user, quest);
            let instance = s.next_quest_id();
            &&& after.tasks_of(quest) == s.tasks_of(quest)
            &&& after.details_of(quest) == s.details_of(quest)
            &&& after.tasks_of(instance) == copied_tasks(
                s.tasks_of(quest),
                s.sequences.quest_task,
                instance,
            )
            &&& after.details_of(instance) == copied_details(
                s.details_of(quest),
                s.sequences.quest_detail,
                instance,
            )
            &&& after.tasks_of(instance).len() == s.tasks_of(quest).len()
            &&& forall|k: int|
                0 <= k < s.tasks_of(quest).len() ==> (#[trigger] after.tasks_of(instance)[k])
                    == s.tasks_of(quest)[k].copied(after.tasks_of(instance)[k].id, instance)
            &&& after.details_of(instance).len() == s.details_of(quest).len()
            &&& forall|k: int|
                0 <= k < s.details_of(quest).len() ==> (#[trigger] after.details_of(instance)[k])
                    == s.details_of(quest)[k].copied(after.details_of(instance)[k].id, instance)
            &&& after.quest_row(instance).parent_quest_id == Some(quest)
            &&& after.quest_row(instance).guild_id == s.quest_row(quest).guild_id
            &&& after.quest_row(instance).name == s.quest_row(quest).name
            &&& instance != quest
            &&& forall|i: int| 0 <= i < s.quests.len() ==> (#[trigger] s.quests[i]).id != instance
        }),
{
    let after = s.accept_quest(user, quest);
    let instance = s.next_quest_id();
    lemma_accept_quest_rows(s, user, quest);
    s.lemma_accept_quest_wf(user, quest);
    after.lemma_quest_row(s.quests.len() as int);
    let t = choose|t: int|
        0 <= t < s.quests.len() && (#[trigger] s.quests[t]).id == quest && s.quests[t].is_live();
    assert(quest != instance);
    // tasks
    let new_tasks = copied_tasks(s.tasks_of(quest), s.sequences.quest_task, instance);
    Seq::filter_distributes_over_add(s.quest_tasks, new_tasks, task_of(quest));
    Seq::filter_distributes_over_add(s.quest_tasks, new_tasks, task_of(instance));
    lemma_filter_keeps_none(new_tasks, task_of(quest));
    lemma_filter_keeps_all(new_tasks, task_of(instance));
    lemma_filter_keeps_none(s.quest_tasks, task_of(instance));
    assert(after.tasks_of(quest) =~= s.tasks_of(quest));
    assert(after.tasks_of(instance) =~= new_tasks);
    // details
    let new_details = copied_details(s.details_of(quest), s.sequences.quest_detail, instance);
    Seq::filter_distributes_over_add(s.quest_details, new_details, detail_of(quest));
    Seq::filter_distributes_over_add(s.quest_details, new_details, detail_of(instance));
    lemma_filter_keeps_none(new_details, detail_of(quest));
    lemma_filter_keeps_all(new_details, detail_of(instance));
    lemma_filter_keeps_none(s.quest_details, detail_of(instance));
    assert(after.details_of(quest) =~= s.details_of(quest));
    assert(after.details_of(instance) =~= new_details);
}

/// An adventurer who completes an open instance of theirs at a time that a
/// client can be shown succeeds, and the instance is then listed among
/// their completed quests exactly once: with its guild, with what its task
/// is worth, and with a completion time of a thousand times the seconds
/// given.
pub proof fn law_completed_instance_is_listed(
    s: StoreView,
    user: UserId,
    instance: QuestId,
    now: i64,
)
    requires
        s.wf(),
        s.party_refusal(user, instance).is_none(),
        is_safe_time(now as int),
    ensures
        s.complete_refusal(user, instance, now).is_none(),
        s.close_quest(instance, now).completed_quest_actions(user).is_ok(),
        ({
            let list = s.close_quest(instance, now).completed_quest_actions(user).unwrap();
            &&& exists|k: int|
                0 <= k < list.len() && (#[trigger] list[k]).quest_id == instance && list[k].xp
                    == s.first_task(instance).unwrap().xp && list[k].guild_id == s.quest_row(
                    instance,
                ).guild_id && list[k].completed_date@ == now * 1000
            &&& forall|j: int, k: int|
                0 <= j < list.len() && 0 <= k < list.len() && (#[trigger] list[j]).quest_id
                    == instance && (#[trigger] list[k]).quest_id == instance ==> j == k
        }),
{
    let after = s.close_quest(instance, now);
    s.lemma_close_quest_wf(instance, now);
    s.lemma_live_quest_row(instance);
    s.lemma_close_quest_row(instance, now);
    let a = choose|a: int|
        0 <= a < s.adventurers.len() && (#[trigger] s.adventurers[a]).id == user;
    assert(after.adventurers[a].id == user);
    after.lemma_completed_listing(user);
    let list = after.completed_quest_actions(user).unwrap();
    let pred = after.completed_by(user);
    let kept = after.party_members.filter(pred);
    // the instance is listed
    let i = choose|i: int|
        0 <= i < s.quests.len() && (#[trigger] s.quests[i]).id == instance && s.quests[i].is_live();
    s.lemma_quest_row(i);
    assert(after.quests[i].id == instance && after.quests[i].close_date == Some(now)
        && after.quests[i].is_live());
    let pm = PartyMemberRow { adventurer_id: user, quest_id: instance };
    assert(after.is_completed_quest(instance));
    assert(pred(pm));
    lemma_filter_contains(after.party_members, pred, pm);
    let k = choose|k: int| 0 <= k < kept.len() && kept[k] == pm;
    let shown = after.completed_action(pm);
    assert(list[k] == shown.unwrap());
    assert(s.tasks_of(s.quests[i].id).len() == 1);
    assert(after.first_task(instance) == s.first_task(instance));
    assert(after.quest_row(instance).close_date == Some(now));
    assert(after.quest_row(instance).guild_id == s.quest_row(instance).guild_id);
    assert(s.quest_row_is_sound(s.quests[i]));
    if s.quests[i].open_date.is_some() {
        JsTimestamp::lemma_column_result(s.quests[i].open_date.unwrap());
    }
    JsInt::lemma_millis(now);
    assert(shown.is_ok());
    assert(shown.unwrap().completed_date == JsInt::spec_millis(now));
    assert(list[k].quest_id == instance && list[k].xp == s.first_task(instance).unwrap().xp
        && list[k].guild_id == s.quest_row(instance).guild_id && list[k].completed_date@ == now
        * 1000);
    // and listed once
    lemma_filter_pairwise(
        after.party_members,
        pred,
        |x: PartyMemberRow, y: PartyMemberRow| x.quest_id != y.quest_id,
    );
    assert forall|j: int, k: int|
        0 <= j < list.len() && 0 <= k < list.len() && (#[trigger] list[j]).quest_id == instance
            && (#[trigger] list[k]).quest_id == instance implies j == k by {
        assert(kept[j].quest_id == instance && kept[k].quest_id == instance);
    }
}

/// Retiring a quest action takes it off the list of those that its guild
/// offers, and an adventurer who holds an instance of it may complete that
/// instance as before: completing it at a time that a client can be shown
/// is not refused and records that time, and the quest action stays
/// retired, with the time of its retirement.
pub proof fn law_retiring_spares_instances(
    s: StoreView,
    guild: GuildId,
    template: QuestId,
    user: UserId,
    instance: QuestId,
    now: i64,
    later: i64,
)
    requires
        s.wf(),
        s.retire_refusal(guild, template).is_none(),
        s.party_refusal(user, instance).is_none(),
        s.quest_row(instance).parent_quest_id == Some(template),
        is_safe_time(later as int),
    ensures
        !s.delete_quest(template, now).offers_action(guild, template),
        s.delete_quest(template, now).guild_quest_actions(guild).is_ok(),
        forall|k: int|
            0 <= k < s.delete_quest(template, now).guild_quest_actions(guild).unwrap().len() ==> (
            #[trigger] s.delete_quest(template, now).guild_quest_actions(guild).unwrap()[k]).id
                != template,
        s.delete_quest(template, now).party_refusal(user, instance).is_none(),
        s.delete_quest(template, now).quest_row(instance) == s.quest_row(instance),
        s.delete_quest(template, now).complete_refusal(user, instance, later).is_none(),
        s.delete_quest(template, now).close_quest(instance, later).quest_row(
            instance,
        ).close_date == Some(later),
        s.delete_quest(template, now).close_quest(instance, later).quest_row(
            template,
        ).deleted_date == Some(now),
{
    let after = s.delete_quest(template, now);
    s.lemma_delete_quest_wf(template, now);
    s.lemma_live_quest_row(template);
    s.lemma_live_quest_row(instance);
    s.lemma_delete_quest_row(template, now);
    after.lemma_delete_quest_exists(s, template, now);
    after.lemma_close_quest_row(instance, later);
    after.lemma_guild_listing_succeeds(guild);
    after.lemma_guild_listing(guild, template);
    let i = choose|i: int|
        0 <= i < s.quests.len() && (#[trigger] s.quests[i]).id == instance && s.quests[i].is_live();
    s.lemma_quest_row(i);
    assert(s.quests[i].parent_quest_id.unwrap().0 < s.quests[i].id.0);
    assert(after.quests[i] == s.quests[i]);
    after.lemma_quest_row(i);
    let a = choose|a: int|
        0 <= a < s.adventurers.len() && (#[trigger] s.adventurers[a]).id == user;
    assert(after.adventurers[a].id == user);
    assert forall|k: int|
        0 <= k < after.quests.len() && (#[trigger] after.quests[k]).id == template
        implies !StoreView::is_offered_by(after.quests[k], guild) by {
        assert(s.quests[k].id == template);
    }
}

/// A session opened under a token that named no session yet is the one
/// that the token names afterwards, and every other token names whom it
/// named before.
pub proof fn law_new_token_resolves(
    s: StoreView,
    user: UserId,
    token: String,
    start_time: i64,
    time_to_live: i64,
    other: Seq<char>,
)
    requires
        s.session_owner(token@).is_none(),
    ensures
        s.insert_session(user, token, start_time, time_to_live).session_owner(token@) == Some(
            user,
        ),
        other != token@ ==> s.insert_session(
            user,
            token,
            start_time,
            time_to_live,
        ).session_owner(other) == s.session_owner(other),
{
    let after = s.insert_session(user, token, start_time, time_to_live);
    let row = after.auth_sessions[s.auth_sessions.len() as int];
    s.auth_sessions.lemma_filter_push(row, session_of(token@));
    s.auth_sessions.lemma_filter_push(row, session_of(other));
}

/// Setting a flag a second time changes nothing, and a flag that was set is
/// recorded exactly once.
pub proof fn law_setting_twice_is_setting_once(
    s: StoreView,
    user: UserId,
    perm: PermissionType,
    truth: bool,
)
    requires
        s.wf(),
    ensures
        s.set_user_permission(user, perm, truth).set_user_permission(user, perm, truth)
            == s.set_user_permission(user, perm, truth),
        truth ==> s.set_user_permission(user, perm, truth).set_user_permission(
            user,
            perm,
            truth,
        ).permission_count(user, perm) == 1,
{
    let once = s.set_user_permission(user, perm, truth);
    s.lemma_set_user_permission(user, perm, truth);
    once.lemma_permission_count(user, perm);
    if truth {
        assert(once.record(user, perm) == once);
        match perm.spec_conflict() {
            Some(other) => {
                let row = StoreView::permission_row(user, other);
                assert forall|i: int| 0 <= i < once.permissions.len() implies is_not(row)(
                    once.permissions[i],
                ) by {
                    if once.permissions[i] == row {
                        assert(once.permissions.contains(row));
                        assert(once.has_permission(user, other));
                    }
                }
                lemma_filter_keeps_all(once.permissions, is_not(row));
            },
            None => {},
        }
    } else {
        let row = StoreView::permission_row(user, perm);
        assert forall|i: int| 0 <= i < once.permissions.len() implies is_not(row)(
            once.permissions[i],
        ) by {
            if once.permissions[i] == row {
                assert(once.permissions.contains(row));
                assert(once.has_permission(user, perm));
            }
        }
        lemma_filter_keeps_all(once.permissions, is_not(row));
    }
}

/// Of approval and rejection the one set last is held and the other is not,
/// in either order.
pub proof fn law_last_verdict_wins(s: StoreView, user: UserId)
    requires
        s.wf(),
    ensures
        ({
            let after = s.set_user_permission(
                user,
                PermissionType::Approved,
                true,
            ).set_user_permission(user, PermissionType::Rejected, true);
            after.has_permission(user, PermissionType::Rejected) && !after.has_permission(
                user,
                PermissionType::Approved,
            )
        }),
        ({
            let after = s.set_user_permission(
                user,
                PermissionType::Rejected,
                true,
            ).set_user_permission(user, PermissionType::Approved, true);
            after.has_permission(user, PermissionType::Approved) && !after.has_permission(
                user,
                PermissionType::Rejected,
            )
        }),
{
    let approved = s.set_user_permission(user, PermissionType::Approved, true);
    let rejected = s.set_user_permission(user, PermissionType::Rejected, true);
    s.lemma_set_user_permission(user, PermissionType::Approved, true);
    s.lemma_set_user_permission(user, PermissionType::Rejected, true);
    approved.lemma_set_user_permission(user, PermissionType::Rejected, true);
    rejected.lemma_set_user_permission(user, PermissionType::Approved, true);
}

} // verus!
