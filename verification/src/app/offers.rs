//! What the palette offers, and that each offer does what it says.

use super::state::{AppModel, ClockModel, ItemModel, ModeModel, PaletteActionModel, Tab};
use crate::ha::actions::Action;
use crate::ha::client::CommandModel;
use crate::ha::types::EntityModel;
use crate::store::GroupBy;
use vstd::prelude::*;

verus! {

/// What the labels begin with.
proof fn reveal_labels()
    ensures
        "Trigger "@.len() == 8 && "Trigger "@[0] == 'T' && "Trigger "@[1] == 'r',
        "Go to "@.len() == 6 && "Go to "@[0] == 'G',
        "Run"@.len() == 3 && "Run"@[0] == 'R',
        "Press"@.len() == 5 && "Press"@[0] == 'P',
        "Unlock"@.len() == 6 && "Unlock"@[0] == 'U',
        "Lock"@.len() == 4 && "Lock"@[0] == 'L',
        "Toggle"@.len() == 6 && "Toggle"@[0] == 'T' && "Toggle"@[1] == 'o',
        "Tab: "@.len() == 5 && "Tab: "@[0] == 'T' && "Tab: "@[1] == 'a',
        "Group by "@.len() == 9 && "Group by "@[0] == 'G' && "Group by "@[1] == 'r',
        "Resync with Home Assistant"@[0] == 'R' && "Resync with Home Assistant"@[1] == 'e',
        "Help"@[0] == 'H',
        "Quit"@[0] == 'Q',
        "Go to "@[1] == 'o',
        "Run"@[1] == 'u',
        "Help"@.len() == 4 && "Quit"@.len() == 4 && "Resync with Home Assistant"@.len() == 26,
{
    reveal_strlit("Trigger ");
    reveal_strlit("Go to ");
    reveal_strlit("Run");
    reveal_strlit("Press");
    reveal_strlit("Unlock");
    reveal_strlit("Lock");
    reveal_strlit("Toggle");
    reveal_strlit("Tab: ");
    reveal_strlit("Group by ");
    reveal_strlit("Resync with Home Assistant");
    reveal_strlit("Help");
    reveal_strlit("Quit");
}

/// The items of one entity by their places: what is done with it, its trigger, and going to it.
proof fn lemma_entity_items(e: EntityModel)
    ensures
        ({
            let items = super::state::entity_items(e);
            let verb = super::state::verb(e);
            let triggers = crate::ha::types::domain(e.entity_id) == "automation"@;
            &&& items.len() == (if verb is Some { 1int } else { 0 }) + (if triggers { 1int } else { 0 }) + 1
            &&& items.last().label == "Go to "@ + e.name() && items.last().hint == e.entity_id && items.last().action == PaletteActionModel::GoTo(
                e.entity_id,
            )
            &&& verb is Some ==> items[0].label == verb->0 + " "@ + e.name() && items[0].hint == e.entity_id && items[0].action
                == PaletteActionModel::Act(e.entity_id, Action::Primary)
            &&& triggers ==> {
                let i = items[items.len() - 2];
                i.label == "Trigger "@ + e.name() && i.hint == e.entity_id && i.action == PaletteActionModel::Act(e.entity_id, Action::Trigger)
            }
        }),
{
}

/// An item is among those of a list of entities if and only if it is among those of one of them.
proof fn lemma_items_of(l: Seq<EntityModel>, item: ItemModel)
    ensures
        super::state::entities_items(l).contains(item) <==> exists|k: int|
            0 <= k < l.len() && (#[trigger] super::state::entity_items(l[k])).contains(item),
    decreases l.len(),
{
    let all = super::state::entities_items(l);
    if l.len() > 0 {
        let rest = l.drop_last();
        let before = super::state::entities_items(rest);
        let mine = super::state::entity_items(l.last());
        lemma_items_of(rest, item);
        if all.contains(item) {
            let i = choose|i: int| 0 <= i < all.len() && all[i] == item;
            if i < before.len() {
                assert(before[i] == item);
                let k = choose|k: int| 0 <= k < rest.len() && (#[trigger] super::state::entity_items(rest[k])).contains(item);
                assert(super::state::entity_items(l[k]).contains(item));
            } else {
                assert(mine[i - before.len()] == item);
                assert(super::state::entity_items(l[l.len() - 1]).contains(item));
            }
        }
        if exists|k: int| 0 <= k < l.len() && (#[trigger] super::state::entity_items(l[k])).contains(item) {
            let k = choose|k: int| 0 <= k < l.len() && (#[trigger] super::state::entity_items(l[k])).contains(item);
            if k < rest.len() {
                assert(super::state::entity_items(rest[k]).contains(item));
                let i = choose|i: int| 0 <= i < before.len() && before[i] == item;
                assert(all[i] == item);
            } else {
                let i = choose|i: int| 0 <= i < mine.len() && mine[i] == item;
                assert(all[before.len() + i] == item);
            }
        }
    }
}

/// What the palette offers for an entity: to go to it, under its name; to trigger it, if it is an automation;
/// and to do with it what its kind is for, if anything: to run a scene or script, to press a button, to lock
/// or unlock a lock, and else to toggle what can be.
pub proof fn law_entities_are_offered(s: AppModel, e: EntityModel)
    requires
        s.store.visible(s.group_by, None, None).contains(e),
    ensures
        ({
            let d = crate::ha::types::domain(e.entity_id);
            let offered = |verb: Seq<char>, action: PaletteActionModel| s.offers().contains(
                ItemModel { label: verb + e.name(), hint: e.entity_id, action },
            );
            let act = PaletteActionModel::Act(e.entity_id, Action::Primary);
            &&& offered("Go to "@, PaletteActionModel::GoTo(e.entity_id))
            &&& d == "automation"@ ==> offered("Trigger "@, PaletteActionModel::Act(e.entity_id, Action::Trigger))
            &&& d == "scene"@ || d == "script"@ ==> offered("Run"@ + " "@, act)
            &&& d == "button"@ || d == "input_button"@ ==> offered("Press"@ + " "@, act)
            &&& d == "lock"@ && e.state == "locked"@ ==> offered("Unlock"@ + " "@, act)
            &&& d == "lock"@ && e.state != "locked"@ ==> offered("Lock"@ + " "@, act)
            &&& d != "scene"@ && d != "script"@ && d != "button"@ && d != "input_button"@ && d != "lock"@ && crate::ha::actions::service(
                e,
                Action::Primary,
            ) is Some ==> offered("Toggle"@ + " "@, act)
        }),
{
    let l = s.store.visible(s.group_by, None, None);
    let k = choose|k: int| 0 <= k < l.len() && l[k] == e;
    let items = super::state::entity_items(e);
    let all = s.offers();
    let n = super::state::fixed_items(s.group_by).len();
    let d = crate::ha::types::domain(e.entity_id);
    lemma_entity_items(e);
    reveal_strlit("scene");
    reveal_strlit("script");
    reveal_strlit("button");
    reveal_strlit("input_button");
    reveal_strlit("lock");
    assert("scene"@.len() == 5 && "script"@.len() == 6 && "button"@.len() == 6 && "input_button"@.len() == 12 && "lock"@.len() == 4);
    assert("script"@[0] == 's' && "button"@[0] == 'b');
    assert forall|i: int| 0 <= i < items.len() implies all.contains(#[trigger] items[i]) by {
        let item = items[i];
        assert(super::state::entity_items(l[k]).contains(item));
        lemma_items_of(l, item);
        let those = super::state::entities_items(l);
        let j = choose|j: int| 0 <= j < those.len() && those[j] == item;
        assert(all[n + j] == item);
    }
    assert(all.contains(items[items.len() - 1]));
    assert(all.contains(items[0]));
    if d == "automation"@ {
        assert(all.contains(items[items.len() - 2]));
    }
}

/// Whatever the palette offers does what its label says, to the entity that it hints at: "Trigger" triggers
/// it, "Go to" goes to it, and anything else with an entity acts on it.
pub proof fn law_offers_do_what_they_say(s: AppModel, item: ItemModel)
    requires
        s.offers().contains(item),
        item.hint.len() > 0,
    ensures
        crate::text::begins(item.label, "Trigger "@) ==> item.action == PaletteActionModel::Act(item.hint, Action::Trigger) && crate::ha::types::domain(
            item.hint,
        ) == "automation"@,
        crate::text::begins(item.label, "Go to "@) ==> item.action == PaletteActionModel::GoTo(item.hint),
        !crate::text::begins(item.label, "Trigger "@) && !crate::text::begins(item.label, "Go to "@) ==> item.action == PaletteActionModel::Act(
            item.hint,
            Action::Primary,
        ),
{
    let l = s.store.visible(s.group_by, None, None);
    let fixed = super::state::fixed_items(s.group_by);
    let those = super::state::entities_items(l);
    let all = s.offers();
    let i = choose|i: int| 0 <= i < all.len() && all[i] == item;
    if i < fixed.len() {
        assert(fixed[i] == item);
    } else {
        assert(those[i - fixed.len()] == item);
        lemma_items_of(l, item);
        let k = choose|k: int| 0 <= k < l.len() && (#[trigger] super::state::entity_items(l[k])).contains(item);
        let e = l[k];
        lemma_entity_items(e);
        reveal_labels();
        let items = super::state::entity_items(e);
        let j = choose|j: int| 0 <= j < items.len() && items[j] == item;
        let t = item.label;
        if crate::text::begins(t, "Trigger "@) {
            assert(t.take(8)[0] == 'T' && t.take(8)[1] == 'r');
        }
        if crate::text::begins(t, "Go to "@) {
            assert(t.take(6)[0] == 'G');
        }
        if j == items.len() - 1 {
            assert(t.take(6) =~= "Go to "@);
        } else if crate::ha::types::domain(e.entity_id) == "automation"@ && j == items.len() - 2 {
            assert(t.take(8) =~= "Trigger "@);
        }
    }
}

/// Running an offer that acts on an entity does what the action means there: nothing, wait to be confirmed,
/// or send that one call.
pub proof fn law_offers_are_carried_out(s: AppModel, id: Seq<char>, e: EntityModel, a: Action, now: ClockModel)
    requires
        s.store.get(id) == Some(e),
    ensures
        ({
            let t = s.running(PaletteActionModel::Act(id, a), now);
            match crate::ha::actions::service(e, a) {
                None => t == s,
                Some(call) => {
                    let label = e.name() + ": "@ + crate::ha::actions::described(call);
                    if crate::ha::actions::risky(e, a) {
                        t.cmds == s.cmds && t.mode == (ModeModel::Confirm { call, label })
                    } else {
                        t.cmds == s.cmds.push(CommandModel::CallService { call, label }) && t.mode == s.mode
                    }
                },
            }
        }),
{
}

/// Triggering an automation from the palette: it is offered for every visible one, and every such offer, when
/// run, sends one call of the automation's own trigger.
pub proof fn law_triggers_trigger(s: AppModel, e: EntityModel, item: ItemModel, now: ClockModel)
    requires
        s.store.get(e.entity_id) == Some(e),
        s.store.is_visible(e.entity_id),
        crate::ha::types::domain(e.entity_id) == "automation"@,
        s.offers().contains(item),
        item.hint == e.entity_id,
        crate::text::begins(item.label, "Trigger "@),
    ensures
        s.offers().contains(
            (ItemModel { label: "Trigger "@ + e.name(), hint: e.entity_id, action: PaletteActionModel::Act(e.entity_id, Action::Trigger) }),
        ),
        ({
            let t = s.running(item.action, now);
            &&& t.cmds.len() == s.cmds.len() + 1
            &&& t.cmds.drop_last() == s.cmds
            &&& t.cmds.last() is CallService
            &&& t.cmds.last()->call.domain == "automation"@
            &&& t.cmds.last()->call.service == "trigger"@
            &&& t.cmds.last()->call.entity_id == Some(e.entity_id)
            &&& t.cmds.last()->call.data.len() == 0
        }),
{
    let p = crate::strmap::place(s.store.entities, e.entity_id);
    crate::strmap::lemma_place(s.store.entities, e.entity_id);
    let all = crate::strmap::values(s.store.entities);
    assert(all[p] == e);
    crate::store::law_what_is_listed(s.store, s.group_by, None, None, e);
    law_entities_are_offered(s, e);
    crate::ha::types::law_domains(e.entity_id);
    reveal_strlit("automation");
    assert("automation"@.len() == 10);
    if item.hint.len() == 0 {
        assert(crate::ha::types::domain(item.hint).len() == 0);
    }
    law_offers_do_what_they_say(s, item);
    crate::ha::controls::law_simple_controls(e, Action::Trigger);
    if crate::ha::actions::risky(e, Action::Trigger) {
        crate::ha::controls::law_only_openings_are_confirmed(e, Action::Trigger);
        reveal_strlit("lock");
        reveal_strlit("cover");
        reveal_strlit("valve");
        assert("lock"@.len() == 4 && "cover"@.len() == 5 && "valve"@.len() == 5);
    }
    law_offers_are_carried_out(s, e.entity_id, e, Action::Trigger, now);
    assert(s.running(item.action, now).cmds.drop_last() =~= s.cmds);
}

/// The offers that are always there come first: the four tabs, the other grouping, loading everything again,
/// help and quitting. Each does that.
pub proof fn law_fixed_offers(s: AppModel, now: ClockModel)
    ensures
        ({
            let all = s.offers();
            let run = |i: int| s.running(all[i].action, now);
            let other = if s.group_by == GroupBy::Area { "Domains"@ } else { "Areas"@ };
            &&& all.len() >= 8
            &&& all[0].label == "Tab: "@ + "Entities"@ && run(0).tab == Tab::Entities
            &&& all[1].label == "Tab: "@ + "Scenes & Scripts"@ && run(1).tab == Tab::Scenes
            &&& all[2].label == "Tab: "@ + "Automations"@ && run(2).tab == Tab::Automations
            &&& all[3].label == "Tab: "@ + "Logbook"@ && run(3).tab == Tab::Logbook
            &&& all[4].label == "Group by "@ + crate::text::lowered(other) && run(4).group_by != s.group_by
            &&& all[5].label == "Resync with Home Assistant"@ && run(5).cmds == s.cmds.push(CommandModel::Resync)
            &&& all[6].label == "Help"@ && run(6).mode is Help
            &&& all[7].label == "Quit"@ && run(7).should_quit
            &&& forall|i: int| 0 <= i < 8 ==> (#[trigger] all[i]).hint.len() == 0
        }),
{
}

/// Only what can be done is offered: an item that acts on an entity is there only where the action means
/// something on it.
pub proof fn law_only_what_can_be_done_is_offered(e: EntityModel, i: int)
    requires
        0 <= i < super::state::entity_items(e).len(),
    ensures
        super::state::entity_items(e)[i].action matches PaletteActionModel::Act(id, a) ==> id == e.entity_id && crate::ha::actions::service(e, a) is Some,
{
    lemma_entity_items(e);
    crate::ha::controls::law_simple_controls(e, Action::Primary);
    crate::ha::controls::law_simple_controls(e, Action::Trigger);
    if crate::ha::types::domain(e.entity_id) == "lock"@ {
        crate::ha::controls::law_locks(e, Action::Primary);
    }
}

} // verus!
