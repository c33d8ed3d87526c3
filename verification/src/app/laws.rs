//! What holds of the application whatever is pressed and whatever happens.

use super::state::{AppModel, ClockModel, Focus, KeyCode, KeyEvent, ModeModel, Motion, PaletteActionModel, Tab, PALETTE_MAX, TOAST_TTL};
use crate::ha::actions::Action;
use crate::ha::client::{CommandModel, EventModel};
use crate::ha::types::{EntityModel, LogModel};
use crate::store::GroupBy;
use crate::text;
use vstd::prelude::*;

verus! {

// ----- Confirmation ------------------------------------------------------------------------

/// Whether the command calls no service that has to be confirmed first: if it calls one, that is for
/// an action on an entity of the store that needs no confirmation.
pub open spec fn harmless(s: AppModel, cmd: CommandModel) -> bool {
    cmd matches CommandModel::CallService { call, .. } ==> exists|id: Seq<char>, a: Action|
        safe_call(s, id, a, call)
}

/// Whether `call` is what `a` means on the entity `id`, and needs no confirmation.
pub open spec fn safe_call(s: AppModel, id: Seq<char>, a: Action, call: crate::ha::types::CallModel) -> bool {
    s.store.get(id) matches Some(e) && crate::ha::actions::service(e, a) == Some(call) && !crate::ha::actions::risky(e, a)
}

/// Whether `t` has the commands of `s` and at most one more, which is harmless.
pub open spec fn asks_no_more(s: AppModel, t: AppModel) -> bool {
    ||| t.cmds == s.cmds
    ||| t.cmds.len() == s.cmds.len() + 1 && t.cmds.drop_last() == s.cmds && harmless(s, t.cmds.last())
}

proof fn lemma_sending(s: AppModel, t: AppModel, cmd: CommandModel)
    requires
        t.cmds == s.cmds.push(cmd),
        harmless(s, cmd),
    ensures
        asks_no_more(s, t),
{
    assert(t.cmds.drop_last() =~= s.cmds);
}

proof fn lemma_showing(s: AppModel, tab: Tab, now: ClockModel)
    ensures
        asks_no_more(s, s.showing(tab, now)),
{
    let t = s.showing(tab, now);
    if t.cmds != s.cmds {
        lemma_sending(s, t, t.cmds.last());
    }
}

proof fn lemma_calling(s: AppModel, id: Seq<char>, action: Action)
    requires
        s.store.get(id) is Some,
        crate::ha::actions::service(s.store.get(id)->0, action) is Some,
    ensures
        asks_no_more(s, s.calling(s.store.get(id)->0, crate::ha::actions::service(s.store.get(id)->0, action)->0, action)),
{
    let e = s.store.get(id)->0;
    let call = crate::ha::actions::service(e, action)->0;
    let t = s.calling(e, call, action);
    if !crate::ha::actions::risky(e, action) {
        assert(safe_call(s, id, action, call));
        lemma_sending(s, t, t.cmds.last());
    }
}

proof fn lemma_acting(s: AppModel, action: Action, now: ClockModel)
    ensures
        asks_no_more(s, s.acting(action, now)),
{
    if let Some(id) = s.selected_id() {
        if let Some(e) = s.store.get(id) {
            if crate::ha::actions::service(e, action) is Some {
                lemma_calling(s, id, action);
            }
        }
    }
}

proof fn lemma_running(s: AppModel, action: PaletteActionModel, now: ClockModel)
    ensures
        asks_no_more(s, s.running(action, now)),
{
    match action {
        PaletteActionModel::Tab(t) => lemma_showing(s, t, now),
        PaletteActionModel::GoTo(id) => lemma_showing(s, Tab::Entities, now),
        PaletteActionModel::Resync => lemma_sending(s, s.running(action, now), CommandModel::Resync),
        PaletteActionModel::Act(id, a) => {
            if let Some(e) = s.store.get(id) {
                if crate::ha::actions::service(e, a) is Some {
                    lemma_calling(s, id, a);
                }
            }
        },
        _ => {},
    }
}

/// No key calls a service that could open a door, unlock something or the like at once: unless such a
/// call was already waiting to be confirmed, a key gives Home Assistant at most one command, and that
/// is a harmless one.
pub proof fn law_risky_calls_are_confirmed_first(s: AppModel, key: KeyEvent, now: ClockModel)
    requires
        !(s.mode is Confirm),
    ensures
        asks_no_more(s, s.on_key(key, now)),
{
    let t = s.on_key(key, now);
    if key.ctrl && key.code == KeyCode::Char('c') {
    } else {
        match s.mode {
            ModeModel::Normal => {
                match key.code {
                    KeyCode::Tab => lemma_showing(s, s.tab.right(), now),
                    KeyCode::BackTab => lemma_showing(s, s.tab.left(), now),
                    KeyCode::Enter => lemma_acting(s, Action::Primary, now),
                    KeyCode::Char(c) => {
                        lemma_showing(s, Tab::Entities, now);
                        lemma_showing(s, Tab::Scenes, now);
                        lemma_showing(s, Tab::Automations, now);
                        lemma_showing(s, Tab::Logbook, now);
                        if let Some(a) = super::state::action_of(key.code) {
                            lemma_acting(s, a, now);
                        }
                        if t.cmds.len() == s.cmds.len() + 1 && !(t.cmds.last() is CallService) {
                            assert(t.cmds.drop_last() =~= s.cmds);
                        }
                    },
                    _ => {},
                }
            },
            ModeModel::Palette => {
                if key.code == KeyCode::Enter && s.palette_row() < s.palette.items.len() {
                    let u = AppModel { mode: ModeModel::Normal, ..s };
                    let action = s.palette.items[s.palette_row() as int].action;
                    lemma_running(u, action, now);
                    lemma_same_store(s, u, t);
                }
            },
            ModeModel::History => {
                if t.cmds != s.cmds {
                    lemma_sending(s, t, t.cmds.last());
                }
            },
            _ => {},
        }
    }
}

proof fn lemma_same_store(s: AppModel, u: AppModel, t: AppModel)
    requires
        s.store == u.store,
        s.cmds == u.cmds,
        asks_no_more(u, t),
    ensures
        asks_no_more(s, t),
{
    if t.cmds != s.cmds {
        if let CommandModel::CallService { call, .. } = t.cmds.last() {
            let (id, a) = choose|id: Seq<char>, a: Action| safe_call(u, id, a, call);
            assert(safe_call(s, id, a, call));
        }
    }
}

/// Acting on the selected entity is refused, confirmed or done: where the action means nothing there,
/// only an error is shown; a call that needs it waits to be confirmed, and nothing is sent; any other
/// call is sent at once, once, and the mode stays.
pub proof fn law_acting(s: AppModel, id: Seq<char>, e: EntityModel, action: Action, now: ClockModel)
    requires
        s.selected_id() == Some(id),
        s.store.get(id) == Some(e),
    ensures
        ({
            let t = s.acting(action, now);
            match crate::ha::actions::service(e, action) {
                None => {
                    &&& t.cmds == s.cmds
                    &&& t.mode == s.mode
                    &&& t.toast matches Some(toast) && toast.error && toast.at == now.ms
                },
                Some(call) => {
                    let label = e.name() + ": "@ + crate::ha::actions::described(call);
                    &&& t.toast == s.toast
                    &&& if crate::ha::actions::risky(e, action) {
                        t.cmds == s.cmds && t.mode == (ModeModel::Confirm { call, label })
                    } else {
                        t.cmds == s.cmds.push(CommandModel::CallService { call, label }) && t.mode == s.mode
                    }
                },
            }
        }),
{
}

/// A call that waits to be confirmed is made on `y` and on nothing else, and either way it waits no
/// longer.
pub proof fn law_confirmation(s: AppModel, key: KeyEvent, now: ClockModel)
    requires
        s.mode is Confirm,
        !(key.ctrl && key.code == KeyCode::Char('c')),
    ensures
        s.on_key(key, now).mode is Normal,
        key.code == KeyCode::Char('y') || key.code == KeyCode::Char('Y') ==> s.on_key(key, now).cmds == s.cmds.push(
            CommandModel::CallService { call: s.mode->call, label: s.mode->label },
        ),
        key.code != KeyCode::Char('y') && key.code != KeyCode::Char('Y') ==> s.on_key(key, now).cmds == s.cmds,
{
}

// ----- Lists ---------------------------------------------------------------------------------

/// Control-c quits whatever is shown.
pub proof fn law_control_c_quits(s: AppModel, now: ClockModel)
    ensures
        s.on_key(KeyEvent { code: KeyCode::Char('c'), ctrl: true }, now).should_quit,
{
}

/// A filter searches everything in the tab: what it finds depends neither on the selected group nor on
/// what the groups are.
pub proof fn law_filter_ignores_the_group(s: AppModel, by: GroupBy, group: Option<usize>)
    requires
        text::trimmed(s.filter).len() > 0,
    ensures
        (AppModel { group_by: by, group_state: group, ..s }).list_ids() == s.list_ids(),
{
    let t = AppModel { group_by: by, group_state: group, ..s };
    let domains = s.list_tab().listed();
    assert((|e: EntityModel| s.store.lists(by, None, domains, e)) =~= (|e: EntityModel| s.store.lists(s.group_by, None, domains, e)));
    assert(t.candidates() == s.candidates());
}

/// Without a filter, every entity of the tab and group is listed, in the order of the names.
pub proof fn law_no_filter_lists_all(s: AppModel)
    requires
        text::trimmed(s.filter).len() == 0,
    ensures
        s.list_ids() == s.candidates().map_values(|e: EntityModel| e.entity_id),
{
}

/// Whether the entity is visible and of the domains of the current entity-list tab.
pub open spec fn belongs(s: AppModel, e: EntityModel) -> bool {
    crate::strmap::values(s.store.entities).contains(e) && s.store.lists(s.group_by, None, s.list_tab().listed(), e)
}

/// A tab lists entities of its own domains, none that is hidden, and under a filter only those that it
/// matches.
pub proof fn law_lists_keep_to_the_tab(s: AppModel, id: Seq<char>)
    requires
        s.list_ids().contains(id),
    ensures
        exists|e: EntityModel| #[trigger] belongs(s, e) && e.entity_id == id && (text::trimmed(s.filter).len() == 0
            || crate::search::matching(text::trimmed(s.filter), super::state::haystack(s.store, e)) is Some),
{
    let l = s.candidates();
    let ids = l.map_values(|e: EntityModel| e.entity_id);
    let hays = l.map_values(|e: EntityModel| super::state::haystack(s.store, e));
    crate::search::law_ranked_are_the_found(s.filter, ids, hays, id);
    let k = choose|k: int| #[trigger] crate::search::found(s.filter, ids, hays, k) && ids[k] == id;
    let e = l[k];
    let group = if s.list_tab() == Tab::Entities && text::trimmed(s.filter).len() == 0 {
        s.selected_group_key()
    } else {
        None
    };
    let domains = s.list_tab().listed();
    let all = crate::strmap::values(s.store.entities);
    let keep = |e: EntityModel| s.store.lists(s.group_by, group, domains, e);
    crate::sort::lemma_sorted_members(
        s.store.listed(s.group_by, group, domains),
        |a: EntityModel, b: EntityModel| crate::store::name_before(a, b),
    );
    assert(all.filter(keep).contains(e));
    lemma_kept(all, keep, e);
    assert(belongs(s, e));
}

proof fn lemma_kept<T>(l: Seq<T>, keep: spec_fn(T) -> bool, x: T)
    requires
        l.filter(keep).contains(x),
    ensures
        l.contains(x),
        keep(x),
    decreases l.len(),
{
    reveal(Seq::filter);
    if l.len() > 0 {
        if l.drop_last().filter(keep).contains(x) {
            lemma_kept(l.drop_last(), keep, x);
            let i = choose|i: int| 0 <= i < l.drop_last().len() && l.drop_last()[i] == x;
            assert(l[i] == x);
        } else {
            assert(l[l.len() - 1] == x);
        }
    }
}

/// The selected entity is one of those listed, and there is one wherever any is listed.
pub proof fn law_selection_is_listed(s: AppModel)
    ensures
        s.list_ids().len() > 0 <==> s.selected_id() is Some,
        s.selected_id() matches Some(id) ==> s.list_ids().contains(id),
{
    let ids = s.list_ids();
    if ids.len() > 0 {
        let i = super::state::within(s.list_state(), ids.len() as int);
        assert(ids.contains(ids[i]));
    }
}

/// A move stays among the rows; up undoes down unless the end stopped it.
pub proof fn law_moves_stay_inside(selected: Option<usize>, len: int, motion: Motion)
    requires
        0 <= len <= usize::MAX,
    ensures
        len == 0 ==> super::state::moved(selected, len, motion) is None,
        len > 0 ==> (super::state::moved(selected, len, motion) matches Some(i) && i < len),
        motion matches Motion::Down(n) && selected matches Some(i) && i + n < len ==> super::state::moved(
            super::state::moved(selected, len, motion),
            len,
            Motion::Up(motion->Down_0),
        ) == selected,
{
}

/// Going to an entity that is in the store and visible selects it.
pub proof fn law_going_to_selects(s: AppModel, e: EntityModel, now: ClockModel)
    requires
        crate::strmap::values(s.store.entities).contains(e),
        s.store.is_visible(e.entity_id),
        s.store.entities.len() <= usize::MAX,
    ensures
        s.going_to(e.entity_id, now).selected_id() == Some(e.entity_id),
        s.going_to(e.entity_id, now).tab == Tab::Entities,
{
    broadcast use vstd::seq_lib::group_to_multiset_ensures;

    let id = e.entity_id;
    let t = AppModel { focus: Focus::List, group_state: Some(0), ..s.showing(Tab::Entities, now) };
    let ids = t.list_ids();
    let r = s.going_to(id, now);
    let all = crate::strmap::values(t.store.entities);
    let keep = |x: EntityModel| t.store.lists(t.group_by, None, None, x);
    let l = t.store.visible(t.group_by, None, None);
    assert(text::trimmed(t.filter).len() == 0);
    assert(t.candidates() == l);
    all.lemma_filter_contains(keep, choose|i: int| 0 <= i < all.len() && all[i] == e);
    all.lemma_filter_len(keep);
    crate::store::law_lists_are_sorted_and_complete(t.store, t.group_by, None, None);
    assert(l.to_multiset().count(e) > 0);
    let k = choose|k: int| 0 <= k < l.len() && l[k] == e;
    assert(ids[k] == id);
    lemma_position_found(ids, id);
    assert(r.candidates() == t.candidates());
    assert(r.list_ids() == ids);
}

proof fn lemma_position_found<T>(l: Seq<T>, x: T)
    requires
        l.contains(x),
    ensures
        0 <= crate::ha::actions::position(l, x) < l.len(),
        l[crate::ha::actions::position(l, x)] == x,
    decreases l.len(),
{
    if l[0] != x {
        let i = choose|i: int| 0 <= i < l.len() && l[i] == x;
        assert(l.drop_first()[i - 1] == x);
        lemma_position_found(l.drop_first(), x);
    }
}

/// The tabs go round: right undoes left, and four steps come back.
pub proof fn law_tabs_go_round(t: Tab)
    ensures
        t.right().left() == t,
        t.left().right() == t,
        t.right().right().right().right() == t,
{
}

/// Leaving a tab clears the filter.
pub proof fn law_tabs_clear_the_filter(s: AppModel, tab: Tab, now: ClockModel)
    ensures
        s.showing(tab, now).tab == tab,
        s.showing(tab, now).filter.len() == 0,
        !(s.showing(tab, now).mode is Filter),
{
}

/// The palette lists no more than fits, and starts at its first item.
pub proof fn law_palette_is_bounded(s: AppModel)
    ensures
        s.refreshing_palette().palette.items.len() <= PALETTE_MAX,
        s.refreshing_palette().palette.state == Some(0usize),
        s.refreshing_palette().palette.input == s.palette.input,
{
}

// ----- Events ----------------------------------------------------------------------------------

/// A failed call is shown as an error until it goes away by itself.
pub proof fn law_failures_are_shown(s: AppModel, label: Seq<char>, why: Seq<char>, now: ClockModel, later: ClockModel)
    ensures
        ({
            let t = s.on_ha_event(EventModel::ServiceResult { label, error: Some(why) }, now);
            &&& t.toast is Some && t.toast->0.error
            &&& super::state::elapsed(now.ms, later.ms) <= TOAST_TTL ==> t.on_tick(later) == t
            &&& super::state::elapsed(now.ms, later.ms) > TOAST_TTL ==> t.on_tick(later).toast is None
        }),
{
}

/// A change of state is in the store at once, and appears in a history that is shown of that entity
/// once if the state is new there.
pub proof fn law_changes_show_at_once(s: AppModel, id: Seq<char>, new: EntityModel, now: ClockModel)
    requires
        s.store.wf(),
    ensures
        ({
            let t = s.on_ha_event(EventModel::StateChanged { entity_id: id, new_state: Some(new) }, now);
            &&& t.store.get(id) == Some(new)
            &&& s.history is Some && s.history->0.entity_id == id && s.history->0.points is Some ==> {
                &&& t.history is Some && t.history->0.points is Some
                &&& t.history->0.points->0.len() > 0 && t.history->0.points->0.last().state == new.state
                &&& t.history->0.points->0.len() <= s.history->0.points->0.len() + 1
            }
        }),
{
    crate::store::law_changes_are_read_back(s.store, id, Some(new), id);
}

/// The logbook is shown newest first, with every entry that came.
pub proof fn law_logbook_is_newest_first(l: Seq<LogModel>)
    ensures
        super::state::newest_first(l).to_multiset() == l.to_multiset(),
        forall|i: int, j: int| 0 <= i < j < super::state::newest_first(l).len() ==>
            !crate::time::sooner((#[trigger] super::state::newest_first(l)[i]).when, (#[trigger] super::state::newest_first(l)[j]).when),
{
    let lt = |a: LogModel, b: LogModel| crate::time::sooner(b.when, a.when);
    crate::sort::lemma_sorted(l, lt);
    let t = super::state::newest_first(l);
    assert forall|i: int, j: int| 0 <= i < j < t.len() implies !crate::time::sooner((#[trigger] t[i]).when, (#[trigger] t[j]).when) by {
        assert(!lt(t[j], t[i]));
    }
}

} // verus!
