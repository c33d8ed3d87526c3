//! What each key does, and what is shown of what happens.

use super::state::{AppModel, ClockModel, Focus, KeyCode, KeyEvent, ModeModel, Motion, Tab};
use crate::ha::actions::Action;
use crate::ha::client::{CommandModel, EventModel, SnapshotModel, StatusModel, UpdateModel};
use crate::ha::types::{EntityModel, LogModel, PointModel};
use crate::store::{GroupBy, StoreModel};
use crate::text;
use vstd::prelude::*;

verus! {

// ----- Actions --------------------------------------------------------------------------------

/// The keys of the actions. No other key has one.
pub proof fn law_keys_have_their_actions(code: KeyCode)
    ensures
        ({
            let a = super::state::action_of(code);
            &&& a == Some(Action::Primary) <==> code == KeyCode::Enter || code == KeyCode::Char(' ')
            &&& a == Some(Action::Increase) <==> code == KeyCode::Char('+') || code == KeyCode::Char('=')
            &&& a == Some(Action::Decrease) <==> code == KeyCode::Char('-') || code == KeyCode::Char('_')
            &&& a == Some(Action::SecondaryUp) <==> code == KeyCode::Char(']')
            &&& a == Some(Action::SecondaryDown) <==> code == KeyCode::Char('[')
            &&& a == Some(Action::CycleMode) <==> code == KeyCode::Char('m')
            &&& a == Some(Action::Open) <==> code == KeyCode::Char('o')
            &&& a == Some(Action::Close) <==> code == KeyCode::Char('c')
            &&& a == Some(Action::Stop) <==> code == KeyCode::Char('s')
            &&& a == Some(Action::Trigger) <==> code == KeyCode::Char('x')
            &&& a == Some(Action::Next) <==> code == KeyCode::Char('n')
            &&& a == Some(Action::Prev) <==> code == KeyCode::Char('p')
        }),
{
}

/// The hints name the keys: pressing what a hint shows takes the action that it is for. Each action has one.
pub proof fn law_hints_name_their_keys(i: int)
    requires
        0 <= i < crate::ha::actions::hint_keys().len(),
    ensures
        ({
            let (action, key) = crate::ha::actions::hint_keys()[i];
            let code = if key == "Enter"@ { KeyCode::Enter } else { KeyCode::Char(key[0]) };
            &&& super::state::action_of(code) == Some(action)
            &&& key == "Enter"@ || key.len() == 1
        }),
        crate::ha::actions::hint_keys().len() == 12,
{
    reveal_strlit("Enter");
    reveal_strlit("+");
    reveal_strlit("-");
    reveal_strlit("]");
    reveal_strlit("[");
    reveal_strlit("m");
    reveal_strlit("o");
    reveal_strlit("c");
    reveal_strlit("s");
    reveal_strlit("x");
    reveal_strlit("n");
    reveal_strlit("p");
    let keys = crate::ha::actions::hint_keys();
    assert("Enter"@.len() == 5);
    assert(keys[i].1.len() == 1 || keys[i].1 == "Enter"@);
}

/// In the lists of entities a key that has an action, and no other meaning, takes it.
pub proof fn law_action_keys_act(s: AppModel, c: char, now: ClockModel)
    requires
        s.tab != Tab::Logbook,
        c == '+' || c == '=' || c == '-' || c == '_' || c == ']' || c == '[' || c == 'm' || c == 'o' || c == 'c' || c == 's' || c == 'x' || c == 'n',
    ensures
        ({
            let t = s.on_key_normal(KeyEvent { code: KeyCode::Char(c), ctrl: false }, now);
            &&& c == '+' || c == '=' ==> t == s.acting(Action::Increase, now)
            &&& c == '-' || c == '_' ==> t == s.acting(Action::Decrease, now)
            &&& c == ']' ==> t == s.acting(Action::SecondaryUp, now)
            &&& c == '[' ==> t == s.acting(Action::SecondaryDown, now)
            &&& c == 'm' ==> t == s.acting(Action::CycleMode, now)
            &&& c == 'o' ==> t == s.acting(Action::Open, now)
            &&& c == 'c' ==> t == s.acting(Action::Close, now)
            &&& c == 's' ==> t == s.acting(Action::Stop, now)
            &&& c == 'x' ==> t == s.acting(Action::Trigger, now)
            &&& c == 'n' ==> t == s.acting(Action::Next, now)
        }),
        ({
            let press = |code: KeyCode| s.on_key_normal(KeyEvent { code, ctrl: false }, now);
            &&& press(KeyCode::Char('p')) == s.acting(Action::Prev, now)
            &&& s.tab != Tab::Entities || s.focus != Focus::Groups ==> press(KeyCode::Enter) == s.acting(Action::Primary, now) && press(
                KeyCode::Char(' '),
            ) == s.acting(Action::Primary, now)
        }),
{
}

// ----- Getting about -----------------------------------------------------------------------------

/// The keys that get about, whatever tab is shown: tabs, help, the palette, quitting and loading everything
/// again.
pub proof fn law_keys_get_about(s: AppModel, now: ClockModel)
    ensures
        ({
            let press = |code: KeyCode| s.on_key_normal(KeyEvent { code, ctrl: false }, now);
            &&& press(KeyCode::Char('q')).should_quit
            &&& press(KeyCode::Char('?')).mode is Help
            &&& press(KeyCode::Char(':')).mode is Palette && press(KeyCode::Char(':')).palette.input.len() == 0
            &&& s.on_key_normal(KeyEvent { code: KeyCode::Char('p'), ctrl: true }, now).mode is Palette
            &&& press(KeyCode::Char('1')).tab == Tab::Entities
            &&& press(KeyCode::Char('2')).tab == Tab::Scenes
            &&& press(KeyCode::Char('3')).tab == Tab::Automations
            &&& press(KeyCode::Char('4')).tab == Tab::Logbook
            &&& press(KeyCode::Tab).tab == s.tab.right() && press(KeyCode::BackTab).tab == s.tab.left()
            &&& s.tab != Tab::Logbook ==> press(KeyCode::Char('/')).mode is Filter && press(KeyCode::Char('/')).focus == Focus::List
            &&& s.tab != Tab::Logbook ==> press(KeyCode::Char('r')).cmds == s.cmds.push(CommandModel::Resync)
            &&& press(KeyCode::Char('a')).store == (StoreModel { show_all: !s.store.show_all, ..s.store })
            &&& s.tab == Tab::Entities ==> press(KeyCode::Char('g')).group_by != s.group_by && press(KeyCode::Char('g')).group_state == Some(0usize)
            &&& s.tab == Tab::Entities ==> press(KeyCode::Char('h')).focus == Focus::Groups && press(KeyCode::Left).focus == Focus::Groups
            &&& s.tab == Tab::Entities ==> press(KeyCode::Char('l')).focus == Focus::List && press(KeyCode::Right).focus == Focus::List
        }),
        Tab::Entities.right() == Tab::Scenes && Tab::Scenes.right() == Tab::Automations && Tab::Automations.right() == Tab::Logbook,
{
}

/// The tabs list what they are named for: scenes and scripts, automations, and everything.
pub proof fn law_tabs_are_named_for_what_they_list(s: AppModel, e: EntityModel)
    requires
        s.candidates().contains(e),
    ensures
        s.tab == Tab::Scenes ==> crate::ha::types::domain(e.entity_id) == "scene"@ || crate::ha::types::domain(e.entity_id) == "script"@,
        s.tab == Tab::Automations ==> crate::ha::types::domain(e.entity_id) == "automation"@,
        s.store.is_visible(e.entity_id),
        Tab::Entities.titled() == "Entities"@ && Tab::Scenes.titled() == "Scenes & Scripts"@ && Tab::Automations.titled() == "Automations"@,
        Tab::Logbook.titled() == "Logbook"@,
{
    let group = if s.list_tab() == Tab::Entities && text::trimmed(s.filter).len() == 0 {
        s.selected_group_key()
    } else {
        None
    };
    crate::store::law_what_is_listed(s.store, s.group_by, group, s.list_tab().listed(), e);
}

/// And they list all of it: every visible scene and script, every visible automation, and every visible
/// entity while "All" is selected or a filter is set.
pub proof fn law_tabs_list_all_they_are_named_for(s: AppModel, e: EntityModel)
    requires
        crate::strmap::values(s.store.entities).contains(e),
        s.store.is_visible(e.entity_id),
    ensures
        s.tab == Tab::Scenes && (crate::ha::types::domain(e.entity_id) == "scene"@ || crate::ha::types::domain(e.entity_id) == "script"@)
            ==> s.candidates().contains(e),
        s.tab == Tab::Automations && crate::ha::types::domain(e.entity_id) == "automation"@ ==> s.candidates().contains(e),
        s.tab == Tab::Entities && (text::trimmed(s.filter).len() > 0 || s.selected_group_key() is None) ==> s.candidates().contains(e),
{
    let group = if s.list_tab() == Tab::Entities && text::trimmed(s.filter).len() == 0 {
        s.selected_group_key()
    } else {
        None
    };
    let d = crate::ha::types::domain(e.entity_id);
    crate::store::law_what_is_listed(s.store, s.group_by, group, s.list_tab().listed(), e);
    let scenes = seq!["scene"@, "script"@];
    assert(scenes[0] == "scene"@ && scenes[1] == "script"@);
    let automations = seq!["automation"@];
    assert(automations[0] == "automation"@);
}

/// A filter looks at the name, the id and the area of an entity.
pub proof fn law_filters_look_at_name_id_and_area(s: StoreModel, e: EntityModel)
    ensures
        ({
            let h = super::state::haystack(s, e);
            let n = e.name().len() as int;
            let k = e.entity_id.len() as int;
            let a = match s.area_of(e.entity_id) {
                Some(a) => a.name,
                None => "Unassigned"@,
            };
            &&& h.len() == n + 1 + k + 1 + a.len()
            &&& h.take(n) == e.name()
            &&& h[n] == ' ' && h[n + 1 + k] == ' '
            &&& h.subrange(n + 1, n + 1 + k) == e.entity_id
            &&& h.skip(n + 1 + k + 1) == a
        }),
        e.attr_str("friendly_name"@) matches Some(f) ==> e.name() == f,
        e.attr_str("friendly_name"@) is None ==> e.name() == e.entity_id,
{
    reveal_strlit(" ");
    let h = super::state::haystack(s, e);
    let n = e.name().len() as int;
    let k = e.entity_id.len() as int;
    let a = s.area_name(e.entity_id);
    assert(h.take(n) =~= e.name());
    assert(h.subrange(n + 1, n + 1 + k) =~= e.entity_id);
    assert(h.skip(n + 1 + k + 1) =~= a);
}

/// Moves go as far as they say and stop at the ends.
pub proof fn law_moves_go_as_far_as_they_say(i: usize, len: int, n: usize)
    requires
        0 <= i < len <= usize::MAX,
    ensures
        super::state::moved(Some(i), len, Motion::Down(n)) == Some((if i + n < len { i + n } else { len - 1 }) as usize),
        super::state::moved(Some(i), len, Motion::Up(n)) == Some((if i >= n { i - n } else { 0 }) as usize),
        super::state::moved(Some(i), len, Motion::First) == Some(0usize),
        super::state::moved(Some(i), len, Motion::Last) == Some((len - 1) as usize),
        super::state::moved(None, len, Motion::Down(n)) == super::state::moved(Some(0), len, Motion::Down(n)),
        super::state::moved(None, len, Motion::Up(n)) == Some(0usize),
        super::state::moved(Some(i), 0, Motion::Down(n)) is None,
{
}

/// The keys that move: by one, by ten, and to the ends.
pub proof fn law_keys_move(s: AppModel, now: ClockModel)
    requires
        s.tab != Tab::Logbook,
        s.tab != Tab::Entities || s.focus == Focus::List,
    ensures
        ({
            let n = s.list_ids().len() as int;
            let row = |code: KeyCode| s.on_key_normal(KeyEvent { code, ctrl: false }, now).list_state();
            &&& row(KeyCode::Down) == super::state::moved(s.list_state(), n, Motion::Down(1)) && row(KeyCode::Char('j')) == row(KeyCode::Down)
            &&& row(KeyCode::Up) == super::state::moved(s.list_state(), n, Motion::Up(1)) && row(KeyCode::Char('k')) == row(KeyCode::Up)
            &&& row(KeyCode::PageDown) == super::state::moved(s.list_state(), n, Motion::Down(10))
            &&& row(KeyCode::PageUp) == super::state::moved(s.list_state(), n, Motion::Up(10))
            &&& row(KeyCode::Home) == super::state::moved(s.list_state(), n, Motion::First)
            &&& row(KeyCode::End) == super::state::moved(s.list_state(), n, Motion::Last)
        }),
{
}

/// Among the groups the keys move the selected group, and the list starts at its top.
pub proof fn law_keys_move_groups(s: AppModel, now: ClockModel)
    requires
        s.tab == Tab::Entities,
        s.focus == Focus::Groups,
    ensures
        ({
            let n = s.store.groups(s.group_by).len() as int;
            let down = s.on_key_normal(KeyEvent { code: KeyCode::Down, ctrl: false }, now);
            let up = s.on_key_normal(KeyEvent { code: KeyCode::Up, ctrl: false }, now);
            &&& down.group_state == super::state::moved(s.group_state, n, Motion::Down(1)) && down.list_states.entities == Some(0usize)
            &&& up.group_state == super::state::moved(s.group_state, n, Motion::Up(1)) && up.list_states.entities == Some(0usize)
        }),
{
}

// ----- Typing -----------------------------------------------------------------------------------

/// What is typed into the filter is what it holds: a character is added at its end, backspace takes the last
/// away, escape clears it and enter keeps it.
pub proof fn law_filters_are_typed(s: AppModel, c: char)
    ensures
        ({
            let press = |code: KeyCode| s.on_key_filter(KeyEvent { code, ctrl: false });
            &&& press(KeyCode::Char(c)).filter == s.filter.push(c) && press(KeyCode::Char(c)).mode == s.mode
            &&& s.filter.len() > 0 ==> press(KeyCode::Backspace).filter == s.filter.drop_last()
            &&& press(KeyCode::Esc).filter.len() == 0 && press(KeyCode::Esc).mode is Normal
            &&& press(KeyCode::Enter).filter == s.filter && press(KeyCode::Enter).mode is Normal
            &&& press(KeyCode::Char(c)).list_state() == Some(0usize)
        }),
        s.filter.len() > 0 ==> s.on_key_filter(KeyEvent { code: KeyCode::Backspace, ctrl: false }).list_state() == Some(0usize),
{
}

/// The palette is typed into in the same way, lists what is found, and enter runs the selected item.
pub proof fn law_palettes_are_typed(s: AppModel, c: char, now: ClockModel)
    ensures
        ({
            let press = |code: KeyCode| s.on_key_palette(KeyEvent { code, ctrl: false }, now);
            let typed = press(KeyCode::Char(c));
            let row = match s.palette.state {
                Some(i) => i as int,
                None => 0,
            };
            &&& typed.palette.input == s.palette.input.push(c)
            &&& s.palette.input.len() > 0 ==> press(KeyCode::Backspace).palette.input == s.palette.input.drop_last()
            &&& press(KeyCode::Esc).mode is Normal && press(KeyCode::Esc).cmds == s.cmds
            &&& row < s.palette.items.len() ==> press(KeyCode::Enter) == (AppModel { mode: ModeModel::Normal, ..s }).running(
                s.palette.items[row].action,
                now,
            )
            &&& row + 1 < s.palette.items.len() ==> press(KeyCode::Down).palette.state == Some((row + 1) as usize)
            &&& row > 0 ==> press(KeyCode::Up).palette.state == Some((row - 1) as usize)
        }),
{
}

/// The palette lists what it offers and no more: everything for an empty input, up to two hundred, and for any
/// other what that finds by label or hint.
pub proof fn law_palettes_list_offers(s: AppModel, i: int)
    requires
        0 <= i < s.refreshing_palette().palette.items.len(),
    ensures
        s.offers().contains(s.refreshing_palette().palette.items[i]),
        s.refreshing_palette().palette.items.len() <= 200,
        text::trimmed(s.palette.input).len() == 0 ==> s.refreshing_palette().palette.items[i] == s.offers()[i],
{
    let all = s.offers();
    let hays = all.map_values(|i: super::state::ItemModel| i.label + " "@ + i.hint);
    let items = s.refreshing_palette().palette.items;
    let found = crate::search::ranked(s.palette.input, all, hays);
    assert(found[i] == items[i]);
    assert(found.contains(items[i]));
    crate::search::law_ranked_are_the_found(s.palette.input, all, hays, items[i]);
    let k = choose|k: int| #[trigger] crate::search::found(s.palette.input, all, hays, k) && all[k] == items[i];
    assert(all[k] == items[i]);
}

// ----- Histories and the logbook -------------------------------------------------------------------

/// A history is asked for of the entity, over the last day, and shown under its name.
pub proof fn law_histories_are_opened(s: AppModel, id: Seq<char>, now: ClockModel)
    ensures
        ({
            let t = s.opening_history(id, now);
            &&& t.mode is History
            &&& t.history is Some && t.history->0.entity_id == id && t.history->0.points is None && t.history->0.error is None
            &&& s.store.get(id) matches Some(e) ==> t.history->0.name == e.name() && t.history->0.unit == e.attr_str("unit_of_measurement"@)
            &&& s.store.get(id) is None ==> t.history->0.name == id && t.history->0.unit is None
            &&& t.cmds == s.cmds.push(CommandModel::History { entity_id: id, since: crate::time::hours_before(now.date, 24) })
        }),
        s.tab != Tab::Logbook && s.selected_id() is Some ==> s.on_key_normal(KeyEvent { code: KeyCode::Char('H'), ctrl: false }, now)
            == s.opening_history(s.selected_id()->0, now),
{
}

/// What comes of a history is shown if it is the one that is looked at, and else not.
pub proof fn law_histories_are_shown(s: AppModel, id: Seq<char>, points: Seq<PointModel>, why: Seq<char>, now: ClockModel)
    ensures
        ({
            let came = s.on_ha_event(EventModel::History { entity_id: id, points }, now);
            let failed = s.on_ha_event(EventModel::HistoryFailed { entity_id: id, error: why }, now);
            if s.history is Some && s.history->0.entity_id == id {
                &&& came.history is Some && came.history->0.points == Some(points) && came.history->0.error is None && came.history->0.entity_id == id
                &&& failed.history is Some && failed.history->0.error == Some(why) && failed.history->0.points == s.history->0.points
            } else {
                came == s && failed == s
            }
        }),
{
}

/// A change of state that is shown in a history stands at its end, at the time that it came about.
pub proof fn law_histories_grow(s: AppModel, id: Seq<char>, new: EntityModel, points: Seq<PointModel>, now: ClockModel)
    requires
        s.history is Some && s.history->0.entity_id == id && s.history->0.points == Some(points),
    ensures
        ({
            let t = s.on_ha_event(EventModel::StateChanged { entity_id: id, new_state: Some(new) }, now);
            let when = match new.last_changed {
                Some(w) => w,
                None => now.date,
            };
            t.history is Some && t.history->0.points == Some(
                if points.len() > 0 && points.last().state == new.state {
                    points
                } else {
                    points.push(PointModel { when, state: new.state })
                },
            )
        }),
        forall|other: Seq<char>| other != id ==> s.on_ha_event(
            #[trigger] changed(other, Some(new)),
            now,
        ).history == s.history,
{
}

/// The event that tells of a change.
pub open spec fn changed(id: Seq<char>, new: Option<EntityModel>) -> EventModel {
    EventModel::StateChanged { entity_id: id, new_state: new }
}

/// The logbook is asked for over the last day, of the entity that it is narrowed to, if any.
pub proof fn law_logbooks_are_fetched(s: AppModel, now: ClockModel)
    ensures
        s.fetching_logbook(now).cmds == s.cmds.push(
            CommandModel::Logbook { since: crate::time::hours_before(now.date, 24), entity_id: s.logbook.entity },
        ),
        s.fetching_logbook(now).logbook.loading,
        ({
            let f = s.on_key_normal(KeyEvent { code: KeyCode::Char('f'), ctrl: false }, now);
            s.tab == Tab::Logbook ==> {
                &&& s.logbook.entity is Some ==> f.logbook.entity is None
                &&& s.logbook.entity is None ==> f.logbook.entity == (AppModel { tab: Tab::Entities, ..s }).selected_id()
                &&& f.cmds.len() == s.cmds.len() + 1
            }
        }),
        s.tab == Tab::Logbook ==> s.on_key_normal(KeyEvent { code: KeyCode::Char('r'), ctrl: false }, now) == s.fetching_logbook(now),
{
}

/// Showing the logbook fetches it if that was more than a minute ago, or never, and it is not being fetched.
pub proof fn law_old_logbooks_are_fetched(s: AppModel, now: ClockModel)
    ensures
        ({
            let fetches = !s.logbook.loading && match s.logbook.fetched_at {
                Some(t) => now.ms > t && now.ms - t > 60_000,
                None => true,
            };
            &&& fetches ==> s.showing(Tab::Logbook, now).cmds.len() == s.cmds.len() + 1
            &&& !fetches ==> s.showing(Tab::Logbook, now).cmds == s.cmds
            &&& forall|tab: Tab| tab != Tab::Logbook ==> (#[trigger] s.showing(tab, now)).cmds == s.cmds
        }),
{
}

/// What comes of the logbook is shown: the entries from the top, or why there are none.
pub proof fn law_logbooks_are_shown(s: AppModel, id: Option<Seq<char>>, entries: Seq<LogModel>, why: Seq<char>, now: ClockModel)
    ensures
        ({
            let came = s.on_ha_event(EventModel::Logbook { entity_id: id, result: Ok(entries) }, now).logbook;
            let failed = s.on_ha_event(EventModel::Logbook { entity_id: id, result: Err(why) }, now).logbook;
            &&& !came.loading && came.error is None && came.entries == super::state::newest_first(entries) && came.state == Some(0usize)
            &&& !failed.loading && failed.error == Some(why) && failed.entries == s.logbook.entries
            &&& came.entity == s.logbook.entity
        }),
{
}

/// The later of two entries comes first: the one with the later second or, within one, the later fraction.
pub proof fn law_later_entries_come_first(l: Seq<LogModel>, i: int, j: int)
    requires
        0 <= i < j < super::state::newest_first(l).len(),
    ensures
        ({
            let a = super::state::newest_first(l)[i].when;
            let b = super::state::newest_first(l)[j].when;
            a.secs > b.secs || (a.secs == b.secs && a.nanos >= b.nanos)
        }),
{
    super::laws::law_logbook_is_newest_first(l);
    let t = super::state::newest_first(l);
    assert(!crate::time::sooner(t[i].when, t[j].when));
}

// ----- Events -----------------------------------------------------------------------------------

/// What Home Assistant tells is taken up: the status with its time, a snapshot and a registry into the store.
pub proof fn law_events_are_taken_up(s: AppModel, status: StatusModel, snap: SnapshotModel, update: UpdateModel, id: Seq<char>, now: ClockModel)
    ensures
        s.on_ha_event(EventModel::Status(status), now).status == status && s.on_ha_event(EventModel::Status(status), now).status_since == now.ms,
        s.on_ha_event(EventModel::Snapshot(snap), now).store == s.store.with_snapshot(snap),
        s.on_ha_event(EventModel::Registry(update), now).store == s.store.with_registry(update),
        s.on_ha_event(EventModel::StateChanged { entity_id: id, new_state: None }, now).store == s.store.with_change(id, None),
        s.tab == Tab::Logbook ==> s.on_ha_event(EventModel::Snapshot(snap), now).cmds.len() == s.cmds.len() + 1,
{
}

/// The outcome of a call is shown with its label, as done or, with what went wrong, as an error. It is gone
/// after four seconds.
pub proof fn law_outcomes_are_shown(s: AppModel, label: Seq<char>, why: Seq<char>, now: ClockModel, later: ClockModel)
    requires
        later.ms >= now.ms,
    ensures
        ({
            let done = s.on_ha_event(EventModel::ServiceResult { label, error: None }, now);
            let failed = s.on_ha_event(EventModel::ServiceResult { label, error: Some(why) }, now);
            &&& done.toast is Some && !done.toast->0.error && text::ends(done.toast->0.text, label)
            &&& failed.toast is Some && failed.toast->0.error && text::ends(failed.toast->0.text, label + ": "@ + why)
            &&& done.toast->0.text == "✓ "@ + label
            &&& later.ms - now.ms > 4_000 ==> done.on_tick(later).toast is None && failed.on_tick(later).toast is None
            &&& later.ms - now.ms <= 4_000 ==> done.on_tick(later).toast == done.toast && failed.on_tick(later).toast == failed.toast
            &&& done.cmds == s.cmds && done.mode == s.mode && done.store == s.store
        }),
{
    let done = s.on_ha_event(EventModel::ServiceResult { label, error: None }, now).toast->0.text;
    let failed = s.on_ha_event(EventModel::ServiceResult { label, error: Some(why) }, now).toast->0.text;
    let rest = label + ": "@ + why;
    assert(done.skip(done.len() - label.len()) =~= label);
    assert(failed =~= "✗ "@ + rest);
    assert(failed.skip(failed.len() - rest.len()) =~= rest);
}

/// Help and a history are left with escape, enter, `q` and the key that opened them; nothing else leaves them.
pub proof fn law_help_and_history_are_left(s: AppModel, code: KeyCode, now: ClockModel)
    ensures
        ({
            let key = KeyEvent { code, ctrl: false };
            let leaves = code == KeyCode::Esc || code == KeyCode::Enter || code == KeyCode::Char('q');
            &&& s.mode is Help ==> (s.on_key(key, now).mode is Normal <==> leaves || code == KeyCode::Char('?'))
            &&& s.mode is History ==> (s.on_key(key, now).mode is Normal <==> leaves || code == KeyCode::Char('H'))
            &&& s.mode is History && s.on_key(key, now).mode is Normal ==> s.on_key(key, now).history is None
            &&& s.mode is History && code == KeyCode::Char('r') && s.history is Some ==> s.on_key(key, now) == s.opening_history(
                s.history->0.entity_id,
                now,
            )
        }),
{
}

/// At first nothing is loaded, nothing is asked for, and everything is to be grouped by area.
pub proof fn law_a_fresh_start(now: ClockModel)
    ensures
        ({
            let s = super::state::fresh(now);
            &&& s.store.entities.len() == 0 && !s.store.loaded && !s.store.show_all
            &&& s.status is Connecting && s.status_since == now.ms
            &&& s.tab == Tab::Entities && s.focus == Focus::List && s.mode is Normal && s.group_by == GroupBy::Area
            &&& s.filter.len() == 0 && s.cmds.len() == 0 && s.toast is None && s.history is None && !s.should_quit
            &&& s.logbook.fetched_at is None && !s.logbook.loading && s.logbook.entity is None
        }),
{
}

// ----- Selections ---------------------------------------------------------------------------------

/// Each list of entities has a selection of its own: selecting in one leaves the others.
pub proof fn law_tabs_keep_their_selections(s: AppModel, row: Option<usize>)
    ensures
        s.selecting(row).list_state() == row,
        ({
            let t = s.selecting(row);
            let at = |x: AppModel, tab: Tab| (AppModel { tab, ..x }).list_state();
            &&& s.tab != Tab::Entities && s.tab != Tab::Logbook ==> at(t, Tab::Entities) == at(s, Tab::Entities)
            &&& s.tab != Tab::Scenes ==> at(t, Tab::Scenes) == at(s, Tab::Scenes)
            &&& s.tab != Tab::Automations ==> at(t, Tab::Automations) == at(s, Tab::Automations)
            &&& t.tab == s.tab && t.store == s.store && t.filter == s.filter && t.cmds == s.cmds && t.mode == s.mode && t.group_state == s.group_state
        }),
{
}

/// A selection stays where it is as long as that is among what is listed; else it is the last of it, and where
/// nothing is listed there is none. Without one the first is selected.
pub proof fn law_selections_stay(i: usize, len: int)
    requires
        0 <= len <= usize::MAX,
    ensures
        i < len ==> super::state::synced(Some(i), len) == Some(i) && super::state::within(Some(i), len) == i,
        0 < len <= i ==> super::state::synced(Some(i), len) == Some((len - 1) as usize) && super::state::within(Some(i), len) == len - 1,
        len == 0 ==> super::state::synced(Some(i), len) is None && super::state::synced(None, len) is None,
        0 < len ==> super::state::synced(None, len) == Some(0usize) && super::state::within(None, len) == 0,
{
}

/// The selected entity is the one in the selected row.
pub proof fn law_the_selected_entity(s: AppModel, i: usize)
    requires
        i < s.list_ids().len(),
        s.list_state() == Some(i),
    ensures
        s.selected_id() == Some(s.list_ids()[i as int]),
{
}

/// Without a filter the entities are those of the selected group: of the one in the selected row of the groups.
pub proof fn law_the_selected_group_is_listed(s: AppModel, e: EntityModel, i: usize)
    requires
        s.tab == Tab::Entities,
        text::trimmed(s.filter).len() == 0,
        s.group_state == Some(i),
        i < s.store.groups(s.group_by).len(),
    ensures
        s.candidates().contains(e) <==> s.store.visible(s.group_by, s.store.groups(s.group_by)[i as int].key, None).contains(e),
        s.candidates().len() == s.store.groups(s.group_by)[i as int].count,
{
    crate::store::law_groups_count_what_they_list(s.store, s.group_by, i as int);
}

/// With a filter, what is listed is what it finds, by name, id or area, of what the tab lists.
pub proof fn law_filters_list_what_they_find(s: AppModel, e: EntityModel)
    requires
        text::trimmed(s.filter).len() > 0,
        s.candidates().contains(e),
        crate::search::matching(text::trimmed(s.filter), super::state::haystack(s.store, e)) is Some,
    ensures
        s.list_ids().contains(e.entity_id),
{
    let l = s.candidates();
    let ids = l.map_values(|x: EntityModel| x.entity_id);
    let hays = l.map_values(|x: EntityModel| super::state::haystack(s.store, x));
    let k = choose|k: int| 0 <= k < l.len() && l[k] == e;
    assert(crate::search::found(s.filter, ids, hays, k) && ids[k] == e.entity_id);
    crate::search::law_ranked_are_the_found(s.filter, ids, hays, e.entity_id);
}

/// The palette finds an offer by its label and its hint: what is listed for an input is what that finds there.
pub proof fn law_palettes_find_by_label_and_hint(s: AppModel, item: super::state::ItemModel)
    requires
        text::trimmed(s.palette.input).len() > 0,
    ensures
        s.refreshing_palette().palette.items.contains(item) ==> s.offers().contains(item) && crate::search::matching(
            text::trimmed(s.palette.input),
            item.label + " "@ + item.hint,
        ) is Some,
        s.refreshing_palette().palette.items.len() < 200 && s.offers().contains(item) && crate::search::matching(
            text::trimmed(s.palette.input),
            item.label + " "@ + item.hint,
        ) is Some ==> s.refreshing_palette().palette.items.contains(item),
{
    let all = s.offers();
    let hays = all.map_values(|i: super::state::ItemModel| i.label + " "@ + i.hint);
    let input = s.palette.input;
    let found = crate::search::ranked(input, all, hays);
    let items = s.refreshing_palette().palette.items;
    crate::search::law_ranked_are_the_found(input, all, hays, item);
    if items.contains(item) {
        let j = choose|j: int| 0 <= j < items.len() && items[j] == item;
        assert(found[j] == item);
        let k = choose|k: int| #[trigger] crate::search::found(input, all, hays, k) && all[k] == item;
        assert(all[k] == item && hays[k] == item.label + " "@ + item.hint);
    }
    if all.contains(item) && crate::search::matching(text::trimmed(input), item.label + " "@ + item.hint) is Some {
        let k = choose|k: int| 0 <= k < all.len() && all[k] == item;
        assert(hays[k] == item.label + " "@ + item.hint);
        assert(crate::search::found(input, all, hays, k));
    }
}

/// Escape clears a filter that was kept and goes to the top; entering a group goes to its entities. Neither does
/// anything else.
pub proof fn law_escape_and_enter(s: AppModel, now: ClockModel)
    ensures
        ({
            let esc = s.on_key_normal(KeyEvent { code: KeyCode::Esc, ctrl: false }, now);
            let enter = s.on_key_normal(KeyEvent { code: KeyCode::Enter, ctrl: false }, now);
            let space = s.on_key_normal(KeyEvent { code: KeyCode::Char(' '), ctrl: false }, now);
            &&& s.filter.len() > 0 ==> esc.filter.len() == 0 && esc.list_state() == Some(0usize) && esc.cmds == s.cmds && esc.tab == s.tab
            &&& s.filter.len() == 0 ==> esc == s
            &&& s.tab == Tab::Entities && s.focus == Focus::Groups ==> enter == (AppModel { focus: Focus::List, ..s }) && space == enter
            &&& s.tab == Tab::Logbook ==> enter == s
        }),
{
}

/// Getting about asks nothing of Home Assistant, except that the logbook is fetched.
pub proof fn law_getting_about_asks_nothing(s: AppModel, code: KeyCode, now: ClockModel)
    requires
        code == KeyCode::Up || code == KeyCode::Down || code == KeyCode::PageUp || code == KeyCode::PageDown || code == KeyCode::Home || code == KeyCode::End
            || code == KeyCode::Left || code == KeyCode::Right || code == KeyCode::Esc || code == KeyCode::Char('1') || code == KeyCode::Char('2') || code
            == KeyCode::Char('3') || code == KeyCode::Char('g') || code == KeyCode::Char('a') || code == KeyCode::Char('?') || code == KeyCode::Char(
            '/',
        ) || code == KeyCode::Char(':') || code == KeyCode::Char('q'),
    ensures
        s.tab != Tab::Logbook ==> s.on_key_normal(KeyEvent { code, ctrl: false }, now).cmds == s.cmds,
{
}

/// Of what happens at the terminal only a key does something. Each mode has its own keys.
pub proof fn law_keys_go_by_the_mode(s: AppModel, key: KeyEvent, ev: super::state::Event, now: ClockModel)
    ensures
        s.on_terminal(super::state::Event::Key(key), now) == s.on_key(key, now),
        !(ev is Key) ==> s.on_terminal(ev, now) == s,
        !(key.ctrl && key.code == KeyCode::Char('c')) ==> {
            &&& s.mode is Normal ==> s.on_key(key, now) == s.on_key_normal(key, now)
            &&& s.mode is Filter ==> s.on_key(key, now) == s.on_key_filter(key)
            &&& s.mode is Palette ==> s.on_key(key, now) == s.on_key_palette(key, now)
        },
{
}

/// Commands are handed out in the order in which they came about, all of them, and once.
pub proof fn law_commands_are_handed_out_once(s: AppModel)
    ensures
        s.handing_out().0 == s.cmds,
        s.handing_out().1.handing_out().0.len() == 0,
        s.handing_out().1 == (AppModel { cmds: s.handing_out().1.cmds, ..s }),
{
}

/// In the logbook the keys move among its entries.
pub proof fn law_keys_move_in_the_logbook(s: AppModel, now: ClockModel)
    requires
        s.tab == Tab::Logbook,
    ensures
        ({
            let n = s.logbook.entries.len() as int;
            let row = |code: KeyCode| s.on_key_normal(KeyEvent { code, ctrl: false }, now).logbook.state;
            &&& row(KeyCode::Down) == super::state::moved(s.logbook.state, n, Motion::Down(1)) && row(KeyCode::Char('j')) == row(KeyCode::Down)
            &&& row(KeyCode::Up) == super::state::moved(s.logbook.state, n, Motion::Up(1)) && row(KeyCode::Char('k')) == row(KeyCode::Up)
            &&& row(KeyCode::PageDown) == super::state::moved(s.logbook.state, n, Motion::Down(10))
            &&& row(KeyCode::PageUp) == super::state::moved(s.logbook.state, n, Motion::Up(10))
            &&& row(KeyCode::Home) == super::state::moved(s.logbook.state, n, Motion::First)
            &&& row(KeyCode::End) == super::state::moved(s.logbook.state, n, Motion::Last)
        }),
{
}

/// The time that has passed is what is between the two times; none has where the clock did not go on.
pub proof fn law_time_passes(since: u64, now: u64)
    ensures
        now >= since ==> super::state::elapsed(since, now) == now - since,
        now < since ==> super::state::elapsed(since, now) == 0,
{
}

/// Going to what is not listed goes to the top of the list of all entities.
pub proof fn law_going_to_what_is_gone(s: AppModel, id: Seq<char>, now: ClockModel)
    requires
        !(AppModel { focus: Focus::List, group_state: Some(0), ..s.showing(Tab::Entities, now) }).list_ids().contains(id),
    ensures
        ({
            let t = s.going_to(id, now);
            t.tab == Tab::Entities && t.focus == Focus::List && t.group_state == Some(0usize) && t.list_state() == Some(0usize)
        }),
{
    lemma_not_found((AppModel { focus: Focus::List, group_state: Some(0), ..s.showing(Tab::Entities, now) }).list_ids(), id);
}

proof fn lemma_not_found<T>(l: Seq<T>, x: T)
    requires
        !l.contains(x),
    ensures
        crate::ha::actions::position(l, x) == l.len(),
    decreases l.len(),
{
    if l.len() > 0 {
        assert(l.contains(l[0]));
        let t = l.drop_first();
        assert forall|i: int| 0 <= i < t.len() implies t[i] != x by {
            assert(t[i] == l[i + 1]);
            assert(l.contains(l[i + 1]));
        }
        lemma_not_found(t, x);
    }
}

} // verus!
