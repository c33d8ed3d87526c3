//! The application: keys, events and what it asks of Home Assistant.

use homeassistant_tui::app::{
    elapsed, key_action, moved, App, Clock, Event, Focus, KeyCode, KeyEvent, Mode, Motion, PaletteAction, Tab,
};
use homeassistant_tui::app::state::{LOGBOOK_STALE, PALETTE_MAX, TOAST_TTL};
use homeassistant_tui::ha::actions::{level_of, Action, Level, Operand};
use homeassistant_tui::ha::client::{ConnStatus, HaCommand, HaEvent, RegistryUpdate, Snapshot};
use homeassistant_tui::ha::types::{Area, EntityRegistryEntry, EntityState, HistoryPoint, LogbookEntry, Steps};
use homeassistant_tui::json::{Json, Number};
use homeassistant_tui::store::GroupBy;
use homeassistant_tui::strmap::StrMap;
use homeassistant_tui::time::Timestamp;
use serde_json::Value;

/// A JSON value out of its text.
fn json(text: &str) -> Json {
    lift(&serde_json::from_str(text).unwrap())
}

fn lift(v: &Value) -> Json {
    match v {
        Value::Null => Json::Null,
        Value::Bool(b) => Json::Bool(*b),
        Value::Number(n) => Json::Number(number(n)),
        Value::String(s) => Json::Text(s.clone()),
        Value::Array(a) => Json::List(a.iter().map(lift).collect()),
        Value::Object(o) => Json::Object(fields(o)),
    }
}

fn fields(o: &serde_json::Map<String, Value>) -> StrMap<Json> {
    let mut r = StrMap::new();
    for (k, v) in o {
        r.insert(k.clone(), lift(v));
    }
    r
}

fn number(n: &serde_json::Number) -> Number {
    Number { uint: n.as_u64(), text: n.to_string(), micros: (n.as_f64().unwrap() * 1_000_000.0) as i64 }
}

/// An entity as Home Assistant reports it, or `None` where it cannot be read.
fn entity(text: &str) -> Option<EntityState> {
    let v: Value = serde_json::from_str(text).unwrap();
    let when = |k: &str| match v.get(k) {
        None | Some(Value::Null) => Some(None),
        Some(t) => Timestamp::parse(t.as_str()?).map(Some),
    };
    let mut e = EntityState {
        entity_id: v.get("entity_id")?.as_str()?.to_string(),
        state: v.get("state")?.as_str()?.to_string(),
        attributes: match v.get("attributes") {
            None => StrMap::new(),
            Some(a) => fields(a.as_object()?),
        },
        last_changed: when("last_changed")?,
        last_updated: when("last_updated")?,
        steps: Steps { up: None, down: None },
    };
    if let Some(level) = level_of(&e) {
        e.steps = Steps { up: stepped(&level, true), down: stepped(&level, false) };
    }
    Some(e)
}

fn operand(o: &Operand, min: f64, max: f64) -> Option<f64> {
    match o {
        Operand::Given(n) => n.text.parse().ok(),
        Operand::Written(s) => s.parse().ok(),
        Operand::Thousandths(n) => Some(*n as f64 / 1000.0),
        Operand::Middle => Some((min + max) / 2.0),
        Operand::Lowest => Some(f64::MIN),
        Operand::Highest => Some(f64::MAX),
    }
}

fn stepped(l: &Level, up: bool) -> Option<Number> {
    let min = operand(&l.min, 0.0, 0.0)?;
    let max = operand(&l.max, 0.0, 0.0)?;
    let cur = operand(&l.cur, min, max)?;
    let by = operand(&l.by, 0.0, 0.0)?;
    if !(min <= max) {
        return None;
    }
    let v = if up { cur + by } else { cur - by };
    let v = if l.grid {
        if !(by > 0.0 && by.is_finite() && cur.is_finite()) {
            return None;
        }
        (((v / by).round() * by).clamp(min, max) * 1000.0).round() / 1000.0
    } else {
        v.clamp(min, max).round()
    };
    let n = if l.whole { serde_json::Number::from(v as i64) } else { serde_json::Number::from_f64(v)? };
    Some(number(&n))
}

fn at(ms: u64) -> Clock {
    Clock { ms, date: Timestamp::parse("2026-09-19T08:00:00+00:00").unwrap() }
}

fn named(id: &str, state: &str, name: &str) -> EntityState {
    entity(&format!("{{\"entity_id\": \"{id}\", \"state\": \"{state}\", \"attributes\": {{\"friendly_name\": \"{name}\"}}}}")).unwrap()
}

fn app() -> App {
    let mut app = App::new(&at(0));
    let states = vec![
        named("light.kitchen", "off", "Kitchen Light"),
        named("light.bed", "on", "Bed Lamp"),
        named("lock.front", "locked", "Front Door"),
        named("scene.movie", "unknown", "Movie"),
        named("automation.night", "on", "Night"),
    ];
    app.on_ha_event(HaEvent::Snapshot(Snapshot { states, ..Snapshot::default() }), &at(0));
    app
}

fn press(app: &mut App, code: KeyCode) {
    app.on_key(KeyEvent { code, ctrl: false }, &at(0));
}

fn type_str(app: &mut App, s: &str) {
    for c in s.chars() {
        press(app, KeyCode::Char(c));
    }
}

/// The one command that the application asks for.
fn command(app: &mut App) -> HaCommand {
    let mut all = app.take_commands();
    assert_eq!(all.len(), 1);
    all.remove(0)
}

fn called(app: &mut App) -> String {
    match command(app) {
        HaCommand::CallService { call, .. } => call.name(),
        other => panic!("unexpected {other:?}"),
    }
}

#[test]
fn filter_then_toggle() {
    let mut app = app();
    press(&mut app, KeyCode::Char('/'));
    type_str(&mut app, "kitch");
    press(&mut app, KeyCode::Enter);
    assert_eq!(app.list_ids(), vec!["light.kitchen"]);
    press(&mut app, KeyCode::Enter);
    assert_eq!(called(&mut app), "light.toggle");
}

#[test]
fn lock_requires_confirmation() {
    let mut app = app();
    app.go_to("lock.front", &at(0));
    press(&mut app, KeyCode::Enter);
    assert!(matches!(app.mode, Mode::Confirm { .. }));
    assert!(app.take_commands().is_empty());
    press(&mut app, KeyCode::Char('n'));
    assert!(app.take_commands().is_empty());
    press(&mut app, KeyCode::Enter);
    press(&mut app, KeyCode::Char('y'));
    assert_eq!(called(&mut app), "lock.unlock");
}

#[test]
fn palette_runs_scene() {
    let mut app = app();
    press(&mut app, KeyCode::Char(':'));
    type_str(&mut app, "run movie");
    assert_eq!(app.palette.items[0].label, "Run Movie");
    press(&mut app, KeyCode::Enter);
    assert_eq!(called(&mut app), "scene.turn_on");
}

#[test]
fn tabs_list_their_domains() {
    let mut app = app();
    press(&mut app, KeyCode::Char('2'));
    assert_eq!(app.list_ids(), vec!["scene.movie"]);
    press(&mut app, KeyCode::Char('3'));
    assert_eq!(app.list_ids(), vec!["automation.night"]);
    press(&mut app, KeyCode::Char('x'));
    assert_eq!(called(&mut app), "automation.trigger");
    press(&mut app, KeyCode::Char('4'));
    assert!(matches!(command(&mut app), HaCommand::Logbook { .. }));
}

#[test]
fn history_follows_live_changes() {
    let mut app = app();
    app.go_to("light.bed", &at(0));
    press(&mut app, KeyCode::Char('H'));
    assert!(matches!(command(&mut app), HaCommand::History { .. }));
    app.on_ha_event(HaEvent::History { entity_id: "light.bed".to_string(), points: vec![] }, &at(0));
    let ns = entity(r#"{"entity_id": "light.bed", "state": "off"}"#).unwrap();
    app.on_ha_event(HaEvent::StateChanged { entity_id: "light.bed".to_string(), new_state: Some(ns) }, &at(0));
    assert_eq!(app.history.as_ref().unwrap().points.as_ref().unwrap().len(), 1);
}

#[test]
fn history_is_opened_refreshed_and_closed() {
    let mut app = app();
    app.go_to("light.bed", &at(0));
    press(&mut app, KeyCode::Char('H'));
    assert_eq!(
        command(&mut app),
        HaCommand::History { entity_id: "light.bed".to_string(), since: Timestamp::parse("2026-09-18T08:00:00Z").unwrap() }
    );
    assert_eq!(app.history.as_ref().unwrap().name, "Bed Lamp");
    app.on_ha_event(HaEvent::HistoryFailed { entity_id: "light.bed".to_string(), error: "e".to_string() }, &at(0));
    assert_eq!(app.history.as_ref().unwrap().error.as_deref(), Some("e"));
    press(&mut app, KeyCode::Char('r'));
    assert!(app.history.as_ref().unwrap().error.is_none());
    assert!(matches!(command(&mut app), HaCommand::History { .. }));
    // What another entity does is not shown.
    app.on_ha_event(HaEvent::History { entity_id: "light.other".to_string(), points: vec![] }, &at(0));
    assert!(app.history.as_ref().unwrap().points.is_none());
    // Nor is a state that is already the last one.
    let when = at(0).date;
    let points = vec![HistoryPoint { when, state: "on".to_string() }];
    app.on_ha_event(HaEvent::History { entity_id: "light.bed".to_string(), points }, &at(0));
    app.on_ha_event(
        HaEvent::StateChanged { entity_id: "light.bed".to_string(), new_state: Some(named("light.bed", "on", "Bed Lamp")) },
        &at(0),
    );
    assert_eq!(app.history.as_ref().unwrap().points.as_ref().unwrap().len(), 1);
    press(&mut app, KeyCode::Esc);
    assert!(app.history.is_none() && app.mode == Mode::Normal);
}

#[test]
fn control_c_quits_whatever_is_shown() {
    for open in ["", "/", ":", "?", "H"] {
        let mut app = app();
        type_str(&mut app, open);
        assert!(!app.should_quit);
        app.on_key(KeyEvent { code: KeyCode::Char('c'), ctrl: true }, &at(0));
        assert!(app.should_quit);
    }
    let mut app = app();
    press(&mut app, KeyCode::Char('q'));
    assert!(app.should_quit);
}

#[test]
fn releases_are_not_presses() {
    let mut app = app();
    let q = KeyEvent { code: KeyCode::Char('q'), ctrl: false };
    app.on_terminal_event(Event::Release(q), &at(0));
    app.on_terminal_event(Event::Other, &at(0));
    assert!(!app.should_quit);
    app.on_terminal_event(Event::Key(q), &at(0));
    assert!(app.should_quit);
}

#[test]
fn a_filter_searches_every_group() {
    let mut app = app();
    press(&mut app, KeyCode::Char('g'));
    assert_eq!(app.group_by, GroupBy::Domain);
    press(&mut app, KeyCode::Char('h'));
    press(&mut app, KeyCode::Down);
    assert_eq!(app.list_ids(), vec!["automation.night"]);
    press(&mut app, KeyCode::Enter);
    assert_eq!(app.focus, Focus::List);
    press(&mut app, KeyCode::Char('/'));
    type_str(&mut app, "lamp");
    assert_eq!(app.list_ids(), vec!["light.bed"]);
    app.group_by = GroupBy::Area;
    assert_eq!(app.list_ids(), vec!["light.bed"]);
    press(&mut app, KeyCode::Backspace);
    assert_eq!(app.filter, "lam");
    press(&mut app, KeyCode::Esc);
    assert_eq!((app.filter.as_str(), &app.mode), ("", &Mode::Normal));
}

#[test]
fn escape_clears_a_kept_filter() {
    let mut app = app();
    press(&mut app, KeyCode::Char('/'));
    type_str(&mut app, "lamp");
    press(&mut app, KeyCode::Enter);
    press(&mut app, KeyCode::Esc);
    assert_eq!(app.filter, "");
    assert_eq!(app.list_ids().len(), 5);
}

#[test]
fn tabs_go_round_and_clear_the_filter() {
    let mut app = app();
    app.filter = "x".to_string();
    for expected in [Tab::Scenes, Tab::Automations, Tab::Logbook, Tab::Entities] {
        press(&mut app, KeyCode::Tab);
        assert_eq!(app.tab, expected);
        assert_eq!(app.filter, "");
    }
    press(&mut app, KeyCode::BackTab);
    assert_eq!(app.tab, Tab::Logbook);
    for t in [Tab::Entities, Tab::Scenes, Tab::Automations, Tab::Logbook] {
        assert_eq!(t.next().previous(), t);
    }
    assert_eq!(Tab::Scenes.title(), "Scenes & Scripts");
}

#[test]
fn moves_stay_among_the_rows() {
    assert_eq!(moved(None, 0, Motion::Down(1)), None);
    assert_eq!(moved(None, 3, Motion::Down(1)), Some(1));
    assert_eq!(moved(Some(9), 3, Motion::Up(1)), Some(1));
    assert_eq!(moved(Some(1), 3, Motion::Down(10)), Some(2));
    assert_eq!(moved(Some(1), 3, Motion::Up(10)), Some(0));
    assert_eq!(moved(Some(1), 3, Motion::First), Some(0));
    assert_eq!(moved(Some(1), 3, Motion::Last), Some(2));
    let mut app = app();
    for (code, row) in [(KeyCode::Char('j'), 1), (KeyCode::PageDown, 4), (KeyCode::Up, 3), (KeyCode::Home, 0), (KeyCode::End, 4), (KeyCode::PageUp, 0)] {
        press(&mut app, code);
        assert_eq!(app.list_state(), Some(row));
    }
}

#[test]
fn the_selected_entity_is_listed() {
    let mut app = app();
    app.select(Some(99));
    assert_eq!(app.selected_id().as_deref(), Some("automation.night"));
    app.filter = "zzzz".to_string();
    assert_eq!(app.selected_id(), None);
    assert_eq!(App::new(&at(0)).selected_id(), None);
}

#[test]
fn going_to_an_entity_selects_it() {
    let mut app = app();
    press(&mut app, KeyCode::Char('3'));
    app.go_to("lock.front", &at(0));
    assert_eq!(app.tab, Tab::Entities);
    assert_eq!(app.selected_id().as_deref(), Some("lock.front"));
    app.go_to("gone.away", &at(0));
    assert_eq!(app.list_state(), Some(0));
}

#[test]
fn selections_are_kept_within_what_is_shown() {
    let mut app = app();
    app.select(Some(7));
    let ids = app.list_ids();
    assert_eq!(app.sync_list(&ids), Some(4));
    assert_eq!(app.list_state(), Some(4));
    assert_eq!(app.sync_list(&vec![]), None);
    app.group_state = Some(9);
    let groups = app.store.groups(GroupBy::Area);
    app.sync_groups(&groups);
    assert_eq!(app.group_state, Some(groups.len() - 1));
}

#[test]
fn results_are_shown_for_a_while() {
    let mut app = app();
    let result = |r: Result<(), String>| HaEvent::ServiceResult { label: "l".to_string(), result: r };
    app.on_ha_event(result(Ok(())), &at(10));
    let t = app.toast.as_ref().unwrap();
    assert_eq!((t.text.as_str(), t.error), ("✓ l", false));
    app.on_ha_event(result(Err("e".to_string())), &at(20));
    let t = app.toast.as_ref().unwrap();
    assert_eq!((t.text.as_str(), t.error), ("✗ l: e", true));
    app.on_tick(&at(20 + TOAST_TTL));
    assert!(app.toast.is_some());
    app.on_tick(&at(21 + TOAST_TTL));
    assert!(app.toast.is_none());
    assert_eq!((elapsed(5, 7), elapsed(7, 5)), (2, 0));
}

#[test]
fn keys_without_meaning_say_so() {
    let mut app = app();
    app.go_to("light.bed", &at(0));
    press(&mut app, KeyCode::Char('x'));
    let t = app.toast.as_ref().unwrap();
    assert_eq!((t.text.as_str(), t.error), ("Nothing to do for light with that key", true));
    assert!(app.take_commands().is_empty());
}

#[test]
fn acting_is_refused_confirmed_or_done() {
    let mut refused = app();
    refused.go_to("scene.movie", &at(0));
    press(&mut refused, KeyCode::Char('+'));
    assert!(refused.toast.as_ref().unwrap().error);
    assert!(refused.take_commands().is_empty());
    assert!(matches!(refused.mode, Mode::Normal));

    let mut confirmed = app();
    confirmed.go_to("lock.front", &at(0));
    press(&mut confirmed, KeyCode::Enter);
    assert!(confirmed.take_commands().is_empty());
    match &confirmed.mode {
        Mode::Confirm { call, label } => assert_eq!((call.name().as_str(), label.as_str()), ("lock.unlock", "Front Door: unlock")),
        other => panic!("unexpected {other:?}"),
    }

    let mut done = app();
    done.go_to("light.bed", &at(0));
    press(&mut done, KeyCode::Enter);
    assert!(matches!(done.mode, Mode::Normal));
    assert!(done.toast.is_none());
    match command(&mut done) {
        HaCommand::CallService { call, label } => assert_eq!((call.name().as_str(), label.as_str()), ("light.toggle", "Bed Lamp: toggle")),
        other => panic!("unexpected {other:?}"),
    }
}

#[test]
fn calls_are_labelled() {
    let mut app = app();
    app.go_to("light.bed", &at(0));
    press(&mut app, KeyCode::Char('+'));
    match command(&mut app) {
        HaCommand::CallService { label, .. } => assert_eq!(label, "Bed Lamp: turn on brightness step pct=10"),
        other => panic!("unexpected {other:?}"),
    }
}

#[test]
fn the_logbook_is_newest_first() {
    let mut app = app();
    let entry = |secs: i64, m: &str| LogbookEntry {
        when: Timestamp::new(secs, 0).unwrap(),
        entity_id: None,
        name: None,
        message: Some(m.to_string()),
        state: None,
    };
    let entries = vec![entry(1, "a"), entry(3, "b"), entry(2, "c"), entry(3, "d")];
    app.on_ha_event(HaEvent::Logbook { entity_id: None, result: Ok(entries) }, &at(0));
    let order: Vec<&str> = app.logbook.entries.iter().map(|e| e.message.as_deref().unwrap()).collect();
    assert_eq!(order, vec!["b", "d", "c", "a"]);
    assert_eq!(app.logbook.state, Some(0));
    app.on_ha_event(HaEvent::Logbook { entity_id: None, result: Err("e".to_string()) }, &at(0));
    assert_eq!((app.logbook.error.as_deref(), app.logbook.entries.len()), (Some("e"), 4));
}

#[test]
fn the_logbook_is_fetched_when_stale_or_asked_for() {
    let mut app = app();
    let show = |app: &mut App, ms: u64| {
        app.on_key(KeyEvent { code: KeyCode::Char('1'), ctrl: false }, &at(ms));
        app.on_key(KeyEvent { code: KeyCode::Char('4'), ctrl: false }, &at(ms));
        app.take_commands().len()
    };
    assert_eq!(show(&mut app, 0), 1);
    // Still loading.
    assert_eq!(show(&mut app, 2 * LOGBOOK_STALE), 0);
    app.on_ha_event(HaEvent::Logbook { entity_id: None, result: Ok(vec![]) }, &at(0));
    assert_eq!(show(&mut app, LOGBOOK_STALE), 0);
    assert_eq!(show(&mut app, LOGBOOK_STALE + 1), 1);
    press(&mut app, KeyCode::Char('r'));
    assert!(matches!(command(&mut app), HaCommand::Logbook { entity_id: None, .. }));
    press(&mut app, KeyCode::Char('f'));
    match command(&mut app) {
        HaCommand::Logbook { entity_id, since } => {
            assert_eq!(entity_id.as_deref(), Some("light.bed"));
            assert_eq!(since, at(0).date.earlier(24));
        }
        other => panic!("unexpected {other:?}"),
    }
    press(&mut app, KeyCode::Char('f'));
    assert!(matches!(command(&mut app), HaCommand::Logbook { entity_id: None, .. }));
    // A new snapshot fetches it again while it is shown.
    app.on_ha_event(HaEvent::Snapshot(Snapshot::default()), &at(0));
    assert!(matches!(command(&mut app), HaCommand::Logbook { .. }));
}

#[test]
fn registry_updates_reach_the_store() {
    let mut app = app();
    let entry = EntityRegistryEntry {
        entity_id: "light.bed".to_string(),
        area_id: Some("a".to_string()),
        device_id: None,
        hidden_by: None,
        disabled_by: None,
        entity_category: None,
        platform: None,
    };
    app.on_ha_event(HaEvent::Registry(RegistryUpdate::Entities(vec![entry])), &at(0));
    let area = Area { area_id: "a".to_string(), name: "Attic".to_string() };
    app.on_ha_event(HaEvent::Registry(RegistryUpdate::Areas(vec![area])), &at(0));
    assert_eq!(app.store.area_name("light.bed"), "Attic");
}

#[test]
fn status_changes_are_timed() {
    let mut app = app();
    app.on_ha_event(HaEvent::Status(ConnStatus::Connected { version: "v".to_string() }), &at(77));
    assert_eq!((&app.status, app.status_since), (&ConnStatus::Connected { version: "v".to_string() }, 77));
}

#[test]
fn the_palette_lists_what_can_be_done() {
    let mut app = app();
    app.on_key(KeyEvent { code: KeyCode::Char('p'), ctrl: true }, &at(0));
    let labels: Vec<&str> = app.palette.items.iter().map(|i| i.label.as_str()).collect();
    assert_eq!(
        labels,
        vec![
            "Tab: Entities",
            "Tab: Scenes & Scripts",
            "Tab: Automations",
            "Tab: Logbook",
            "Group by domains",
            "Resync with Home Assistant",
            "Help",
            "Quit",
            "Toggle Bed Lamp",
            "Go to Bed Lamp",
            "Unlock Front Door",
            "Go to Front Door",
            "Toggle Kitchen Light",
            "Go to Kitchen Light",
            "Run Movie",
            "Go to Movie",
            "Toggle Night",
            "Trigger Night",
            "Go to Night",
        ]
    );
    assert_eq!(app.palette.items[10].action, PaletteAction::Act("lock.front".to_string(), Action::Primary));
    // Unlocking from the palette asks first, too.
    type_str(&mut app, "unlock");
    press(&mut app, KeyCode::Enter);
    assert!(matches!(app.mode, Mode::Confirm { .. }) && app.take_commands().is_empty());
}

#[test]
fn the_palette_moves_and_runs() {
    let mut app = app();
    press(&mut app, KeyCode::Char(':'));
    press(&mut app, KeyCode::Up);
    assert_eq!(app.palette.state, Some(0));
    press(&mut app, KeyCode::Down);
    app.on_key(KeyEvent { code: KeyCode::Char('n'), ctrl: true }, &at(0));
    assert_eq!(app.palette.state, Some(2));
    app.on_key(KeyEvent { code: KeyCode::Char('p'), ctrl: true }, &at(0));
    press(&mut app, KeyCode::Enter);
    assert_eq!((app.tab, &app.mode), (Tab::Scenes, &Mode::Normal));
    for (query, check) in [("resync with", 0), ("help", 1), ("quit", 2), ("group by", 3)] {
        press(&mut app, KeyCode::Char(':'));
        type_str(&mut app, query);
        press(&mut app, KeyCode::Enter);
        match check {
            0 => assert_eq!(command(&mut app), HaCommand::Resync),
            1 => {
                assert_eq!(app.mode, Mode::Help);
                press(&mut app, KeyCode::Char('?'));
            }
            2 => assert!(app.should_quit),
            _ => assert_eq!(app.group_by, GroupBy::Domain),
        }
    }
}

#[test]
fn the_palette_is_bounded() {
    let mut app = App::new(&at(0));
    let states = (0..300).map(|i| named(&format!("light.l{i}"), "on", "x")).collect();
    app.on_ha_event(HaEvent::Snapshot(Snapshot { states, ..Snapshot::default() }), &at(0));
    press(&mut app, KeyCode::Char(':'));
    assert_eq!(app.palette.items.len(), PALETTE_MAX);
    type_str(&mut app, "zzzzzz");
    assert!(app.palette.items.is_empty());
    press(&mut app, KeyCode::Enter);
    assert_eq!(app.mode, Mode::Normal);
}

#[test]
fn resync_and_hidden_entities_are_announced() {
    let mut app = app();
    press(&mut app, KeyCode::Char('r'));
    assert_eq!(command(&mut app), HaCommand::Resync);
    assert_eq!(app.toast.as_ref().unwrap().text, "Resyncing…");
    press(&mut app, KeyCode::Char('a'));
    assert!(app.store.show_all);
    assert_eq!(app.toast.as_ref().unwrap().text, "Showing all entities (incl. hidden & system)");
    press(&mut app, KeyCode::Char('a'));
    assert_eq!(app.toast.as_ref().unwrap().text, "Hiding hidden & system entities");
}

#[test]
fn keys_have_their_actions() {
    let cases = [
        (' ', Action::Primary),
        ('=', Action::Increase),
        ('_', Action::Decrease),
        (']', Action::SecondaryUp),
        ('[', Action::SecondaryDown),
        ('m', Action::CycleMode),
        ('o', Action::Open),
        ('c', Action::Close),
        ('s', Action::Stop),
        ('x', Action::Trigger),
        ('n', Action::Next),
        ('p', Action::Prev),
    ];
    for (c, a) in cases {
        assert_eq!(key_action(KeyCode::Char(c)), Some(a));
    }
    assert_eq!(key_action(KeyCode::Enter), Some(Action::Primary));
    assert_eq!(key_action(KeyCode::Esc), None);
}
