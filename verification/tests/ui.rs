//! What is shown.

use homeassistant_tui::app::{App, Clock, HistoryView, KeyCode, KeyEvent, Mode, PaletteAction, PaletteItem, Tab, Toast};
use homeassistant_tui::ha::actions::{level_of, Level, Operand};
use homeassistant_tui::ha::client::{ConnStatus, HaEvent, Snapshot};
use homeassistant_tui::ha::types::{EntityState, HistoryPoint, LogbookEntry, Steps};
use homeassistant_tui::json::{Json, Number};
use homeassistant_tui::store::Group;
use homeassistant_tui::strmap::StrMap;
use homeassistant_tui::time::Timestamp;
use homeassistant_tui::ui::entities::{detail, group_line, groups_view, panes, table, truncate, Panes, Width};
use homeassistant_tui::ui::history::{
    cells, chart_data, chart_offset, chart_summary, duration, extremes, half_way, history_message, history_title, in_window, numeric, point_lines, Reading, Series,
};
use homeassistant_tui::ui::logbook::screen;
use homeassistant_tui::ui::popups::{confirm_lines, help_lines, palette_area, palette_input, palette_lines};
use homeassistant_tui::ui::theme::{ago, dim, format_state, last_triggered, state_color, timeline_color, Color, Line, Piece, Span};
use homeassistant_tui::ui::{branding, centered, fit_status, hints, splash, status_left, status_right, tab_index, tab_titles, Rect};
use serde_json::Value;

/// A JSON value out of its text.
fn json(text: &str) -> Json {
    lift(&serde_json::from_str(text).unwrap())
}

fn lift(v: &Value) -> Json {
    match v {
        Value::Null => Json::Null,
        Value::Bool(b) => Json::Bool(*b),
        Value::Number(n) => Json::Number(number(n)),
        Value::String(s) => Json::Text(s.clone()),
        Value::Array(a) => Json::List(a.iter().map(lift).collect()),
        Value::Object(o) => Json::Object(fields(o)),
    }
}

fn fields(o: &serde_json::Map<String, Value>) -> StrMap<Json> {
    let mut r = StrMap::new();
    for (k, v) in o {
        r.insert(k.clone(), lift(v));
    }
    r
}

fn number(n: &serde_json::Number) -> Number {
    Number { uint: n.as_u64(), text: n.to_string(), micros: (n.as_f64().unwrap() * 1_000_000.0) as i64 }
}

/// An entity as Home Assistant reports it, or `None` where it cannot be read.
fn entity(text: &str) -> Option<EntityState> {
    let v: Value = serde_json::from_str(text).unwrap();
    let when = |k: &str| match v.get(k) {
        None | Some(Value::Null) => Some(None),
        Some(t) => Timestamp::parse(t.as_str()?).map(Some),
    };
    let mut e = EntityState {
        entity_id: v.get("entity_id")?.as_str()?.to_string(),
        state: v.get("state")?.as_str()?.to_string(),
        attributes: match v.get("attributes") {
            None => StrMap::new(),
            Some(a) => fields(a.as_object()?),
        },
        last_changed: when("last_changed")?,
        last_updated: when("last_updated")?,
        steps: Steps { up: None, down: None },
    };
    if let Some(level) = level_of(&e) {
        e.steps = Steps { up: stepped(&level, true), down: stepped(&level, false) };
    }
    Some(e)
}

fn operand(o: &Operand, min: f64, max: f64) -> Option<f64> {
    match o {
        Operand::Given(n) => n.text.parse().ok(),
        Operand::Written(s) => s.parse().ok(),
        Operand::Thousandths(n) => Some(*n as f64 / 1000.0),
        Operand::Middle => Some((min + max) / 2.0),
        Operand::Lowest => Some(f64::MIN),
        Operand::Highest => Some(f64::MAX),
    }
}

fn stepped(l: &Level, up: bool) -> Option<Number> {
    let min = operand(&l.min, 0.0, 0.0)?;
    let max = operand(&l.max, 0.0, 0.0)?;
    let cur = operand(&l.cur, min, max)?;
    let by = operand(&l.by, 0.0, 0.0)?;
    if !(min <= max) {
        return None;
    }
    let v = if up { cur + by } else { cur - by };
    let v = if l.grid {
        if !(by > 0.0 && by.is_finite() && cur.is_finite()) {
            return None;
        }
        (((v / by).round() * by).clamp(min, max) * 1000.0).round() / 1000.0
    } else {
        v.clamp(min, max).round()
    };
    let n = if l.whole { serde_json::Number::from(v as i64) } else { serde_json::Number::from_f64(v)? };
    Some(number(&n))
}

fn t(h: i64) -> Timestamp {
    Timestamp::new(h * 3600, 0).unwrap()
}

fn p(h: i64, state: &str) -> HistoryPoint {
    HistoryPoint { when: t(h), state: state.to_string() }
}

/// The rank of a number in the total order of floating-point numbers.
fn rank(v: f64) -> i64 {
    turned(v.to_bits() as i64)
}

fn ranked(rank: i64) -> f64 {
    f64::from_bits(turned(rank) as u64)
}

fn turned(bits: i64) -> i64 {
    if bits < 0 {
        bits ^ i64::MAX
    } else {
        bits
    }
}

/// How a state reads as a number.
fn reading(s: &str) -> Reading {
    match s.parse::<f64>() {
        Ok(v) if v.is_finite() => Reading::Number(rank(v)),
        Ok(_) => Reading::NotFinite,
        Err(_) => Reading::Text,
    }
}

fn series(points: &[HistoryPoint], end: Timestamp) -> Option<Series> {
    let readings: Vec<Reading> = points.iter().map(|p| reading(&p.state)).collect();
    numeric(points, &readings, &end)
}

/// The runs of a series, by hour and value.
fn runs(s: &Series) -> Vec<Vec<(Timestamp, f64)>> {
    s.runs.iter().map(|r| r.iter().map(|(t, v)| (*t, ranked(*v))).collect()).collect()
}

/// What pieces read as, numbers as they are written.
fn read(pieces: &[Piece]) -> String {
    pieces
        .iter()
        .map(|p| match p {
            Piece::Text(s) => s.clone(),
            Piece::Rounded(n) => format!("{:.0}", n.text.parse::<f64>().unwrap()),
            Piece::Brightness(n) => format!("{:.0}", n.text.parse::<f64>().unwrap() / 255.0 * 100.0),
            Piece::Trimmed(n) => format!("~{}", n.text),
            Piece::Reading(r) => format!("~{}", ranked(*r)),
            Piece::Clock { at, width } => format!("<{} {width}>", at.secs()),
        })
        .collect()
}

fn shown(l: &Line) -> String {
    l.spans.iter().map(|s| read(&s.pieces)).collect()
}

fn all(lines: &[Line]) -> Vec<String> {
    lines.iter().map(shown).collect()
}

fn ent(id: &str, state: &str, attrs: &str) -> EntityState {
    entity(&format!("{{\"entity_id\": \"{id}\", \"state\": \"{state}\", \"attributes\": {attrs}}}")).unwrap()
}

fn at(ms: u64) -> Clock {
    Clock { ms, date: t(100) }
}

fn app() -> App {
    let mut app = App::new(&at(0));
    let mut lamp = ent("light.bed", "on", r#"{"friendly_name": "Lamp", "brightness": 128, "modes": ["a", 1], "icon": "x", "x_y": {"k": "v"}}"#);
    lamp.last_changed = Some(t(98));
    let states = vec![
        lamp,
        ent("switch.lamp", "off", r#"{"friendly_name": "Lamp"}"#),
        ent("sensor.t", "21", r#"{"unit_of_measurement": "C"}"#),
        ent("automation.n", "on", r#"{"mode": "single"}"#),
        ent("scene.m", "unknown", "{}"),
    ];
    app.on_ha_event(HaEvent::Snapshot(Snapshot { states, ..Snapshot::default() }), &at(0));
    app
}

fn press(app: &mut App, c: char) {
    app.on_key(KeyEvent { code: KeyCode::Char(c), ctrl: false }, &at(0));
}

// ----- History -------------------------------------------------------------------

#[test]
fn numeric_detection() {
    assert!(series(&[p(0, "on"), p(1, "off")], t(2)).is_none());
    assert!(series(&[p(0, "unavailable")], t(2)).is_none());
    assert!(series(&[p(0, "1.5"), p(1, "unknown")], t(2)).is_some());
}

#[test]
fn gaps_split_runs_and_unavailable_is_not_current() {
    let s = series(&[p(0, "21"), p(1, "unavailable")], t(3)).unwrap();
    assert_eq!(runs(&s), vec![vec![(t(0), 21.0), (t(1), 21.0)]]);
    assert_eq!(s.now, None);

    let s = series(&[p(0, "1"), p(1, "2"), p(2, "unknown"), p(4, "3")], t(5)).unwrap();
    assert_eq!(runs(&s), vec![vec![(t(0), 1.0), (t(1), 2.0), (t(2), 2.0)], vec![(t(4), 3.0), (t(5), 3.0)]]);
    assert_eq!(s.now.map(ranked), Some(3.0));
}

#[test]
fn non_finite_values_are_gaps() {
    let s = series(&[p(0, "5"), p(1, "NaN"), p(2, "inf")], t(3)).unwrap();
    assert_eq!(runs(&s), vec![vec![(t(0), 5.0), (t(1), 5.0)]]);
    assert_eq!(s.now, None);
}

#[test]
fn window_keeps_the_point_in_effect_at_start() {
    let points = [p(0, "1"), p(1, "2"), p(3, "3")];
    assert_eq!(in_window(&points, &t(2)), &points[1..]);
    assert_eq!(in_window(&points, &t(0)), &points[..]);
    assert!(in_window(&[], &t(0)).is_empty());
}

#[test]
fn an_empty_state_is_a_gap() {
    assert_eq!(runs(&series(&[p(0, "1"), p(1, ""), p(2, "2")], t(3)).unwrap()).len(), 2);
}

#[test]
fn the_chart_spans_every_reading() {
    let s = series(&[p(1, "2"), p(2, "-3.5"), p(3, "unknown"), p(4, "-1")], t(5)).unwrap();
    let (lo, hi) = extremes(&s).unwrap();
    assert_eq!((ranked(lo), ranked(hi)), (-3.5, 2.0));
    let data: Vec<Vec<(i64, f64)>> =
        chart_data(&s, &t(2)).into_iter().map(|r| r.into_iter().map(|(x, v)| (x, ranked(v))).collect()).collect();
    assert_eq!(data, vec![vec![(0, 2.0), (0, -3.5), (3600, -3.5)], vec![(7200, -1.0), (10_800, -1.0)]]);
    assert_eq!(extremes(&Series { runs: vec![vec![]], now: None }), None);
    assert_eq!(shown(&chart_summary(s.now, lo, hi, "C")), " now ~-1C   min ~-3.5C   max ~2C");
    let gone = chart_summary(None, lo, hi, "");
    assert_eq!(shown(&gone), " now unavailable   min ~-3.5   max ~2");
    assert_eq!(gone.spans[1].style.fg, Some(Color::LightRed));
    assert_eq!(half_way(&t(3)), t(15));
}

#[test]
fn timelines_show_the_state_in_effect() {
    let points = [p(6, "on"), p(12, "off")];
    let c = cells(&points, &t(0), &t(24), 8);
    let on = Some(Color::Yellow);
    let off = Some(Color::DarkGray);
    assert_eq!(c, vec![None, None, on, on, off, off, off, off]);
    assert_eq!(cells(&[], &t(0), &t(24), 0), vec![None]);
    assert_eq!(chart_offset(&t(3), &t(1)), 7200);
    assert_eq!(chart_offset(&t(0), &t(1)), 0);
}

#[test]
fn changes_are_listed_newest_first_with_their_length() {
    let points = [p(6, "on"), p(12, "off")];
    assert_eq!(
        all(&point_lines(&points, &t(13), 5)),
        vec![format!(" <{} 9>  ■ {:<16}1h 0m", 12 * 3600, "off"), format!(" <{} 9>  ■ {:<16}6h 0m", 6 * 3600, "on")]
    );
    assert_eq!(point_lines(&points, &t(13), 1).len(), 1);
    assert_eq!(point_lines(&points, &t(13), 0).len(), 1);
    assert_eq!((duration(-5), duration(59), duration(3599), duration(7320)), ("0s".into(), "59s".into(), "59m".into(), "2h 2m".into()));
}

#[test]
fn the_history_popup_says_what_is_missing() {
    let mut h = HistoryView { entity_id: "x.y".into(), name: "N".into(), unit: None, points: None, error: None };
    let message = |h: &HistoryView| history_message(h).map(|s| read(&s.pieces));
    assert_eq!(history_title(&h), " History · N · last 24h ");
    assert_eq!(message(&h).as_deref(), Some("Loading…"));
    h.points = Some(vec![]);
    assert_eq!(message(&h).as_deref(), Some("No history recorded in the last 24h"));
    h.points = Some(vec![p(0, "1")]);
    assert_eq!(message(&h), None);
    h.error = Some("e".into());
    assert_eq!(message(&h).as_deref(), Some("Could not load history: e"));
}

// ----- Theme -----------------------------------------------------------------------

#[test]
fn states_have_their_colors() {
    for (s, c) in [
        ("on", Color::Yellow),
        ("above_horizon", Color::Yellow),
        ("locked", Color::Green),
        ("jammed", Color::LightRed),
        ("docked", Color::Gray),
        ("unavailable", Color::Red),
        ("21.5", Color::White),
    ] {
        assert_eq!(state_color(s), c);
    }
    assert_eq!(timeline_color("off"), Color::DarkGray);
    assert_eq!(timeline_color("on"), Color::Yellow);
    let palette = [Color::Cyan, Color::Magenta, Color::Blue, Color::LightGreen, Color::LightYellow, Color::LightMagenta];
    for s in ["", "a", "foo", "é", "something rather long that wraps around the word size"] {
        let h = s.bytes().fold(0usize, |h, b| h.wrapping_mul(31).wrapping_add(b as usize));
        assert_eq!(timeline_color(s), palette[h % 6], "{s}");
    }
}

#[test]
fn ages_are_rounded_down() {
    let now = Timestamp::new(1_000_000, 0).unwrap();
    for (secs, expected) in [(-5, "0s"), (0, "0s"), (59, "59s"), (60, "1m"), (3_599, "59m"), (3_600, "1h"), (86_399, "23h"), (86_400, "1d"), (900_000, "10d")] {
        assert_eq!(ago(&Timestamp::new(1_000_000 - secs, 0).unwrap(), &now), expected);
    }
}

#[test]
fn states_fold_in_the_useful_attribute() {
    let now = t(100);
    let cases = [
        ("light.a", "on", r#"{"brightness": 128}"#, "on 50%"),
        ("light.a", "on", "{}", "on"),
        ("light.a", "off", r#"{"brightness": 128}"#, "off"),
        ("light.a", "unavailable", r#"{"unit_of_measurement": "x"}"#, "unavailable"),
        ("fan.a", "on", r#"{"percentage": 66.6}"#, "on 67%"),
        ("cover.a", "open", r#"{"current_position": 40}"#, "open 40%"),
        ("cover.a", "closed", r#"{"current_position": 0}"#, "closed"),
        ("climate.a", "heat", r#"{"temperature": 21, "current_temperature": 19.5}"#, "heat → ~21° (~19.5°)"),
        ("climate.a", "off", r#"{"unit_of_measurement": "F", "current_temperature": 70}"#, "off (~70F)"),
        ("media_player.a", "playing", r#"{"media_title": "T"}"#, "playing · T"),
        ("media_player.a", "idle", r#"{"media_title": "T"}"#, "idle"),
        ("scene.a", "1970-01-05T02:00:00+00:00", "{}", "2h ago"),
        ("button.a", "x", "{}", "x"),
        ("sensor.a", "1970-01-05T02:00:00+00:00", r#"{"device_class": "timestamp"}"#, "<352800 0>"),
        ("sensor.a", "21", r#"{"unit_of_measurement": "C"}"#, "21 C"),
        ("sensor.a", "21", "{}", "21"),
    ];
    for (id, state, attrs, expected) in cases {
        assert_eq!(read(&format_state(&ent(id, state, attrs), &now)), expected, "{id} {state}");
    }
    assert_eq!(last_triggered(&ent("automation.a", "on", "{}"), &now), "never");
    assert_eq!(last_triggered(&ent("automation.a", "on", r#"{"last_triggered": "1970-01-05T03:58:00Z"}"#), &now), "2m ago");
}

// ----- Lists -------------------------------------------------------------------------

#[test]
fn long_text_is_cut() {
    assert_eq!(truncate("kitchen", 7), "kitchen");
    assert_eq!(truncate("kitchen", 4), "kit…");
    assert_eq!(truncate("äöü", 2), "ä…");
    assert_eq!(truncate("ab", 0), "…");
}

#[test]
fn panes_follow_the_tab_and_the_width() {
    assert_eq!(panes(Tab::Entities, 110), Panes { sidebar: 24, detail: 44 });
    assert_eq!(panes(Tab::Scenes, 109), Panes { sidebar: 0, detail: 0 });
}

#[test]
fn groups_show_their_counts() {
    let g = Group { key: None, title: "Kitchen".into(), count: 12 };
    assert_eq!(shown(&group_line(&g, 24)), format!("{:<16}  12", "Kitchen"));
    let mut app = app();
    let v = groups_view(&mut app, 24);
    assert_eq!((v.lines.len(), v.title, v.focused, v.dimmed), (2, "Areas", false, false));
    app.filter = "x".into();
    let v = groups_view(&mut app, 24);
    assert_eq!((v.title, v.dimmed), ("Search (all)", true));
}

#[test]
fn entities_are_tabled() {
    let mut app = app();
    let v = table(&mut app, &t(100));
    assert_eq!(v.header, vec!["", "Name", "State", "Area", "Changed"]);
    assert_eq!(v.widths, vec![Width::Length(1), Width::Fill(3), Width::Fill(2), Width::Length(10), Width::Length(7)]);
    assert_eq!(v.title, "All (5)");
    let rows: Vec<Vec<String>> = v.rows.iter().map(|r| all(r)).collect();
    // Entities that share a name are told apart.
    assert_eq!(rows[1], vec!["●", "Lamp · light", "on 50%", "Unassigned", "2h"]);
    assert_eq!(rows[2], vec!["●", "Lamp · switch", "off", "Unassigned", ""]);
    assert_eq!(rows[4], vec!["●", "sensor.t", "21 C", "Unassigned", ""]);
    assert_eq!((v.focused, v.message, v.selected), (true, None, Some((0, "automation.n".to_string()))));
    app.filter = "zzzz".into();
    let v = table(&mut app, &t(100));
    assert_eq!((v.title.as_str(), v.message, v.selected), ("Search results (0)", Some("No matches"), None));
}

#[test]
fn scenes_and_automations_are_tabled() {
    let mut app = app();
    press(&mut app, '2');
    let v = table(&mut app, &t(100));
    assert_eq!((v.title.as_str(), v.header), ("Scenes & Scripts (1)", vec!["", "Name", "Type", "Last run / state"]));
    assert_eq!(all(&v.rows[0]), vec!["●", "scene.m", "scene", "unknown"]);
    press(&mut app, '3');
    let v = table(&mut app, &t(100));
    assert_eq!(v.header, vec!["", "Name", "Enabled", "Last triggered", "Mode"]);
    assert_eq!(all(&v.rows[0]), vec!["●", "automation.n", "on", "never", "single"]);
}

#[test]
fn details_show_controls_and_attributes() {
    let app = app();
    let lines = all(&detail(&app.store, Some("light.bed"), &t(100), 44).unwrap());
    assert_eq!(
        lines,
        vec![
            "Lamp".to_string(),
            "light.bed".to_string(),
            String::new(),
            "State    on 50%".to_string(),
            "Area     Unassigned".to_string(),
            format!("Changed  2h ago  <{} 0>", 98 * 3600),
            String::new(),
            "Controls".to_string(),
            " Enter toggle".to_string(),
            " +     turn on brightness step pct=10".to_string(),
            " -     turn on brightness step pct=-10".to_string(),
            " H     history (24h)".to_string(),
            String::new(),
            "Attributes".to_string(),
            "brightness: 128".to_string(),
            "modes: a, 1".to_string(),
            "x y: {\"k\":\"v\"}".to_string(),
        ]
    );
    let lines = all(&detail(&app.store, Some("sensor.t"), &t(100), 44).unwrap());
    assert!(lines.contains(&"read-only".to_string()));
    let narrow = all(&detail(&app.store, Some("light.bed"), &t(100), 12).unwrap());
    assert_eq!(narrow[16], "x y: {\"…");
    assert!(detail(&app.store, None, &t(100), 44).is_none());
    assert!(detail(&app.store, Some("gone.x"), &t(100), 44).is_none());
}

// ----- Around the lists ----------------------------------------------------------------

#[test]
fn tabs_are_numbered() {
    assert_eq!(tab_titles(), vec!["1 Entities", "2 Scenes & Scripts", "3 Automations", "4 Logbook"]);
    assert_eq!((tab_index(Tab::Entities), tab_index(Tab::Logbook)), (0, 3));
    let (line, w) = branding(&app(), 100);
    assert_eq!((shown(&line).as_str(), w), (" 5 entities homeassistant-tui ", 22));
    assert_eq!(branding(&app(), 99).1, 0);
}

#[test]
fn the_splash_tells_how_connecting_goes() {
    let mut app = App::new(&at(0));
    assert_eq!(all(&splash(&app, &at(0))), vec!["Connecting to Home Assistant…"]);
    app.status = ConnStatus::Disconnected { error: "e".into(), retry_in: 5_000 };
    assert_eq!(all(&splash(&app, &at(1_500))), vec!["Cannot reach Home Assistant", "e", "retrying in 3s… (r to retry now)"]);
    assert_eq!(all(&splash(&app, &at(9_999)))[2], "retrying in 0s… (r to retry now)");
    app.status = ConnStatus::AuthFailed("m".into());
    let lines = all(&splash(&app, &at(0)));
    assert_eq!(lines[0..3], ["Authentication failed".to_string(), "m".to_string(), String::new()]);
}

#[test]
fn the_status_line_shows_connection_filter_and_hints() {
    let mut app = app();
    assert_eq!(shown(&status_left(&app, &at(0))), " ● connecting ");
    app.status = ConnStatus::Connected { version: "2026.9".into() };
    app.filter = "kit".into();
    assert_eq!(shown(&status_left(&app, &at(0))), " ● HA 2026.9  /kit ");
    app.mode = Mode::Filter;
    assert_eq!(shown(&status_left(&app, &at(0))), " ● HA 2026.9  /kit▏ ");
    assert_eq!(hints(&app), "type to filter · ↑↓ move · Enter keep · Esc clear ");
    app.mode = Mode::Normal;
    assert_eq!(hints(&app), "Enter toggle · +/- adjust · H history · / filter · : palette · g group · ? help ");
    app.status = ConnStatus::Disconnected { error: "e".into(), retry_in: 2_000 };
    assert_eq!(shown(&status_left(&app, &at(500))), " ● offline, retry in 1s  /kit ");
    app.status = ConnStatus::AuthFailed("m".into());
    assert_eq!(shown(&status_left(&app, &at(0))), " ● auth failed  /kit ");
    let right = status_right(&app);
    assert_eq!(right.style, dim());
    assert_eq!(read(&fit_status(&app, right, 80, 79).pieces), "? help · q quit ");
    let right = status_right(&app);
    assert_eq!(read(&fit_status(&app, right, 80, 80).pieces), hints(&app));
    app.toast = Some(Toast { text: "t".into(), error: true, at: 0 });
    let right = status_right(&app);
    assert_eq!((read(&right.pieces).as_str(), right.style.fg), (" t ", Some(Color::LightRed)));
    assert_eq!(read(&fit_status(&app, right, 80, 1).pieces), " t ");
}

#[test]
fn popups_are_centered() {
    let full = Rect { x: 0, y: 0, width: 100, height: 40 };
    assert_eq!(centered(full, 60, 80, 60, 30), Rect { x: 20, y: 4, width: 60, height: 32 });
    let small = Rect { x: 1, y: 2, width: 30, height: 4 };
    assert_eq!(centered(small, 50, 0, 40, 5), small);
    assert_eq!(palette_area(full), Rect { x: 20, y: 6, width: 60, height: 24 });
    let wide = Rect { x: 0, y: 0, width: 300, height: 6 };
    assert_eq!(palette_area(wide), Rect { x: 105, y: 1, width: 90, height: 5 });
    let largest = Rect { x: 0, y: 0, width: u16::MAX, height: u16::MAX };
    assert_eq!(centered(largest, 90, 80, 40, 12).width, 58_981);
}

#[test]
fn popups_have_their_lines() {
    let items = vec![
        PaletteItem { label: "Help".into(), hint: String::new(), action: PaletteAction::Help },
        PaletteItem { label: "Go to A".into(), hint: "light.a".into(), action: PaletteAction::GoTo("light.a".into()) },
    ];
    assert_eq!(all(&palette_lines(&items)), vec!["Help", "Go to A  light.a"]);
    assert_eq!(shown(&palette_input("run")), "› run▏");
    assert_eq!(all(&confirm_lines("Front Door: unlock")), vec!["Front Door: unlock", "y confirm   any other key cancel"]);
    let help = all(&help_lines());
    assert_eq!(help[0], "Navigation");
    assert_eq!(help[1], format!("  {:<20}switch tab", "1-4 / Tab"));
    assert_eq!(help.last().unwrap(), "Locks and garage doors ask for confirmation first.");
    assert_eq!(help.len(), 3 + 9 + 8 + 4 + 3 + 1);
}

#[test]
fn the_logbook_names_its_entries() {
    let mut app = app();
    let entry = |entity: Option<&str>, name: Option<&str>, state: Option<&str>| LogbookEntry {
        when: t(5),
        entity_id: entity.map(str::to_string),
        name: name.map(str::to_string),
        message: None,
        state: state.map(str::to_string),
    };
    let entries = vec![
        entry(Some("light.bed"), Some("Named"), Some("on")),
        entry(Some("light.bed"), None, Some("off")),
        entry(Some("gone.x"), None, None),
        entry(None, None, None),
    ];
    app.on_ha_event(HaEvent::Logbook { entity_id: None, result: Ok(entries) }, &at(0));
    let s = screen(&app);
    assert_eq!(s.title, " Logbook · all entities · last 24h (4) ");
    let names: Vec<String> = s.rows.iter().map(|r| shown(&r[1])).collect();
    assert_eq!(names, vec!["Named", "Lamp", "gone.x", ""]);
    assert_eq!(all(&s.rows[0]), vec![format!("<{} 0>", 5 * 3600), "Named".to_string(), "changed to on".to_string()]);
    app.logbook.entity = Some("light.bed".into());
    app.logbook.loading = true;
    assert_eq!(screen(&app).title, " Logbook · Lamp · last 24h (4) · loading… ");
    app.on_ha_event(HaEvent::Logbook { entity_id: None, result: Err("e".into()) }, &at(0));
    let error: Option<Span> = screen(&app).error;
    assert_eq!(read(&error.unwrap().pieces), "Could not load logbook: e");
}
