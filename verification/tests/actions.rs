//! What keys mean on entities.

use homeassistant_tui::ha::actions::{available, cycle, describe, level_of, needs_confirm, service_for, Action, Level, Operand};
use homeassistant_tui::ha::types::{EntityState, ServiceCall, Steps};
use homeassistant_tui::json::{Json, Number};
use homeassistant_tui::strmap::StrMap;
use homeassistant_tui::time::Timestamp;
use serde_json::Value;

/// A JSON value out of its text.
fn json(text: &str) -> Json {
    lift(&serde_json::from_str(text).unwrap())
}

fn lift(v: &Value) -> Json {
    match v {
        Value::Null => Json::Null,
        Value::Bool(b) => Json::Bool(*b),
        Value::Number(n) => Json::Number(number(n)),
        Value::String(s) => Json::Text(s.clone()),
        Value::Array(a) => Json::List(a.iter().map(lift).collect()),
        Value::Object(o) => Json::Object(fields(o)),
    }
}

fn fields(o: &serde_json::Map<String, Value>) -> StrMap<Json> {
    let mut r = StrMap::new();
    for (k, v) in o {
        r.insert(k.clone(), lift(v));
    }
    r
}

fn number(n: &serde_json::Number) -> Number {
    Number { uint: n.as_u64(), text: n.to_string(), micros: (n.as_f64().unwrap() * 1_000_000.0) as i64 }
}

/// An entity as Home Assistant reports it, or `None` where it cannot be read.
fn entity(text: &str) -> Option<EntityState> {
    let v: Value = serde_json::from_str(text).unwrap();
    let when = |k: &str| match v.get(k) {
        None | Some(Value::Null) => Some(None),
        Some(t) => Timestamp::parse(t.as_str()?).map(Some),
    };
    let mut e = EntityState {
        entity_id: v.get("entity_id")?.as_str()?.to_string(),
        state: v.get("state")?.as_str()?.to_string(),
        attributes: match v.get("attributes") {
            None => StrMap::new(),
            Some(a) => fields(a.as_object()?),
        },
        last_changed: when("last_changed")?,
        last_updated: when("last_updated")?,
        steps: Steps { up: None, down: None },
    };
    if let Some(level) = level_of(&e) {
        e.steps = Steps { up: stepped(&level, true), down: stepped(&level, false) };
    }
    Some(e)
}

fn operand(o: &Operand, min: f64, max: f64) -> Option<f64> {
    match o {
        Operand::Given(n) => n.text.parse().ok(),
        Operand::Written(s) => s.parse().ok(),
        Operand::Thousandths(n) => Some(*n as f64 / 1000.0),
        Operand::Middle => Some((min + max) / 2.0),
        Operand::Lowest => Some(f64::MIN),
        Operand::Highest => Some(f64::MAX),
    }
}

fn stepped(l: &Level, up: bool) -> Option<Number> {
    let min = operand(&l.min, 0.0, 0.0)?;
    let max = operand(&l.max, 0.0, 0.0)?;
    let cur = operand(&l.cur, min, max)?;
    let by = operand(&l.by, 0.0, 0.0)?;
    if !(min <= max) {
        return None;
    }
    let v = if up { cur + by } else { cur - by };
    let v = if l.grid {
        if !(by > 0.0 && by.is_finite() && cur.is_finite()) {
            return None;
        }
        (((v / by).round() * by).clamp(min, max) * 1000.0).round() / 1000.0
    } else {
        v.clamp(min, max).round()
    };
    let n = if l.whole { serde_json::Number::from(v as i64) } else { serde_json::Number::from_f64(v)? };
    Some(number(&n))
}

fn ent(id: &str, state: &str, attrs: &str) -> EntityState {
    entity(&format!(
        "{{\"entity_id\": \"{id}\", \"state\": \"{state}\", \"attributes\": {attrs}, \"last_changed\": null, \"last_updated\": null}}"
    ))
    .unwrap()
}

/// The number that a call carries under `key`.
fn amount(c: &ServiceCall, key: &str) -> f64 {
    c.data.get(key).unwrap().as_number().unwrap().text.parse().unwrap()
}

const ALL: [Action; 12] = [
    Action::Primary,
    Action::Increase,
    Action::Decrease,
    Action::SecondaryUp,
    Action::SecondaryDown,
    Action::CycleMode,
    Action::Open,
    Action::Close,
    Action::Stop,
    Action::Trigger,
    Action::Next,
    Action::Prev,
];

#[test]
fn light_controls() {
    let l = ent(
        "light.k",
        "on",
        r#"{"supported_color_modes": ["color_temp"], "color_temp_kelvin": 6400, "max_color_temp_kelvin": 6500, "min_color_temp_kelvin": 2000}"#,
    );
    assert_eq!(service_for(&l, Action::Primary).unwrap().name(), "light.toggle");
    let up = service_for(&l, Action::Increase).unwrap();
    assert_eq!(up.data.get("brightness_step_pct"), Some(&json("10")));
    let ct = service_for(&l, Action::SecondaryUp).unwrap();
    assert_eq!(ct.data.get("color_temp_kelvin"), Some(&json("6500")));
    let plain = ent("light.p", "on", r#"{"supported_color_modes": ["onoff"]}"#);
    assert!(service_for(&plain, Action::SecondaryUp).is_none());
}

#[test]
fn light_brightness_needs_more_than_onoff() {
    let onoff = ent("light.o", "on", r#"{"supported_color_modes": ["onoff"]}"#);
    assert!(service_for(&onoff, Action::Primary).is_some());
    assert!(service_for(&onoff, Action::Increase).is_none());
    assert!(service_for(&onoff, Action::Decrease).is_none());
    assert!(available(&onoff).iter().all(|(k, _)| *k == "Enter"));

    let dim = ent("light.d", "on", r#"{"supported_color_modes": ["brightness"]}"#);
    assert!(service_for(&dim, Action::Increase).is_some());
    // Dimmable, but no color temperature.
    assert!(service_for(&dim, Action::SecondaryUp).is_none());

    // Modes are authoritative when reported, even if a stale attribute lingers.
    let rgb = ent("light.r", "on", r#"{"supported_color_modes": ["rgb"], "color_temp_kelvin": null}"#);
    assert!(service_for(&rgb, Action::Increase).is_some());
    assert!(service_for(&rgb, Action::SecondaryUp).is_none());

    // Unknown capabilities keep the controls.
    let bare = ent("light.b", "on", "{}");
    assert!(service_for(&bare, Action::Increase).is_some());
}

#[test]
fn cover_controls_follow_supported_features() {
    // Open and close only: no stop, no position.
    let basic = ent("cover.b", "open", r#"{"supported_features": 3, "current_position": 40}"#);
    assert!(service_for(&basic, Action::Open).is_some());
    assert!(service_for(&basic, Action::Close).is_some());
    assert!(service_for(&basic, Action::Primary).is_some());
    assert!(service_for(&basic, Action::Stop).is_none());
    assert!(service_for(&basic, Action::Increase).is_none());

    // All of open, close, set position and stop.
    let full = ent("cover.f", "open", r#"{"supported_features": 15, "current_position": 40}"#);
    assert_eq!(service_for(&full, Action::Increase).unwrap().data.get("position"), Some(&json("50")));
    assert!(service_for(&full, Action::Stop).is_some());

    let none = ent("cover.n", "open", r#"{"supported_features": 0}"#);
    assert!(service_for(&none, Action::Primary).is_none());
    assert!(available(&none).is_empty());
}

#[test]
fn media_player_controls_follow_supported_features() {
    // Pause, previous and next track, volume step and select source.
    let bits = 1 | 16 | 32 | 1024 | 2048;
    let tv = ent(
        "media_player.tv",
        "playing",
        &format!("{{\"supported_features\": {bits}, \"source_list\": [\"a\", \"b\"]}}"),
    );
    assert_eq!(service_for(&tv, Action::Primary).unwrap().name(), "media_player.media_play_pause");
    assert!(service_for(&tv, Action::Next).is_some());
    assert!(service_for(&tv, Action::Prev).is_some());
    assert!(service_for(&tv, Action::Increase).is_some());
    assert!(service_for(&tv, Action::CycleMode).is_some());
    assert!(service_for(&tv, Action::Stop).is_none());

    // A speaker that only plays/pauses.
    let basic = ent("media_player.s", "playing", r#"{"supported_features": 1}"#);
    assert!(service_for(&basic, Action::Primary).is_some());
    assert!(service_for(&basic, Action::Next).is_none());
    assert!(service_for(&basic, Action::Prev).is_none());
    assert!(service_for(&basic, Action::Increase).is_none());
    assert!(service_for(&basic, Action::CycleMode).is_none());

    // Off and unable to turn on: nothing to do.
    let off = ent("media_player.o", "off", r#"{"supported_features": 1}"#);
    assert!(service_for(&off, Action::Primary).is_none());
    let off_ok = ent("media_player.o", "off", r#"{"supported_features": 128}"#);
    assert_eq!(service_for(&off_ok, Action::Primary).unwrap().name(), "media_player.turn_on");
}

#[test]
fn fan_climate_lock_vacuum_valve_follow_supported_features() {
    let fan = ent("fan.f", "on", r#"{"supported_features": 8}"#);
    assert!(service_for(&fan, Action::Increase).is_none());
    assert!(service_for(&fan, Action::SecondaryDown).is_none());
    let fan = ent("fan.f", "on", r#"{"supported_features": 1}"#);
    assert!(service_for(&fan, Action::Increase).is_some());

    let cl = ent("climate.c", "heat", r#"{"temperature": 20, "supported_features": 2}"#);
    assert!(service_for(&cl, Action::Increase).is_none());
    let cl = ent("climate.c", "heat", r#"{"temperature": 20, "supported_features": 1}"#);
    assert!(service_for(&cl, Action::Increase).is_some());

    let lock = ent("lock.l", "locked", r#"{"supported_features": 0}"#);
    assert!(service_for(&lock, Action::Open).is_none());
    let lock = ent("lock.l", "locked", r#"{"supported_features": 1}"#);
    assert!(service_for(&lock, Action::Open).is_some());

    // Stop and return home, but not start.
    let bits = format!("{{\"supported_features\": {}}}", 8 | 16);
    let vac = ent("vacuum.v", "docked", &bits);
    assert!(service_for(&vac, Action::Primary).is_none());
    assert!(service_for(&vac, Action::Stop).is_some());
    let vac = ent("vacuum.v", "cleaning", &bits);
    assert_eq!(service_for(&vac, Action::Primary).unwrap().name(), "vacuum.return_to_base");

    let valve = ent("valve.v", "open", r#"{"supported_features": 2}"#);
    assert!(service_for(&valve, Action::Open).is_none());
    assert!(service_for(&valve, Action::Close).is_some());
    assert!(service_for(&valve, Action::Stop).is_none());
}

#[test]
fn climate_steps_and_clamps() {
    let c = ent(
        "climate.h",
        "heat",
        r#"{"temperature": 21.5, "target_temp_step": 0.5, "max_temp": 22, "min_temp": 7, "hvac_modes": ["off", "heat", "auto"]}"#,
    );
    assert_eq!(service_for(&c, Action::Increase).unwrap().data.get("temperature"), Some(&json("22.0")));
    let hot = ent("climate.h", "heat", r#"{"temperature": 22, "max_temp": 22}"#);
    assert_eq!(service_for(&hot, Action::Increase).unwrap().data.get("temperature"), Some(&json("22.0")));
    assert_eq!(service_for(&c, Action::Decrease).unwrap().data.get("temperature"), Some(&json("21.0")));
    assert_eq!(service_for(&c, Action::CycleMode).unwrap().data.get("hvac_mode"), Some(&json("\"auto\"")));
    let dual = ent("climate.d", "heat_cool", r#"{"target_temp_low": 19}"#);
    assert!(service_for(&dual, Action::Increase).is_none());
}

#[test]
fn cycle_wraps() {
    assert_eq!(cycle(&["a", "b", "c"], "c"), Some("a"));
    assert_eq!(cycle(&["a", "b"], "zzz"), Some("a"));
    assert_eq!(cycle(&[], "a"), None);
}

#[test]
fn misc_domains() {
    let lock = ent("lock.front", "locked", "{}");
    assert_eq!(service_for(&lock, Action::Primary).unwrap().name(), "lock.unlock");
    assert!(needs_confirm(&lock, Action::Primary));

    let garage = ent("cover.garage", "closed", r#"{"device_class": "garage", "current_position": 0}"#);
    assert!(needs_confirm(&garage, Action::Open));
    assert_eq!(service_for(&garage, Action::Increase).unwrap().data.get("position"), Some(&json("10")));
    let blind = ent("cover.blind", "open", r#"{"device_class": "blind"}"#);
    assert!(!needs_confirm(&blind, Action::Open));
    assert!(service_for(&blind, Action::Increase).is_none());

    let num = ent("input_number.n", "4.8", r#"{"step": 0.2, "min": 0, "max": 5}"#);
    assert_eq!(service_for(&num, Action::Increase).unwrap().data.get("value"), Some(&json("5.0")));

    // Bad attributes from an integration must not panic or send NaN.
    let zero_step = ent("number.z", "1", r#"{"step": 0, "min": 0, "max": 5}"#);
    assert!(service_for(&zero_step, Action::Increase).is_none());
    let inverted = ent("number.i", "1", r#"{"step": 1, "min": 5, "max": 0}"#);
    assert!(service_for(&inverted, Action::Increase).is_none());
    let light = ent("light.l", "on", r#"{"min_color_temp_kelvin": 6500, "max_color_temp_kelvin": 2000}"#);
    assert!(service_for(&light, Action::SecondaryUp).is_none());

    let sensor = ent("sensor.t", "on", "{}");
    assert!(service_for(&sensor, Action::Primary).is_none());
    assert!(available(&sensor).is_empty());

    let group = ent("group.all", "on", "{}");
    assert_eq!(service_for(&group, Action::Primary).unwrap().name(), "homeassistant.toggle");

    let auto = ent("automation.a", "on", "{}");
    assert_eq!(service_for(&auto, Action::Trigger).unwrap().name(), "automation.trigger");

    let mp = ent("media_player.tv", "off", "{}");
    assert_eq!(service_for(&mp, Action::Primary).unwrap().name(), "media_player.turn_on");
}

#[test]
fn describes_calls() {
    let c = ServiceCall::new("light", "turn_on", "light.x").with("brightness_step_pct", Json::signed(10));
    assert_eq!(describe(&c), "turn on brightness step pct=10");
    let c = ServiceCall::new("climate", "set_hvac_mode", "climate.x").with("hvac_mode", json("\"heat\""));
    assert_eq!(describe(&c), "set hvac mode heat");
}

#[test]
fn levels_say_what_a_step_starts_from() {
    let light = ent("light.a", "on", r#"{"color_temp_kelvin": 4000}"#);
    let l = level_of(&light).unwrap();
    assert_eq!(l.by, Operand::Thousandths(250_000));
    assert_eq!(l.min, Operand::Thousandths(2_000_000));
    assert_eq!(l.max, Operand::Thousandths(6_500_000));
    assert!(!l.grid && l.whole);
    assert_eq!(amount(&service_for(&light, Action::SecondaryDown).unwrap(), "color_temp_kelvin"), 3750.0);
    let middle = ent("light.a", "on", r#"{"supported_color_modes": ["color_temp"]}"#);
    assert_eq!(level_of(&middle).unwrap().cur, Operand::Middle);
    assert_eq!(amount(&service_for(&middle, Action::SecondaryUp).unwrap(), "color_temp_kelvin"), 4500.0);

    let hum = ent("humidifier.a", "on", r#"{"humidity": 47, "max_humidity": 48}"#);
    let l = level_of(&hum).unwrap();
    assert_eq!((l.by, l.grid, l.whole), (Operand::Thousandths(5_000), true, true));
    assert_eq!(service_for(&hum, Action::Increase).unwrap().data.get("humidity"), Some(&json("48")));
    assert_eq!(service_for(&hum, Action::Decrease).unwrap().data.get("humidity"), Some(&json("40")));

    let cl = ent("climate.a", "heat", r#"{"temperature": 20.2}"#);
    let l = level_of(&cl).unwrap();
    assert_eq!((l.min, l.max, l.by), (Operand::Lowest, Operand::Highest, Operand::Thousandths(500)));
    assert_eq!(service_for(&cl, Action::Increase).unwrap().data.get("temperature"), Some(&json("20.5")));

    let num = ent("number.a", "7", "{}");
    assert_eq!(level_of(&num).unwrap().cur, Operand::Written("7".to_string()));
    assert_eq!(service_for(&num, Action::Decrease).unwrap().data.get("value"), Some(&json("6.0")));
    assert!(level_of(&ent("switch.a", "on", "{}")).is_none());
    assert!(level_of(&ent("climate.a", "heat", "{}")).is_none());
}

#[test]
fn unread_numbers_have_no_steps() {
    let num = ent("input_number.x", "unknown", r#"{"step": 1}"#);
    assert!(service_for(&num, Action::Increase).is_none());
    assert!(service_for(&num, Action::Decrease).is_none());
}

#[test]
fn every_domain_has_its_services() {
    let name = |id: &str, state: &str, a: Action| service_for(&ent(id, state, r#"{"current_position": 50}"#), a).map(|c| c.name());
    let cases = [
        ("switch.a", "on", Action::Primary, "switch.toggle"),
        ("input_boolean.a", "on", Action::Primary, "input_boolean.toggle"),
        ("siren.a", "off", Action::Primary, "siren.toggle"),
        ("humidifier.a", "off", Action::Primary, "humidifier.toggle"),
        ("fan.a", "off", Action::Primary, "fan.toggle"),
        ("fan.a", "on", Action::SecondaryUp, "fan.increase_speed"),
        ("fan.a", "on", Action::Decrease, "fan.decrease_speed"),
        ("climate.a", "off", Action::Primary, "climate.toggle"),
        ("cover.a", "open", Action::Primary, "cover.toggle"),
        ("cover.a", "open", Action::Open, "cover.open_cover"),
        ("cover.a", "open", Action::Close, "cover.close_cover"),
        ("cover.a", "open", Action::Stop, "cover.stop_cover"),
        ("cover.a", "open", Action::Decrease, "cover.set_cover_position"),
        ("valve.a", "open", Action::Primary, "valve.toggle"),
        ("valve.a", "open", Action::Open, "valve.open_valve"),
        ("valve.a", "open", Action::Close, "valve.close_valve"),
        ("valve.a", "open", Action::Stop, "valve.stop_valve"),
        ("media_player.a", "playing", Action::Increase, "media_player.volume_up"),
        ("media_player.a", "playing", Action::Decrease, "media_player.volume_down"),
        ("media_player.a", "playing", Action::Next, "media_player.media_next_track"),
        ("media_player.a", "playing", Action::Prev, "media_player.media_previous_track"),
        ("media_player.a", "playing", Action::Stop, "media_player.media_stop"),
        ("lock.a", "unlocked", Action::Primary, "lock.lock"),
        ("lock.a", "locked", Action::Open, "lock.open"),
        ("vacuum.a", "docked", Action::Primary, "vacuum.start"),
        ("vacuum.a", "docked", Action::Stop, "vacuum.stop"),
        ("scene.a", "unknown", Action::Primary, "scene.turn_on"),
        ("script.a", "off", Action::Primary, "script.turn_on"),
        ("script.a", "on", Action::Stop, "script.turn_off"),
        ("automation.a", "on", Action::Primary, "automation.toggle"),
        ("button.a", "unknown", Action::Primary, "button.press"),
        ("input_button.a", "unknown", Action::Primary, "input_button.press"),
        ("select.a", "x", Action::CycleMode, "select.select_next"),
        ("input_select.a", "x", Action::Primary, "input_select.select_next"),
        ("remote.a", "off", Action::Primary, "homeassistant.toggle"),
    ];
    for (id, state, a, expected) in cases {
        assert_eq!(name(id, state, a), Some(expected.to_string()), "{id} {a:?}");
    }
    assert_eq!(name("camera.a", "idle", Action::Primary), None);
    assert_eq!(name("scene.a", "unknown", Action::Stop), None);
    assert_eq!(name("switch.a", "on", Action::Trigger), None);
}

#[test]
fn sources_cycle_from_the_current_one() {
    let tv = ent("media_player.tv", "playing", r#"{"source": "b", "source_list": ["a", "b", "c"]}"#);
    let c = service_for(&tv, Action::CycleMode).unwrap();
    assert_eq!(c.name(), "media_player.select_source");
    assert_eq!(c.data.get("source"), Some(&json("\"c\"")));
    assert_eq!(describe(&c), "select source c");
    let none = ent("media_player.tv", "playing", "{}");
    assert!(service_for(&none, Action::CycleMode).is_none());
}

#[test]
fn calls_act_on_the_entity() {
    for id in ["light.a", "cover.a", "media_player.a", "group.a", "lock.a", "vacuum.a", "valve.a"] {
        for a in ALL {
            if let Some(c) = service_for(&ent(id, "on", "{}"), a) {
                assert_eq!(c.entity_id.as_deref(), Some(id));
            }
        }
    }
}

#[test]
fn reports_are_not_acted_on() {
    for d in ["sensor", "binary_sensor", "sun", "weather", "person", "device_tracker", "zone", "update", "event"] {
        for a in ALL {
            assert!(service_for(&ent(&format!("{d}.x"), "on", "{}"), a).is_none());
        }
    }
}

#[test]
fn what_needs_confirmation() {
    for a in ALL {
        assert!(needs_confirm(&ent("lock.a", "locked", "{}"), a));
        assert!(!needs_confirm(&ent("light.a", "on", r#"{"device_class": "garage"}"#), a));
    }
    for class in ["garage", "gate", "door"] {
        let c = ent("cover.a", "open", &format!("{{\"device_class\": \"{class}\"}}"));
        assert!(needs_confirm(&c, Action::Primary));
        assert!(needs_confirm(&c, Action::Close));
        assert!(needs_confirm(&c, Action::Increase));
        assert!(needs_confirm(&c, Action::Decrease));
        assert!(!needs_confirm(&c, Action::Stop));
        for a in ALL {
            if service_for(&c, a).is_some() {
                assert_eq!(needs_confirm(&c, a), a != Action::Stop);
            }
        }
    }
    assert!(needs_confirm(&ent("valve.a", "open", r#"{"device_class": "gate"}"#), Action::Open));
    assert!(!needs_confirm(&ent("valve.a", "open", r#"{"device_class": "water"}"#), Action::Open));
}

#[test]
fn cycling_goes_round() {
    let options = ["off", "heat", "auto"];
    let mut at = "off";
    for _ in 0..3 {
        at = cycle(&options, at).unwrap();
    }
    assert_eq!(at, "off");
    assert_eq!(cycle(&options, "off"), Some("heat"));
}

#[test]
fn hints_are_the_actions_that_apply() {
    let c = ent("cover.a", "open", r#"{"current_position": 50}"#);
    let hints = available(&c);
    let keys: Vec<&str> = hints.iter().map(|(k, _)| *k).collect();
    assert_eq!(keys, vec!["Enter", "+", "-", "o", "c", "s"]);
    assert_eq!(hints[1].1, "set cover position 60");
    let s = ent("select.a", "x", "{}");
    assert_eq!(available(&s), vec![("Enter", "select next".to_string()), ("m", "select next".to_string())]);
}

#[test]
fn descriptions_show_other_values_as_json() {
    let c = ServiceCall::new("x", "do_it", "x.y")
        .with("list", json(r#"[1,"a\n",null]"#))
        .with("flag", Json::flag(true))
        .with("cycle", Json::flag(true));
    assert_eq!(describe(&c), r#"do it flag=true list=[1,"a\n",null]"#);
}
