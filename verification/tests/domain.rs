//! Types, configuration, store, search and dump.

use homeassistant_tui::config::{command_token, resolve, world_readable, ws_url, CommandOutput, Config, FileConfig, TokenSource};
use homeassistant_tui::dump::{dump_step, DumpStep};
use homeassistant_tui::ha::actions::{level_of, Level, Operand};
use homeassistant_tui::ha::client::{ConnStatus, HaEvent, RegistryUpdate, Snapshot};
use homeassistant_tui::ha::types::{
    domain_of, Area, DeviceRegistryEntry, EntityRegistryEntry, EntityState, HistoryPoint, LogbookEntry, ServiceCall, Steps,
};
use homeassistant_tui::json::{Json, Number};
use homeassistant_tui::search::{best_of, is_searchable, is_variant, refold, Fuzzy, MAX_WORD};
use homeassistant_tui::store::{sort_by_name, GroupBy, Store, UNASSIGNED};
use homeassistant_tui::strmap::StrMap;
use homeassistant_tui::time::Timestamp;
use serde_json::Value;

/// A JSON value out of its text.
fn json(text: &str) -> Json {
    lift(&serde_json::from_str(text).unwrap())
}

fn lift(v: &Value) -> Json {
    match v {
        Value::Null => Json::Null,
        Value::Bool(b) => Json::Bool(*b),
        Value::Number(n) => Json::Number(number(n)),
        Value::String(s) => Json::Text(s.clone()),
        Value::Array(a) => Json::List(a.iter().map(lift).collect()),
        Value::Object(o) => Json::Object(fields(o)),
    }
}

fn fields(o: &serde_json::Map<String, Value>) -> StrMap<Json> {
    let mut r = StrMap::new();
    for (k, v) in o {
        r.insert(k.clone(), lift(v));
    }
    r
}

fn number(n: &serde_json::Number) -> Number {
    Number { uint: n.as_u64(), text: n.to_string(), micros: (n.as_f64().unwrap() * 1_000_000.0) as i64 }
}

/// An entity as Home Assistant reports it, or `None` where it cannot be read.
fn entity(text: &str) -> Option<EntityState> {
    let v: Value = serde_json::from_str(text).unwrap();
    let when = |k: &str| match v.get(k) {
        None | Some(Value::Null) => Some(None),
        Some(t) => Timestamp::parse(t.as_str()?).map(Some),
    };
    let mut e = EntityState {
        entity_id: v.get("entity_id")?.as_str()?.to_string(),
        state: v.get("state")?.as_str()?.to_string(),
        attributes: match v.get("attributes") {
            None => StrMap::new(),
            Some(a) => fields(a.as_object()?),
        },
        last_changed: when("last_changed")?,
        last_updated: when("last_updated")?,
        steps: Steps { up: None, down: None },
    };
    if let Some(level) = level_of(&e) {
        e.steps = Steps { up: stepped(&level, true), down: stepped(&level, false) };
    }
    Some(e)
}

fn operand(o: &Operand, min: f64, max: f64) -> Option<f64> {
    match o {
        Operand::Given(n) => n.text.parse().ok(),
        Operand::Written(s) => s.parse().ok(),
        Operand::Thousandths(n) => Some(*n as f64 / 1000.0),
        Operand::Middle => Some((min + max) / 2.0),
        Operand::Lowest => Some(f64::MIN),
        Operand::Highest => Some(f64::MAX),
    }
}

fn stepped(l: &Level, up: bool) -> Option<Number> {
    let min = operand(&l.min, 0.0, 0.0)?;
    let max = operand(&l.max, 0.0, 0.0)?;
    let cur = operand(&l.cur, min, max)?;
    let by = operand(&l.by, 0.0, 0.0)?;
    if !(min <= max) {
        return None;
    }
    let v = if up { cur + by } else { cur - by };
    let v = if l.grid {
        if !(by > 0.0 && by.is_finite() && cur.is_finite()) {
            return None;
        }
        (((v / by).round() * by).clamp(min, max) * 1000.0).round() / 1000.0
    } else {
        v.clamp(min, max).round()
    };
    let n = if l.whole { serde_json::Number::from(v as i64) } else { serde_json::Number::from_f64(v)? };
    Some(number(&n))
}

fn state(id: &str, st: &str, name: &str) -> EntityState {
    entity(&format!(
        "{{\"entity_id\": \"{id}\", \"state\": \"{st}\", \"attributes\": {{\"friendly_name\": \"{name}\"}}, \"last_changed\": null, \"last_updated\": null}}"
    ))
    .unwrap()
}

fn area(id: &str, name: &str) -> Area {
    Area { area_id: id.to_string(), name: name.to_string() }
}

fn registered(id: &str) -> EntityRegistryEntry {
    EntityRegistryEntry {
        entity_id: id.to_string(),
        area_id: None,
        device_id: None,
        hidden_by: None,
        disabled_by: None,
        entity_category: None,
        platform: None,
    }
}

fn some(s: &str) -> Option<String> {
    Some(s.to_string())
}

fn fixture() -> Store {
    let snap = Snapshot {
        states: vec![
            state("light.kitchen", "on", "Kitchen Light"),
            state("light.bed", "off", "Bed Lamp"),
            state("sensor.temp", "21.5", "Temperature"),
            state("switch.hidden", "on", "Hidden"),
            state("sensor.diag", "1", "Diag"),
            state("zone.home", "0", "Home"),
            state("sensor.backup_state", "idle", "Backup"),
        ],
        areas: vec![area("kitchen", "Kitchen"), area("bedroom", "Bedroom")],
        devices: vec![DeviceRegistryEntry { id: "dev1".to_string(), area_id: some("bedroom") }],
        entities: vec![
            EntityRegistryEntry { area_id: some("kitchen"), ..registered("light.kitchen") },
            EntityRegistryEntry { device_id: some("dev1"), ..registered("light.bed") },
            EntityRegistryEntry { hidden_by: some("user"), ..registered("switch.hidden") },
            EntityRegistryEntry { entity_category: some("diagnostic"), ..registered("sensor.diag") },
            EntityRegistryEntry { platform: some("backup"), ..registered("sensor.backup_state") },
        ],
    };
    let mut s = Store::default();
    s.load(snap);
    s
}

fn ids(v: Vec<&EntityState>) -> Vec<String> {
    v.iter().map(|e| e.entity_id.clone()).collect()
}

// ----- Types -------------------------------------------------------------------

#[test]
fn parses_state() {
    let s = entity(
        r#"{
            "entity_id": "light.kitchen",
            "state": "on",
            "attributes": {"friendly_name": "Kitchen", "brightness": 128},
            "last_changed": "2026-09-19T08:00:00.123456+00:00",
            "last_updated": "2026-09-19T08:00:00.123456+00:00",
            "context": {"id": "x", "parent_id": null, "user_id": null}
        }"#,
    )
    .unwrap();
    assert_eq!(s.domain(), "light");
    assert_eq!(s.friendly_name(), "Kitchen");
    assert_eq!(s.attr_f64("brightness").map(|n| n.text.parse::<f64>().unwrap()), Some(128.0));
    assert!(s.last_changed.is_some());
}

#[test]
fn parses_history_and_logbook() {
    let p = HistoryPoint::from_value(&json(r#"{"s": "21.5", "lu": 1758268800.5}"#)).unwrap();
    assert_eq!(p.state, "21.5");
    assert_eq!(p.when.secs(), 1_758_268_800);
    let l = LogbookEntry::from_value(&json(
        r#"{"when": 1758268800.0, "entity_id": "light.a", "name": "A", "state": "off"}"#,
    ))
    .unwrap();
    assert_eq!(l.describe(), "changed to off");
}

#[test]
fn reads_attributes() {
    let e = entity(
        r#"{"entity_id": "sensor.a", "state": "unknown", "attributes": {"unit_of_measurement": "W", "modes": ["a", 1, "b"], "n": "x"}}"#,
    )
    .unwrap();
    assert_eq!(e.friendly_name(), "sensor.a");
    assert_eq!(e.unit(), Some("W"));
    assert_eq!(e.attr_list("modes"), vec!["a", "b"]);
    assert!(e.attr_list("n").is_empty());
    assert_eq!(e.attr_str("modes"), None);
    assert!(e.attr_f64("n").is_none());
    assert!(e.is_unavailable());
    assert!(!state("light.a", "on", "A").is_unavailable());
    assert!(state("light.a", "unavailable", "A").is_unavailable());
}

#[test]
fn domains_end_at_the_first_dot() {
    assert_eq!(domain_of("light.a.b"), "light");
    assert_eq!(domain_of("nodot"), "nodot");
    assert_eq!(domain_of(".x"), "");
}

#[test]
fn history_points_take_the_first_usable_time() {
    let p = HistoryPoint::from_value(&json(
        r#"{"state": "on", "lu": null, "lc": "nonsense", "last_updated": "2026-09-19T10:00:00+02:00"}"#,
    ))
    .unwrap();
    assert_eq!(p.when.to_rfc3339(), "2026-09-19T08:00:00+00:00");
    assert!(HistoryPoint::from_value(&json(r#"{"s": 5, "state": "on", "lu": 1}"#)).is_none());
    assert!(HistoryPoint::from_value(&json(r#"{"s": "on"}"#)).is_none());
    assert!(HistoryPoint::from_value(&json("[]")).is_none());
    // Beyond what a date can hold.
    assert!(HistoryPoint::from_value(&json(r#"{"s": "on", "lu": 9.3e12}"#)).is_none());
    assert!(HistoryPoint::from_value(&json(r#"{"s": "on", "lu": 8210266876799}"#)).is_some());
}

#[test]
fn logbook_entries_describe_themselves() {
    let e = |t: &str| LogbookEntry::from_value(&json(t));
    assert_eq!(e(r#"{"when": 1, "message": "m", "state": "on"}"#).unwrap().describe(), "m");
    assert_eq!(e(r#"{"when": 1}"#).unwrap().describe(), "");
    assert_eq!(e(r#"{"when": 1, "name": 7}"#).unwrap().name, None);
    assert!(e(r#"{"name": "x"}"#).is_none());
}

#[test]
fn service_calls_hold_their_data() {
    let c = ServiceCall::new("light", "turn_on", "light.a").with("b", Json::count(1)).with("a", Json::count(2)).with("b", Json::count(3));
    assert_eq!(c.name(), "light.turn_on");
    assert_eq!(Json::object(c.data).to_text(), r#"{"a":2,"b":3}"#);
    assert_eq!(c.entity_id.as_deref(), Some("light.a"));
}

// ----- Configuration -----------------------------------------------------------

#[test]
fn ws_url_from_http() {
    assert_eq!(ws_url("http://homeassistant.local:8123/"), "ws://homeassistant.local:8123/api/websocket");
    assert_eq!(ws_url("https://x.ui.nabu.casa"), "wss://x.ui.nabu.casa/api/websocket");
    assert_eq!(ws_url("10.0.0.2:8123"), "ws://10.0.0.2:8123/api/websocket");
    assert_eq!(ws_url("ws://h:8123/api/websocket"), "ws://h:8123/api/websocket");
}

#[test]
fn endpoints_are_fixed_points() {
    for base in ["http://a", "https://a/", "a:1///", "ws://a", "wss://a/api/websocket", ""] {
        let once = ws_url(base);
        assert_eq!(ws_url(&once), once);
        assert!(once.ends_with("/api/websocket"));
    }
    assert_eq!(Config::load("https://h//", "  t\n").ws_url(), "wss://h/api/websocket");
}

#[test]
fn load_precedence() {
    let file = || FileConfig { url: some("http://file:8123"), token: None, token_command: some("echo abc") };
    let s = resolve(Some("c.toml"), None, None, file()).unwrap();
    assert_eq!(s.token, TokenSource::Command("echo abc".to_string()));
    let out = CommandOutput { success: true, status: String::new(), stdout: "abc\n".to_string(), stderr: String::new() };
    let c = Config::load(&s.url, &command_token("echo abc", &out).unwrap());
    assert_eq!(c.url, "http://file:8123");
    assert_eq!(c.token, "abc");
    let s = resolve(Some("c.toml"), some("http://env"), some("tok"), file()).unwrap();
    assert_eq!(s.token, TokenSource::Given("tok".to_string()));
    let c = Config::load(&s.url, "tok");
    assert_eq!(c.url, "http://env");
    assert_eq!(c.token, "tok");
}

#[test]
fn a_stored_token_comes_before_the_command() {
    let file = FileConfig { url: some("u"), token: some("t"), token_command: some("c") };
    assert_eq!(resolve(None, None, None, file).unwrap().token, TokenSource::Given("t".to_string()));
}

#[test]
fn missing_configuration_is_named() {
    let e = resolve(Some("/x/c.toml"), None, some("t"), FileConfig::default()).unwrap_err();
    assert_eq!(e, "no Home Assistant URL configured; set HA_URL or `url` in /x/c.toml");
    let e = resolve(None, some("u"), None, FileConfig::default()).unwrap_err();
    assert_eq!(e, "no access token configured; set HA_TOKEN, or `token` / `token_command` in the config file");
}

#[test]
fn token_commands_must_give_a_token() {
    let out = |success: bool, stdout: &str, stderr: &str| CommandOutput {
        success,
        status: "exit status: 1".to_string(),
        stdout: stdout.to_string(),
        stderr: stderr.to_string(),
    };
    assert_eq!(command_token("c", &out(true, " t \n", "x")), Ok("t".to_string()));
    let hint = "Is the token stored? e.g. secret-tool store --label=\"homeassistant-tui Home Assistant token\" service homeassistant-tui";
    assert_eq!(
        command_token("c", &out(false, "t", " oops\n")),
        Err(format!("token_command `c` returned no token (exit status: 1: oops).\n{hint}"))
    );
    assert_eq!(
        command_token("c", &out(true, " \n", "")),
        Err(format!("token_command `c` returned no token (exit status: 1).\n{hint}"))
    );
}

#[test]
fn others_may_not_read_the_token() {
    assert!(world_readable(0o100644));
    assert!(world_readable(0o100610));
    assert!(!world_readable(0o100600));
}

// ----- Store ---------------------------------------------------------------------

#[test]
fn resolves_area_via_device() {
    let s = fixture();
    assert_eq!(s.area_name("light.kitchen"), "Kitchen");
    assert_eq!(s.area_name("light.bed"), "Bedroom");
    assert_eq!(s.area_name("sensor.temp"), UNASSIGNED);
}

#[test]
fn hides_hidden_and_diagnostic() {
    let s = fixture();
    assert_eq!(ids(s.visible(GroupBy::Area, None, None)), vec!["light.bed", "light.kitchen", "sensor.temp"]);
    let mut s = s;
    s.show_all = true;
    assert_eq!(s.visible(GroupBy::Area, None, None).len(), 7);
}

#[test]
fn groups_sorted_with_unassigned_last() {
    let s = fixture();
    let titles: Vec<(String, usize)> = s.groups(GroupBy::Area).into_iter().map(|g| (g.title, g.count)).collect();
    assert_eq!(
        titles,
        vec![("All".into(), 3), ("Bedroom".into(), 1), ("Kitchen".into(), 1), (UNASSIGNED.into(), 1)]
    );
    let domains: Vec<String> = s.groups(GroupBy::Domain).into_iter().map(|g| g.title).collect();
    assert_eq!(domains, vec!["All", "light", "sensor"]);
    let bedroom = s.visible(GroupBy::Area, Some("bedroom"), None);
    assert_eq!(bedroom.len(), 1);
}

#[test]
fn applies_changes() {
    let mut s = fixture();
    s.apply_change("light.bed", Some(state("light.bed", "on", "Bed Lamp")));
    assert_eq!(s.get("light.bed").unwrap().state, "on");
    s.apply_change("light.bed", None);
    assert!(s.get("light.bed").is_none());
    s.apply_change("light.new", Some(state("light.new", "on", "New")));
    assert_eq!(s.visible(GroupBy::Domain, Some("light"), None).len(), 2);
}

#[test]
fn groups_count_what_they_list() {
    let mut s = fixture();
    for by in [GroupBy::Area, GroupBy::Domain] {
        for show_all in [false, true] {
            s.show_all = show_all;
            for g in s.groups(by) {
                assert_eq!(s.visible(by, g.key.as_deref(), None).len(), g.count);
            }
        }
    }
}

#[test]
fn groups_part_the_entities() {
    let mut s = fixture();
    for by in [GroupBy::Area, GroupBy::Domain] {
        for show_all in [false, true] {
            s.show_all = show_all;
            let groups = s.groups(by);
            assert_eq!((groups[0].key.as_deref(), groups[0].title.as_str()), (None, "All"));
            let rest = &groups[1..];
            assert_eq!(rest.iter().map(|g| g.count).sum::<usize>(), groups[0].count);
            for (i, g) in rest.iter().enumerate() {
                assert!(g.key.is_some() && g.count >= 1);
                assert!(rest[i + 1..].iter().all(|h| h.key != g.key));
            }
        }
    }
}

#[test]
fn snapshots_replace_everything() {
    let mut s = fixture();
    s.load(Snapshot { states: vec![state("light.a", "on", "A"), state("light.a", "off", "B")], ..Snapshot::default() });
    assert!(s.loaded);
    assert_eq!(s.entities.len(), 1);
    assert_eq!(s.get("light.a").unwrap().state, "off");
    assert!(s.areas.is_empty() && s.devices.is_empty() && s.registry.is_empty());
}

#[test]
fn registry_updates_replace_one_list() {
    let mut s = fixture();
    s.apply_registry(RegistryUpdate::Areas(vec![area("bedroom", "Master")]));
    assert_eq!(s.area_name("light.bed"), "Master");
    assert_eq!(s.area_name("light.kitchen"), UNASSIGNED);
    s.apply_registry(RegistryUpdate::Devices(vec![]));
    assert!(s.area_of("light.bed").is_none());
    s.apply_registry(RegistryUpdate::Entities(vec![EntityRegistryEntry { area_id: some("bedroom"), ..registered("sensor.temp") }]));
    assert_eq!(s.area_name("sensor.temp"), "Master");
    assert!(s.is_visible("switch.hidden"));
}

#[test]
fn lists_are_in_the_order_of_the_names() {
    let (a, b, c, d) = (state("x.d", "1", "beta"), state("x.c", "1", "Alpha"), state("x.b", "1", "BETA"), state("x.a", "1", "ÄB"));
    assert_eq!(ids(sort_by_name(vec![&a, &b, &c, &d])), vec!["x.c", "x.b", "x.d", "x.a"]);
}

#[test]
fn lists_keep_to_the_domains_asked_for() {
    let s = fixture();
    assert_eq!(ids(s.visible(GroupBy::Area, None, Some(&["sensor"]))), vec!["sensor.temp"]);
    assert!(s.visible(GroupBy::Area, Some("kitchen"), Some(&["sensor"])).is_empty());
    assert_eq!(ids(s.visible(GroupBy::Area, Some(""), None)), vec!["sensor.temp"]);
}

#[test]
fn groupings_toggle() {
    assert_eq!(GroupBy::default(), GroupBy::Area);
    assert_eq!(GroupBy::Area.toggle(), GroupBy::Domain);
    assert_eq!(GroupBy::Domain.toggle(), GroupBy::Area);
    assert_eq!((GroupBy::Area.label(), GroupBy::Domain.label()), ("Areas", "Domains"));
}

// ----- Search ----------------------------------------------------------------------

#[test]
fn ranks_and_filters() {
    let mut f = Fuzzy::default();
    let items = vec!["Bed Lamp light.bed", "Kitchen Light light.kitchen", "Temperature sensor.temp"];
    let r = f.rank("kit", items.clone(), |s| s.to_string());
    assert_eq!(r, vec!["Kitchen Light light.kitchen"]);
    let r = f.rank("light", items.clone(), |s| s.to_string());
    assert_eq!(r.len(), 2);
    assert!(!r.contains(&"Temperature sensor.temp"));
    assert_eq!(f.rank("", items.clone(), |s| s.to_string()), items);
    // Multi-word queries match each word independently.
    assert_eq!(f.rank("temp sens", items, |s| s.to_string()).len(), 1);
}

#[test]
fn ranking_puts_the_best_first_and_keeps_ties_in_order() {
    assert_eq!(best_of(vec![(1, "a"), (3, "b"), (1, "c"), (3, "d"), (2, "e")]), vec!["b", "d", "e", "a", "c"]);
    assert!(best_of(Vec::<(u32, u8)>::new()).is_empty());
}

#[test]
fn scores_do_not_depend_on_earlier_queries() {
    let mut f = Fuzzy::default();
    let first = f.score("lamp", "Bed Lamp");
    assert!(first.is_some());
    assert_eq!(f.score("zzz", "Bed Lamp"), None);
    assert_eq!(f.score("lamp", "Bed Lamp"), first);
    assert_eq!(f.score("  ", "anything"), f.score("", "anything"));
}

#[test]
fn words_beyond_the_limit_match_nothing() {
    let mut f = Fuzzy::default();
    let long = "a".repeat(MAX_WORD + 1);
    assert_eq!(f.score(&long, &long), None);
    assert_eq!(f.score(&format!("b {long}"), &format!("b {long}")), None);
    let fits = "a".repeat(MAX_WORD);
    // 36 for the first character and 26 for each of the others, in 16 bits.
    assert_eq!(f.score(&fits, &fits), Some(65_010));
    // A blank behind a backslash belongs to its word.
    assert!(!is_searchable(&format!("{fits}\\ b"), "x"));
    assert!(is_searchable(&format!("{fits} b"), "x"));
}

#[test]
fn backslashes_count_twice() {
    let mut f = Fuzzy::default();
    // Beside a character that is not ASCII, each backslash is looked for twice.
    let query = format!("{}é", "\\".repeat(1249));
    let hay = format!("{}é", "\\".repeat(2498));
    assert_eq!(f.score(&query, &hay), Some(32 + 24 * 2498));
    for n in [1250, 1400, 2499] {
        let query = format!("{}é", "\\".repeat(n));
        let hay = format!("{}é", "\\".repeat(2 * n));
        assert!(!is_searchable(&query, &hay));
        assert_eq!(f.score(&query, &hay), None);
    }
    assert!(is_searchable(&"\\".repeat(MAX_WORD / 2), "x"));
    assert!(!is_searchable(&"\\".repeat(MAX_WORD / 2 + 1), "x"));
}

#[test]
fn endpoints_are_secure_where_their_bases_are() {
    for base in ["https://h", "wss://h", "https://h:1/"] {
        assert!(ws_url(base).starts_with("wss://"), "{base}");
    }
    for base in ["http://h", "ws://h", "h", "httpswss://h"] {
        assert!(ws_url(base).starts_with("ws://"), "{base}");
    }
    // The slashes at its end are no part of the base.
    assert_eq!(ws_url("https://"), "ws://https:/api/websocket");
}

#[test]
fn a_query_of_many_words_is_matched_word_by_word() {
    let mut f = Fuzzy::default();
    let query = "ab ".repeat(1300);
    let one = f.score("ab", "xabx").unwrap();
    assert_eq!(f.score(&query, "xabx"), Some(1300 * one));
    assert_eq!(f.score(&format!("{query}z"), "xabx"), None);
}

#[test]
fn texts_that_would_be_folded_in_two_ways_match_nothing() {
    let mut f = Fuzzy::default();
    assert!(!is_searchable("sé", "ſxsxé"));
    assert_eq!(f.score("sé", "ſxsxé"), None);
    assert_eq!(f.score("σé", "ςxσxé"), None);
    // What the query does not hold does no harm, nor does a query without variants.
    assert!(f.score("kü", "µ Küche").is_some());
    assert!(f.score("kü", "µ küche").is_some());
    assert!(f.score("φως", "το φως").is_some());
    assert!(f.score("se", "ſxsxé").is_some());
}

#[test]
fn characters_are_those_that_nucleo_folds_and_takes_for_variants() {
    for n in 0..=0x10ffffu32 {
        if let Some(c) = char::from_u32(n) {
            let folded = nucleo_matcher::chars::to_lower_case(c);
            let expected = if c.is_lowercase() { folded as u32 } else { n };
            assert_eq!(refold(c), expected, "{n:x}");
            assert!(nucleo_matcher::chars::normalize(c) == c || is_variant(c), "{n:x}");
        }
    }
}

// ----- Dump ------------------------------------------------------------------------

#[test]
fn dump_prints_what_is_there() {
    let ev = HaEvent::Status(ConnStatus::Connected { version: "1".to_string() });
    assert_eq!(dump_step(&ev), DumpStep::Print("connected: Home Assistant 1".to_string()));
    let ev = HaEvent::Snapshot(Snapshot {
        states: vec![state("light.a", "on", "A"), state("sensor.b", "1", "B"), state("light.c", "on", "C")],
        areas: vec![area("a", "A")],
        ..Snapshot::default()
    });
    assert_eq!(
        dump_step(&ev),
        DumpStep::Done(vec![
            "3 entities, 1 areas, 0 devices, 0 registry entries".to_string(),
            format!("  {:<24} {}", "light", 2),
            format!("  {:<24} {}", "sensor", 1),
        ])
    );
    let ev = HaEvent::Status(ConnStatus::AuthFailed("m".to_string()));
    assert_eq!(dump_step(&ev), DumpStep::Fail("authentication failed: m".to_string()));
    let ev = HaEvent::Status(ConnStatus::Disconnected { error: "e".to_string(), retry_in: 1 });
    assert_eq!(dump_step(&ev), DumpStep::Fail("connection failed: e".to_string()));
    assert_eq!(dump_step(&HaEvent::Status(ConnStatus::Connecting)), DumpStep::Ignore);
}
