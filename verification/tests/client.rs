//! The client: sessions, requests and reconnecting.

use homeassistant_tui::ha::actions::{level_of, Level, Operand};
use homeassistant_tui::ha::client::{
    fail, reject, ConnStatus, HaCommand, HaEvent, Pending, Registry, RegistryUpdate, Requests, SessionEnd, Timeouts, BACKOFF_MAX,
    BACKOFF_MIN, REGISTRY_DEBOUNCE,
};
use homeassistant_tui::ha::reconnect::{
    auth_message, on_auth_message, on_idle_command, on_trouble, AuthStep, Idle, IdleStep, Next, Reconnect, Trouble,
};
use homeassistant_tui::ha::session::{history_body, logbook_body, messages, parse_list, parse_registry_event, parse_state_changed, Decoded, Part, Session, Step};
use homeassistant_tui::ha::types::{Area, EntityState, ServiceCall, Steps};
use homeassistant_tui::json::{Json, Number};
use homeassistant_tui::strmap::StrMap;
use homeassistant_tui::time::Timestamp;
use serde_json::Value;

/// A JSON value out of its text.
fn json(text: &str) -> Json {
    lift(&serde_json::from_str(text).unwrap())
}

fn lift(v: &Value) -> Json {
    match v {
        Value::Null => Json::Null,
        Value::Bool(b) => Json::Bool(*b),
        Value::Number(n) => Json::Number(number(n)),
        Value::String(s) => Json::Text(s.clone()),
        Value::Array(a) => Json::List(a.iter().map(lift).collect()),
        Value::Object(o) => Json::Object(fields(o)),
    }
}

fn fields(o: &serde_json::Map<String, Value>) -> StrMap<Json> {
    let mut r = StrMap::new();
    for (k, v) in o {
        r.insert(k.clone(), lift(v));
    }
    r
}

fn number(n: &serde_json::Number) -> Number {
    Number { uint: n.as_u64(), text: n.to_string(), micros: (n.as_f64().unwrap() * 1_000_000.0) as i64 }
}

/// An entity as Home Assistant reports it, or `None` where it cannot be read.
fn entity(text: &str) -> Option<EntityState> {
    let v: Value = serde_json::from_str(text).unwrap();
    let when = |k: &str| match v.get(k) {
        None | Some(Value::Null) => Some(None),
        Some(t) => Timestamp::parse(t.as_str()?).map(Some),
    };
    let mut e = EntityState {
        entity_id: v.get("entity_id")?.as_str()?.to_string(),
        state: v.get("state")?.as_str()?.to_string(),
        attributes: match v.get("attributes") {
            None => StrMap::new(),
            Some(a) => fields(a.as_object()?),
        },
        last_changed: when("last_changed")?,
        last_updated: when("last_updated")?,
        steps: Steps { up: None, down: None },
    };
    if let Some(level) = level_of(&e) {
        e.steps = Steps { up: stepped(&level, true), down: stepped(&level, false) };
    }
    Some(e)
}

fn operand(o: &Operand, min: f64, max: f64) -> Option<f64> {
    match o {
        Operand::Given(n) => n.text.parse().ok(),
        Operand::Written(s) => s.parse().ok(),
        Operand::Thousandths(n) => Some(*n as f64 / 1000.0),
        Operand::Middle => Some((min + max) / 2.0),
        Operand::Lowest => Some(f64::MIN),
        Operand::Highest => Some(f64::MAX),
    }
}

fn stepped(l: &Level, up: bool) -> Option<Number> {
    let min = operand(&l.min, 0.0, 0.0)?;
    let max = operand(&l.max, 0.0, 0.0)?;
    let cur = operand(&l.cur, min, max)?;
    let by = operand(&l.by, 0.0, 0.0)?;
    if !(min <= max) {
        return None;
    }
    let v = if up { cur + by } else { cur - by };
    let v = if l.grid {
        if !(by > 0.0 && by.is_finite() && cur.is_finite()) {
            return None;
        }
        (((v / by).round() * by).clamp(min, max) * 1000.0).round() / 1000.0
    } else {
        v.clamp(min, max).round()
    };
    let n = if l.whole { serde_json::Number::from(v as i64) } else { serde_json::Number::from_f64(v)? };
    Some(number(&n))
}

fn event(new_state: Option<&str>) -> String {
    let rest = new_state.map(|s| format!(", \"new_state\": {s}")).unwrap_or_default();
    format!("{{\"type\": \"event\", \"event\": {{\"event_type\": \"state_changed\", \"data\": {{\"entity_id\": \"light.x\"{rest}}}}}}}")
}

/// What becomes of a state change whose new state is `new_state`.
fn changed(new_state: Option<&str>) -> Option<HaEvent> {
    parse_state_changed(&json(&event(new_state)), new_state.and_then(entity))
}

fn some(s: &str) -> Option<String> {
    Some(s.to_string())
}

fn toggle_kitchen() -> HaCommand {
    HaCommand::CallService { call: ServiceCall::new("light", "toggle", "light.kitchen"), label: "toggle kitchen".to_string() }
}

fn date() -> Timestamp {
    Timestamp::parse("2026-09-19T08:00:00+00:00").unwrap()
}

fn history() -> HaCommand {
    HaCommand::History { entity_id: "sensor.t".to_string(), since: date() }
}

fn logbook() -> HaCommand {
    HaCommand::Logbook { since: date(), entity_id: some("lock.front_door") }
}

/// Decode what the session asks for of a message.
fn decode(s: &Session, v: &Value) -> Decoded {
    let list = |v: &Value| match v.get("result") {
        Some(Value::Array(a)) => Ok(a.clone()),
        _ => Err("invalid type: expected a sequence".to_string()),
    };
    let text = |v: &Value, k: &str| v.get(k).and_then(Value::as_str).map(str::to_string);
    match s.part_of(&lift(v)) {
        Part::Nothing => Decoded::Nothing,
        Part::State => Decoded::State(entity(&v["event"]["data"]["new_state"].to_string())),
        Part::States => Decoded::States(list(v).map(|l| l.iter().map(|i| entity(&i.to_string())).collect())),
        Part::Areas => Decoded::Areas(
            list(v).map(|l| l.iter().map(|i| Some(Area { area_id: text(i, "area_id")?, name: text(i, "name")? })).collect()),
        ),
        Part::Devices => Decoded::Devices(list(v).map(|_| Vec::new())),
        Part::Entities => Decoded::Entities(list(v).map(|_| Vec::new())),
    }
}

fn deliver(s: &mut Session, text: &str, now: u64) -> Step {
    let v: Value = serde_json::from_str(text).unwrap();
    let d = decode(s, &v);
    s.on_message(&lift(&v), d, now)
}

fn answer(s: &mut Session, id: u64, result: &str) -> Step {
    deliver(s, &format!("{{\"id\": {id}, \"type\": \"result\", \"success\": true, \"result\": {result}}}"), 0)
}

fn refuse(s: &mut Session, id: u64, message: &str) -> Step {
    deliver(
        s,
        &format!("{{\"id\": {id}, \"type\": \"result\", \"success\": false, \"error\": {{\"message\": \"{message}\"}}}}"),
        0,
    )
}

/// The id and type of each message that waits to be written.
fn sent(s: &mut Session) -> Vec<(u64, String)> {
    s.take_outbox().iter().map(|b| (b.get("id").unwrap().as_u64().unwrap(), b.text_at("type").unwrap().to_string())).collect()
}

/// A session whose snapshot is in.
fn ready() -> Session {
    let mut s = Session::start(0);
    s.take_outbox();
    for id in 1..=8 {
        answer(&mut s, id, "[]");
    }
    s
}

#[test]
fn state_changed_null_is_removal_and_malformed_is_dropped() {
    let removed = changed(Some("null"));
    assert!(matches!(removed, Some(HaEvent::StateChanged { new_state: None, .. })));
    let updated = changed(Some(r#"{"entity_id": "light.x", "state": "on"}"#));
    assert!(matches!(updated, Some(HaEvent::StateChanged { new_state: Some(_), .. })));
    assert_eq!(changed(Some(r#"{"state": 5}"#)), None);
    assert_eq!(changed(Some(r#""garbage""#)), None);
    assert_eq!(changed(None), None);
}

#[test]
fn registry_events_are_recognised() {
    let ev = |t: &str| json(&format!("{{\"type\": \"event\", \"event\": {{\"event_type\": \"{t}\", \"data\": {{}}}}}}"));
    assert_eq!(parse_registry_event(&ev("area_registry_updated")), Some(Registry::Areas));
    assert_eq!(parse_registry_event(&ev("device_registry_updated")), Some(Registry::Devices));
    assert_eq!(parse_registry_event(&ev("entity_registry_updated")), Some(Registry::Entities));
    assert_eq!(parse_registry_event(&ev("state_changed")), None);
    assert_eq!(parse_registry_event(&json(r#"{"type": "event"}"#)), None);
}

#[test]
fn expired_requests_are_removed() {
    let mut req = Requests::default();
    req.send(StrMap::new(), Pending::Logbook(None), 0);
    assert!(req.expired(60_000, 0).is_empty());
    assert_eq!(req.expired(0, 0).len(), 1);
    assert!(req.pending.is_empty());
}

#[test]
fn requests_are_numbered_and_answered_once() {
    let mut req = Requests::default();
    assert_eq!(req.send(StrMap::new(), Pending::States, 5), 1);
    assert_eq!(req.send_untracked(StrMap::new()), 2);
    assert_eq!(req.send(StrMap::new(), Pending::History("x".to_string()), 9), 3);
    assert_eq!(req.outbox.iter().map(|b| b.to_text()).collect::<Vec<_>>(), vec![r#"{"id":1}"#, r#"{"id":2}"#, r#"{"id":3}"#]);
    assert_eq!(req.find(2), None);
    assert_eq!(req.find(3), Some(&Pending::History("x".to_string())));
    assert_eq!(req.answered(1), Some(Pending::States));
    assert_eq!(req.answered(1), None);
    assert_eq!(req.expired(10, 18), vec![]);
    assert_eq!(req.expired(10, 19), vec![Pending::History("x".to_string())]);
}

#[test]
fn lists_leave_out_what_cannot_be_read() {
    assert_eq!(parse_list(Ok(vec![Some(some("a")), None, Some(some("b"))])), Ok(vec![some("a"), some("b")]));
    assert_eq!(parse_list::<Option<String>>(Err("no list".to_string())), Err("no list".to_string()));
}

#[test]
fn coalesced_messages_are_taken_apart() {
    assert_eq!(messages(json("[1, 2]")), vec![json("1"), json("2")]);
    assert_eq!(messages(json("{}")), vec![json("{}")]);
}

#[test]
fn bootstrap_delivers_snapshot() {
    let mut s = Session::start(0);
    let types: Vec<String> = sent(&mut s).into_iter().map(|(_, t)| t).collect();
    assert_eq!(
        types,
        vec![
            "subscribe_events",
            "subscribe_events",
            "subscribe_events",
            "subscribe_events",
            "config/area_registry/list",
            "config/device_registry/list",
            "config/entity_registry/list",
            "get_states",
        ]
    );
    assert!(answer(&mut s, 1, "null").events.is_empty());
    assert!(answer(&mut s, 5, r#"[{"area_id": "a", "name": "A"}, {"odd": 1}]"#).events.is_empty());
    assert!(answer(&mut s, 6, "[]").events.is_empty());
    assert!(answer(&mut s, 7, "[]").events.is_empty());
    // A change that comes before the states is told after the snapshot.
    let step = deliver(&mut s, &event(Some(r#"{"entity_id": "light.x", "state": "on"}"#)), 0);
    assert!(step.events.is_empty() && step.end.is_none());
    let step = answer(&mut s, 8, r#"[{"entity_id": "light.x", "state": "off"}, 5]"#);
    assert!(step.end.is_none());
    assert_eq!(step.events.len(), 2);
    match &step.events[0] {
        HaEvent::Snapshot(snap) => {
            assert_eq!(snap.states.len(), 1);
            assert_eq!(snap.areas, vec![Area { area_id: "a".to_string(), name: "A".to_string() }]);
        }
        other => panic!("unexpected {other:?}"),
    }
    assert!(matches!(&step.events[1], HaEvent::StateChanged { new_state: Some(e), .. } if e.state == "on"));
}

#[test]
fn changes_follow_the_snapshot_in_order() {
    let mut s = Session::start(0);
    let change = |state: &str| event(Some(&format!("{{\"entity_id\": \"light.x\", \"state\": \"{state}\"}}")));
    for id in [5, 6, 7] {
        answer(&mut s, id, "[]");
        assert!(deliver(&mut s, &change(&format!("{id}")), 0).events.is_empty());
    }
    let told = answer(&mut s, 8, "[]").events;
    assert!(matches!(&told[0], HaEvent::Snapshot(_)));
    let states: Vec<String> = told[1..]
        .iter()
        .map(|e| match e {
            HaEvent::StateChanged { new_state: Some(e), .. } => e.state.clone(),
            other => panic!("unexpected {other:?}"),
        })
        .collect();
    assert_eq!(states, vec!["5", "6", "7"]);
    let later = deliver(&mut s, &change("8"), 0).events;
    assert_eq!(later.len(), 1);
    assert!(matches!(&later[0], HaEvent::StateChanged { new_state: Some(e), .. } if e.state == "8"));
}

#[test]
fn a_session_tells_one_snapshot() {
    let mut s = Session::start(0);
    let mut told = 0;
    for round in 0..3 {
        for id in 1..=8 {
            let step = answer(&mut s, id, "[]");
            told += step.events.iter().filter(|e| matches!(e, HaEvent::Snapshot(_))).count();
            assert_eq!(told, if round == 0 && id < 8 { 0 } else { 1 });
        }
    }
}

#[test]
fn bootstrap_failures_end_the_session() {
    let mut s = Session::start(0);
    assert_eq!(refuse(&mut s, 1, "no").end, Some(SessionEnd::Error("subscribe failed: no".to_string())));
    let mut s = Session::start(0);
    assert_eq!(refuse(&mut s, 8, "no").end, Some(SessionEnd::Error("bootstrap failed: no".to_string())));
    let mut s = Session::start(0);
    let end = answer(&mut s, 5, "7").end;
    assert_eq!(end, Some(SessionEnd::Error("bootstrap parse: invalid type: expected a sequence".to_string())));
    // A refused registry subscription only means no live updates.
    let mut s = Session::start(0);
    assert_eq!(refuse(&mut s, 2, "no").end, None);
}

#[test]
fn registry_changes_are_refetched_and_coalesced() {
    let mut s = ready();
    let ev = |t: &str| format!("{{\"type\": \"event\", \"event\": {{\"event_type\": \"{t}\", \"data\": {{}}}}}}");
    for now in 100..105 {
        deliver(&mut s, &ev("entity_registry_updated"), now);
    }
    deliver(&mut s, &ev("area_registry_updated"), 110);
    assert_eq!(s.refresh_due(), Some(100 + REGISTRY_DEBOUNCE));
    // Not before it is due.
    s.on_refresh(399);
    assert!(s.take_outbox().is_empty());
    assert_eq!(s.refresh_due(), Some(100 + REGISTRY_DEBOUNCE));
    s.on_refresh(400);
    let asked = sent(&mut s);
    assert_eq!(
        asked.iter().map(|(_, t)| t.as_str()).collect::<Vec<_>>(),
        vec!["config/entity_registry/list", "config/area_registry/list"]
    );
    assert_eq!(s.refresh_due(), None);
    let step = answer(&mut s, asked[1].0, r#"[{"area_id": "bedroom", "name": "Master Bedroom"}]"#);
    assert_eq!(
        step.events,
        vec![HaEvent::Registry(RegistryUpdate::Areas(vec![Area {
            area_id: "bedroom".to_string(),
            name: "Master Bedroom".to_string(),
        }]))]
    );
    // A refused refetch keeps what is there.
    let step = refuse(&mut s, asked[0].0, "no");
    assert!(step.events.is_empty() && step.end.is_none());
}

#[test]
fn registry_refetch_waits_for_the_snapshot() {
    let mut s = Session::start(0);
    let ev = r#"{"type": "event", "event": {"event_type": "entity_registry_updated", "data": {}}}"#;
    deliver(&mut s, ev, 0);
    assert_eq!(s.refresh_due(), None);
    for id in 1..=8 {
        answer(&mut s, id, "[]");
    }
    assert_eq!(s.refresh_due(), Some(REGISTRY_DEBOUNCE));
}

#[test]
fn service_call_round_trip() {
    let mut s = ready();
    let step = s.on_command(Some(toggle_kitchen()), 0, &date());
    assert!(step.events.is_empty() && step.end.is_none());
    let out = s.take_outbox();
    assert_eq!(
        out[0].to_text(),
        r#"{"domain":"light","id":9,"service":"toggle","service_data":{},"target":{"entity_id":"light.kitchen"},"type":"call_service"}"#
    );
    let step = answer(&mut s, 9, "null");
    assert_eq!(step.events, vec![HaEvent::ServiceResult { label: "toggle kitchen".to_string(), result: Ok(()) }]);
    s.on_command(Some(toggle_kitchen()), 0, &date());
    let step = refuse(&mut s, 10, "Service not found");
    assert_eq!(
        step.events,
        vec![HaEvent::ServiceResult { label: "toggle kitchen".to_string(), result: Err("Service not found".to_string()) }]
    );
    // Answered already: nothing more is told.
    assert!(answer(&mut s, 10, "null").events.is_empty());
}

#[test]
fn service_calls_wait_for_the_snapshot() {
    let mut s = Session::start(0);
    s.take_outbox();
    let step = s.on_command(Some(toggle_kitchen()), 0, &date());
    assert_eq!(
        step.events,
        vec![HaEvent::ServiceResult {
            label: "toggle kitchen".to_string(),
            result: Err("still loading from Home Assistant".to_string()),
        }]
    );
    assert!(s.take_outbox().is_empty());
    // Questions are asked all the same.
    s.on_command(Some(history()), 0, &date());
    assert_eq!(sent(&mut s), vec![(9, "history/history_during_period".to_string())]);
}

#[test]
fn external_changes_are_pushed() {
    let mut s = ready();
    let step = deliver(&mut s, &event(Some(r#"{"entity_id": "light.x", "state": "on"}"#)), 0);
    match &step.events[..] {
        [HaEvent::StateChanged { entity_id, new_state: Some(e) }] => {
            assert_eq!(entity_id, "light.x");
            assert_eq!(e.state, "on");
        }
        other => panic!("unexpected {other:?}"),
    }
}

#[test]
fn history_and_logbook() {
    let mut s = ready();
    s.on_command(Some(history()), 0, &date());
    assert_eq!(
        s.take_outbox()[0].to_text(),
        r#"{"entity_ids":["sensor.t"],"id":9,"include_start_time_state":true,"minimal_response":true,"no_attributes":true,"significant_changes_only":false,"start_time":"2026-09-19T08:00:00+00:00","type":"history/history_during_period"}"#
    );
    let step = answer(&mut s, 9, r#"{"sensor.t": [{"s": "1", "lu": 10}, {"odd": 1}, {"s": "2", "lu": 20}]}"#);
    match &step.events[..] {
        [HaEvent::History { entity_id, points }] => {
            assert_eq!(entity_id, "sensor.t");
            assert_eq!(points.iter().map(|p| p.state.as_str()).collect::<Vec<_>>(), vec!["1", "2"]);
        }
        other => panic!("unexpected {other:?}"),
    }
    s.on_command(Some(history()), 0, &date());
    assert_eq!(
        refuse(&mut s, 10, "no").events,
        vec![HaEvent::HistoryFailed { entity_id: "sensor.t".to_string(), error: "no".to_string() }]
    );

    s.take_outbox();
    let later = Timestamp::parse("2026-09-19T09:30:00+00:00").unwrap();
    s.on_command(Some(logbook()), 0, &later);
    assert_eq!(
        s.take_outbox()[0].to_text(),
        r#"{"end_time":"2026-09-19T09:30:00+00:00","entity_ids":["lock.front_door"],"id":11,"start_time":"2026-09-19T08:00:00+00:00","type":"logbook/get_events"}"#
    );
    let step = answer(&mut s, 11, r#"[{"when": 1, "entity_id": "lock.front_door", "state": "locked"}, {}]"#);
    match &step.events[..] {
        [HaEvent::Logbook { entity_id, result: Ok(entries) }] => {
            assert_eq!(entity_id.as_deref(), Some("lock.front_door"));
            assert_eq!(entries.len(), 1);
        }
        other => panic!("unexpected {other:?}"),
    }
    s.on_command(Some(HaCommand::Logbook { since: date(), entity_id: None }), 0, &date());
    let step = deliver(&mut s, r#"{"id": 12, "type": "result", "success": false}"#, 0);
    assert_eq!(step.events, vec![HaEvent::Logbook { entity_id: None, result: Err("request failed".to_string()) }]);
}

#[test]
fn reconnects_after_drop() {
    let mut r = Reconnect::new();
    let lost = || on_trouble(Trouble::Lost);
    let wait = |error: &str, retry_in: u64| Next::Wait {
        event: HaEvent::Status(ConnStatus::Disconnected { error: error.to_string(), retry_in }),
        delay: retry_in,
    };
    assert_eq!(r.after(lost(), true), wait("connection lost", BACKOFF_MIN));
    for delay in [2_000, 4_000, 8_000, 16_000, BACKOFF_MAX, BACKOFF_MAX] {
        assert_eq!(r.after(lost(), false), wait("connection lost", delay));
    }
    assert_eq!(r.after(lost(), true), wait("connection lost", BACKOFF_MIN));
    assert_eq!(r.after(SessionEnd::Resync, true), Next::Retry);
    assert_eq!(r.after(lost(), false), wait("connection lost", BACKOFF_MIN));
    assert_eq!(r.after(SessionEnd::Shutdown, true), Next::Stop);
}

#[test]
fn bad_token_stops_and_rejects_commands() {
    let step = on_auth_message(&json(r#"{"type": "auth_invalid", "message": "Invalid access token"}"#));
    let end = match step {
        AuthStep::Refused(end) => end,
        other => panic!("unexpected {other:?}"),
    };
    let next = Reconnect::new().after(end, false);
    assert_eq!(next, Next::Refuse(HaEvent::Status(ConnStatus::AuthFailed("Invalid access token".to_string()))));
    assert_eq!(
        on_idle_command(Idle::Refused, Some(toggle_kitchen())),
        IdleStep::Answer(Some(HaEvent::ServiceResult {
            label: "toggle kitchen".to_string(),
            result: Err("authentication failed".to_string()),
        }))
    );
    assert_eq!(on_idle_command(Idle::Refused, Some(HaCommand::Resync)), IdleStep::Answer(None));
    assert_eq!(on_idle_command(Idle::Refused, None), IdleStep::Stop);
}

#[test]
fn commands_during_handshake_are_rejected_not_replayed() {
    for idle in [Idle::Connecting, Idle::Waiting] {
        assert_eq!(
            on_idle_command(idle, Some(toggle_kitchen())),
            IdleStep::Answer(Some(HaEvent::ServiceResult {
                label: "toggle kitchen".to_string(),
                result: Err("not connected".to_string()),
            }))
        );
        assert_eq!(on_idle_command(idle, None), IdleStep::Stop);
    }
    assert_eq!(on_idle_command(Idle::Connecting, Some(HaCommand::Resync)), IdleStep::Answer(None));
    assert_eq!(on_idle_command(Idle::Waiting, Some(HaCommand::Resync)), IdleStep::Retry);
}

#[test]
fn in_flight_requests_fail_when_connection_drops() {
    let mut s = ready();
    s.on_command(Some(toggle_kitchen()), 0, &date());
    s.on_command(Some(history()), 0, &date());
    s.on_command(Some(logbook()), 0, &date());
    let events = s.finish(&on_trouble(Trouble::Lost));
    assert_eq!(
        events,
        vec![
            HaEvent::ServiceResult {
                label: "toggle kitchen".to_string(),
                result: Err("connection lost; it may or may not have run".to_string()),
            },
            HaEvent::HistoryFailed { entity_id: "sensor.t".to_string(), error: "connection lost".to_string() },
            HaEvent::Logbook { entity_id: some("lock.front_door"), result: Err("connection lost".to_string()) },
        ]
    );
}

#[test]
fn commands_of_a_run_are_answered_once_and_not_sent_again() {
    let mut first = ready();
    first.take_outbox();
    assert!(first.on_command(Some(toggle_kitchen()), 0, &date()).events.is_empty());
    assert_eq!(first.take_outbox().len(), 1);
    let end = on_trouble(Trouble::Lost);
    let mut told = first.finish(&end);
    assert_eq!(told.len(), 1);
    assert!(matches!(Reconnect::new().after(end, true), Next::Wait { .. }));
    match on_idle_command(Idle::Waiting, Some(toggle_kitchen())) {
        IdleStep::Answer(Some(event)) => told.push(event),
        other => panic!("unexpected {other:?}"),
    }
    let mut second = ready();
    second.take_outbox();
    second.on_command(Some(toggle_kitchen()), 0, &date());
    // Only what was asked on this connection goes out on it.
    assert_eq!(second.take_outbox().len(), 1);
    told.extend(second.finish(&on_trouble(Trouble::Lost)));
    let errors: Vec<String> = told
        .into_iter()
        .map(|e| match e {
            HaEvent::ServiceResult { result: Err(error), .. } => error,
            other => panic!("unexpected {other:?}"),
        })
        .collect();
    assert_eq!(
        errors,
        vec![
            "connection lost; it may or may not have run",
            "not connected",
            "connection lost; it may or may not have run",
        ]
    );
}

#[test]
fn resync_cancels_what_is_in_flight() {
    let mut s = ready();
    s.on_command(Some(history()), 0, &date());
    let step = s.on_command(Some(HaCommand::Resync), 0, &date());
    assert_eq!(step.end, Some(SessionEnd::Resync));
    assert_eq!(
        s.finish(&SessionEnd::Resync),
        vec![HaEvent::HistoryFailed { entity_id: "sensor.t".to_string(), error: "cancelled by resync".to_string() }]
    );
    assert_eq!(ready().on_command(None, 0, &date()).end, Some(SessionEnd::Shutdown));
}

#[test]
fn unanswered_request_times_out() {
    let mut s = ready();
    s.on_command(Some(logbook()), 1_000, &date());
    assert!(s.on_sweep(500, 1_499).events.is_empty());
    let step = s.on_sweep(500, 1_500);
    assert_eq!(step.end, None);
    assert_eq!(
        step.events,
        vec![HaEvent::Logbook { entity_id: some("lock.front_door"), result: Err("no reply from Home Assistant".to_string()) }]
    );
    // The connection itself is still fine.
    s.on_command(Some(toggle_kitchen()), 2_000, &date());
    assert_eq!(
        answer(&mut s, 10, "null").events,
        vec![HaEvent::ServiceResult { label: "toggle kitchen".to_string(), result: Ok(()) }]
    );
}

#[test]
fn a_slow_bootstrap_ends_the_session_and_settles_every_command() {
    let mut s = Session::start(0);
    s.on_command(Some(history()), 0, &date());
    s.on_command(Some(logbook()), 900, &date());
    let step = s.on_sweep(1_000, 1_000);
    assert_eq!(step.end, Some(SessionEnd::Error("timed out loading from Home Assistant".to_string())));
    let end = step.end.unwrap();
    let mut told = step.events;
    told.extend(s.finish(&end));
    assert_eq!(
        told,
        vec![
            HaEvent::HistoryFailed { entity_id: "sensor.t".to_string(), error: "no reply from Home Assistant".to_string() },
            HaEvent::Logbook { entity_id: some("lock.front_door"), result: Err("connection lost".to_string()) },
        ]
    );
}

#[test]
fn an_unanswered_ping_ends_the_session() {
    let mut s = ready();
    assert_eq!(s.on_ping().end, None);
    assert_eq!(sent(&mut s), vec![(9, "ping".to_string())]);
    // A pong to another ping does not count.
    deliver(&mut s, r#"{"id": 8, "type": "pong"}"#, 0);
    deliver(&mut s, r#"{"id": 9, "type": "pong"}"#, 0);
    assert_eq!(s.on_ping().end, None);
    deliver(&mut s, r#"{"id": 9, "type": "pong"}"#, 0);
    assert_eq!(s.on_ping().end, Some(SessionEnd::Error("ping timed out".to_string())));
}

#[test]
fn other_messages_are_ignored() {
    let mut s = ready();
    for t in ["{}", "5", "[]", r#"{"type": "other"}"#, r#"{"type": "event"}"#, r#"{"type": "result", "id": "x"}"#, r#"{"type": "result", "id": 99}"#] {
        let step = deliver(&mut s, t, 0);
        assert!(step.events.is_empty() && step.end.is_none());
    }
    assert!(s.take_outbox().is_empty());
}

#[test]
fn authentication_goes_by_the_type_of_the_message() {
    assert_eq!(on_auth_message(&json(r#"{"type": "auth_required"}"#)), AuthStep::SendToken);
    assert_eq!(on_auth_message(&json(r#"{"type": "auth_ok", "ha_version": "2026.9"}"#)), AuthStep::Accepted("2026.9".to_string()));
    assert_eq!(on_auth_message(&json(r#"{"type": "auth_ok"}"#)), AuthStep::Accepted("?".to_string()));
    assert_eq!(
        on_auth_message(&json(r#"{"type": "auth_invalid"}"#)),
        AuthStep::Refused(SessionEnd::AuthFailed("invalid token".to_string()))
    );
    assert_eq!(on_auth_message(&json("5")), AuthStep::Ignored);
    assert_eq!(auth_message("t\"k").to_text(), r#"{"access_token":"t\"k","type":"auth"}"#);
}

#[test]
fn troubles_are_told_in_words() {
    let t = |s: &str| s.to_string();
    let cases = [
        (Trouble::Connect(t("e")), "connect: e"),
        (Trouble::ConnectTimeout, "timed out connecting"),
        (Trouble::ClosedInAuth, "closed during auth"),
        (Trouble::BadAuthMessage(t("e")), "bad auth message: e"),
        (Trouble::Socket(t("e")), "e"),
        (Trouble::WriteTimeout, "timed out writing to Home Assistant"),
        (Trouble::Closed(Some(t("bye "))), "server closed connection bye"),
        (Trouble::Closed(None), "server closed connection"),
        (Trouble::Lost, "connection lost"),
    ];
    for (trouble, expected) in cases {
        assert_eq!(on_trouble(trouble), SessionEnd::Error(expected.to_string()));
    }
}

#[test]
fn rejections_and_failures_answer_the_command() {
    assert_eq!(reject(HaCommand::Resync, "w"), None);
    assert_eq!(reject(history(), "w"), Some(HaEvent::HistoryFailed { entity_id: "sensor.t".to_string(), error: "w".to_string() }));
    assert_eq!(reject(logbook(), "w"), Some(HaEvent::Logbook { entity_id: some("lock.front_door"), result: Err("w".to_string()) }));
    assert_eq!(fail(Pending::States, "w"), None);
    assert_eq!(fail(Pending::Refresh(Registry::Areas), "w"), None);
    assert_eq!(
        fail(Pending::Service("l".to_string()), "w"),
        Some(HaEvent::ServiceResult { label: "l".to_string(), result: Err("w; it may or may not have run".to_string()) })
    );
}

#[test]
fn waits_have_their_defaults() {
    let t = Timeouts::default();
    assert_eq!((t.connect, t.request, t.write), (15_000, 30_000, 10_000));
    assert!(Pending::Subscribe.is_bootstrap() && !Pending::SubscribeRegistry.is_bootstrap());
    assert_eq!(Registry::Devices.list_type(), "config/device_registry/list");
    assert_eq!(Registry::Devices.updated_event(), "device_registry_updated");
}

#[test]
fn requests_hold_the_times_as_they_are_written() {
    let body = Json::object(history_body("sensor.t", "then".to_string()));
    assert_eq!(body.text_at("start_time"), Some("then"));
    assert_eq!(body.get("entity_ids"), Some(&json(r#"["sensor.t"]"#)));
    let body = Json::object(logbook_body("a".to_string(), "b".to_string(), &None));
    assert_eq!(body.to_text(), r#"{"end_time":"b","start_time":"a","type":"logbook/get_events"}"#);
}
