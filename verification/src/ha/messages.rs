//! What the messages to Home Assistant say, field by field, and what their replies are taken for.

use super::client::{CommandModel, EndModel, EventModel, PendingModel, Registry, RequestsModel, StatusModel, UpdateModel, WaitingModel};
use super::reconnect::{AuthModel, Idle, IdleModel, NextModel};
use super::session::{DecodedModel, Part, SessionModel};
use super::types::{AreaModel, AttributesModel, CallModel, DeviceModel, EntityModel, LogModel, PointModel, RegistrationModel};
use crate::json::JsonModel;
use crate::time::TimeModel;
use vstd::prelude::*;

verus! {

// ----- Fields --------------------------------------------------------------------------

/// The text in a field of a message.
pub open spec fn says(m: JsonModel, k: Seq<char>) -> Option<Seq<char>> {
    crate::json::text(crate::json::at(m, k))
}

/// Whether the message asks to be told of the events of a type.
pub open spec fn subscribes(m: JsonModel, event: Seq<char>) -> bool {
    says(m, "type"@) == Some("subscribe_events"@) && says(m, "event_type"@) == Some(event)
}

/// The type that an event message gives for its event.
pub open spec fn event_of(v: JsonModel) -> Option<Seq<char>> {
    says(crate::json::at(v, "event"@), "event_type"@)
}

/// The names of the fields differ.
proof fn reveal_fields()
    ensures
        "type"@.len() == 4,
        "event_type"@.len() == 10 && "event_type"@[0] == 'e' && "event_type"@[1] == 'v',
        "id"@.len() == 2,
        "domain"@.len() == 6 && "domain"@[0] == 'd',
        "service"@.len() == 7,
        "service_data"@.len() == 12 && "service_data"@[0] == 's',
        "target"@.len() == 6 && "target"@[0] == 't',
        "entity_id"@.len() == 9,
        "start_time"@.len() == 10 && "start_time"@[0] == 's',
        "end_time"@.len() == 8,
        "entity_ids"@.len() == 10 && "entity_ids"@[0] == 'e' && "entity_ids"@[1] == 'n',
        "minimal_response"@.len() == 16,
        "no_attributes"@.len() == 13,
        "include_start_time_state"@.len() == 24 && "include_start_time_state"@[0] == 'i',
        "significant_changes_only"@.len() == 24 && "significant_changes_only"@[0] == 's',
        "access_token"@.len() == 12 && "access_token"@[0] == 'a',
{
    reveal_strlit("type");
    reveal_strlit("event_type");
    reveal_strlit("id");
    reveal_strlit("domain");
    reveal_strlit("service");
    reveal_strlit("service_data");
    reveal_strlit("target");
    reveal_strlit("entity_id");
    reveal_strlit("start_time");
    reveal_strlit("end_time");
    reveal_strlit("entity_ids");
    reveal_strlit("minimal_response");
    reveal_strlit("no_attributes");
    reveal_strlit("include_start_time_state");
    reveal_strlit("significant_changes_only");
    reveal_strlit("access_token");
}

/// A field that is written is read back, and the others stay.
proof fn lemma_field(o: AttributesModel, k: Seq<char>, v: JsonModel)
    requires
        crate::strmap::ascending(o),
    ensures
        crate::strmap::ascending(crate::strmap::put(o, k, v)),
        crate::json::field(JsonModel::Object(crate::strmap::put(o, k, v)), k) == Some(v),
        forall|j: Seq<char>| j != k ==> #[trigger] crate::json::field(JsonModel::Object(crate::strmap::put(o, k, v)), j) == crate::json::field(
            JsonModel::Object(o),
            j,
        ),
{
    crate::strmap::lemma_put(o, k, v);
}

proof fn lemma_ask(kind: Seq<char>)
    ensures
        crate::strmap::ascending(super::client::ask(kind)),
        crate::json::field(JsonModel::Object(super::client::ask(kind)), "type"@) == Some(JsonModel::Text(kind)),
        forall|j: Seq<char>| j != "type"@ ==> #[trigger] crate::json::field(JsonModel::Object(super::client::ask(kind)), j) is None,
{
    lemma_field(Seq::empty(), "type"@, JsonModel::Text(kind));
}

/// A request goes out last, under its number, and its reply is awaited under the same number.
proof fn lemma_asked(r: RequestsModel, body: AttributesModel, kind: PendingModel, now: u64)
    requires
        crate::strmap::ascending(body),
    ensures
        ({
            let t = r.asked(body, kind, now);
            let m = t.outbox.last();
            &&& t.outbox.len() == r.outbox.len() + 1 && t.pending.len() == r.pending.len() + 1
            &&& t.outbox.drop_last() == r.outbox && t.pending.drop_last() == r.pending
            &&& t.pending.last().kind == kind && t.pending.last().sent == now
            &&& t.pending.last().id == r.next_id + 1
            &&& r.next_id < u64::MAX ==> super::client::id_in(m) == Some(t.pending.last().id)
            &&& forall|j: Seq<char>| j != "id"@ ==> #[trigger] crate::json::field(m, j) == crate::json::field(JsonModel::Object(body), j)
        }),
{
    let id = r.next_id + 1;
    let t = r.asked(body, kind, now);
    lemma_field(body, "id"@, JsonModel::Number(crate::json::whole(id as int)));
    assert(t.outbox.drop_last() =~= r.outbox);
    assert(t.pending.drop_last() =~= r.pending);
}

// ----- What a reply is taken for -------------------------------------------------------------

/// Whether the message asks for what its reply will be taken for.
pub open spec fn asks_for(m: JsonModel, kind: PendingModel) -> bool {
    match kind {
        PendingModel::States => says(m, "type"@) == Some("get_states"@),
        PendingModel::Areas | PendingModel::Refresh(Registry::Areas) => says(m, "type"@) == Some("config/area_registry/list"@),
        PendingModel::Devices | PendingModel::Refresh(Registry::Devices) => says(m, "type"@) == Some("config/device_registry/list"@),
        PendingModel::Entities | PendingModel::Refresh(Registry::Entities) => says(m, "type"@) == Some("config/entity_registry/list"@),
        PendingModel::Subscribe => subscribes(m, "state_changed"@),
        PendingModel::SubscribeRegistry => {
            ||| subscribes(m, "area_registry_updated"@)
            ||| subscribes(m, "device_registry_updated"@)
            ||| subscribes(m, "entity_registry_updated"@)
        },
        PendingModel::Service(_) => says(m, "type"@) == Some("call_service"@),
        PendingModel::History(id) => {
            &&& says(m, "type"@) == Some("history/history_during_period"@)
            &&& crate::json::at(m, "entity_ids"@) == JsonModel::List(seq![JsonModel::Text(id)])
        },
        PendingModel::Logbook(id) => {
            &&& says(m, "type"@) == Some("logbook/get_events"@)
            &&& crate::json::field(m, "entity_ids"@) == match id {
                Some(id) => Some(JsonModel::List(seq![JsonModel::Text(id)])),
                None => None,
            }
        },
    }
}

/// Whether the message `m` and the awaited reply `w` belong together.
pub open spec fn belong(m: JsonModel, w: WaitingModel) -> bool {
    super::client::id_in(m) == Some(w.id) && asks_for(m, w.kind)
}

proof fn lemma_subscription(event: Seq<char>)
    ensures
        crate::strmap::ascending(super::session::subscription(event)),
        crate::json::field(JsonModel::Object(super::session::subscription(event)), "type"@) == Some(JsonModel::Text("subscribe_events"@)),
        crate::json::field(JsonModel::Object(super::session::subscription(event)), "event_type"@) == Some(JsonModel::Text(event)),
{
    reveal_fields();
    lemma_ask("subscribe_events"@);
    lemma_field(super::client::ask("subscribe_events"@), "event_type"@, JsonModel::Text(event));
}

/// A new session writes eight messages, numbered from one. Each asks for what its reply is taken for:
/// changes of state, changes to the three registries, the three registries and the states. The changes
/// of state are asked for before the states.
pub proof fn law_opening(now: u64)
    ensures
        ({
            let r = super::session::started(now).req;
            &&& r.outbox.len() == 8 && r.pending.len() == 8
            &&& forall|i: int| 0 <= i < 8 ==> #[trigger] r.pending[i].id == i + 1 && r.pending[i].sent == now && belong(r.outbox[i], r.pending[i])
            &&& subscribes(r.outbox[0], "state_changed"@) && r.pending[0].kind is Subscribe
            &&& subscribes(r.outbox[1], "area_registry_updated"@) && r.pending[1].kind is SubscribeRegistry
            &&& subscribes(r.outbox[2], "device_registry_updated"@) && r.pending[2].kind is SubscribeRegistry
            &&& subscribes(r.outbox[3], "entity_registry_updated"@) && r.pending[3].kind is SubscribeRegistry
            &&& says(r.outbox[4], "type"@) == Some("config/area_registry/list"@) && r.pending[4].kind is Areas
            &&& says(r.outbox[5], "type"@) == Some("config/device_registry/list"@) && r.pending[5].kind is Devices
            &&& says(r.outbox[6], "type"@) == Some("config/entity_registry/list"@) && r.pending[6].kind is Entities
            &&& says(r.outbox[7], "type"@) == Some("get_states"@) && r.pending[7].kind is States
        }),
{
    reveal_fields();
    let r0 = RequestsModel { next_id: 0, pending: Seq::empty(), outbox: Seq::empty() };
    let a = super::session::subscription("state_changed"@);
    let b = super::session::subscription("area_registry_updated"@);
    let c = super::session::subscription("device_registry_updated"@);
    let d = super::session::subscription("entity_registry_updated"@);
    let e = super::client::ask("config/area_registry/list"@);
    let f = super::client::ask("config/device_registry/list"@);
    let g = super::client::ask("config/entity_registry/list"@);
    let h = super::client::ask("get_states"@);
    lemma_subscription("state_changed"@);
    lemma_subscription("area_registry_updated"@);
    lemma_subscription("device_registry_updated"@);
    lemma_subscription("entity_registry_updated"@);
    lemma_ask("config/area_registry/list"@);
    lemma_ask("config/device_registry/list"@);
    lemma_ask("config/entity_registry/list"@);
    lemma_ask("get_states"@);
    let r1 = r0.asked(a, PendingModel::Subscribe, now);
    let r2 = r1.asked(b, PendingModel::SubscribeRegistry, now);
    let r3 = r2.asked(c, PendingModel::SubscribeRegistry, now);
    let r4 = r3.asked(d, PendingModel::SubscribeRegistry, now);
    let r5 = r4.asked(e, PendingModel::Areas, now);
    let r6 = r5.asked(f, PendingModel::Devices, now);
    let r7 = r6.asked(g, PendingModel::Entities, now);
    let r8 = r7.asked(h, PendingModel::States, now);
    lemma_asked(r0, a, PendingModel::Subscribe, now);
    lemma_asked(r1, b, PendingModel::SubscribeRegistry, now);
    lemma_asked(r2, c, PendingModel::SubscribeRegistry, now);
    lemma_asked(r3, d, PendingModel::SubscribeRegistry, now);
    lemma_asked(r4, e, PendingModel::Areas, now);
    lemma_asked(r5, f, PendingModel::Devices, now);
    lemma_asked(r6, g, PendingModel::Entities, now);
    lemma_asked(r7, h, PendingModel::States, now);
    assert(super::session::started(now).req == r8);
    assert(belong(r1.outbox[0], r1.pending[0]));
    assert(belong(r2.outbox[1], r2.pending[1]));
    assert(belong(r3.outbox[2], r3.pending[2]));
    assert(belong(r4.outbox[3], r4.pending[3]));
    assert(belong(r5.outbox[4], r5.pending[4]));
    assert(belong(r6.outbox[5], r6.pending[5]));
    assert(belong(r7.outbox[6], r7.pending[6]));
    assert(belong(r8.outbox[7], r8.pending[7]));
}

/// Whatever event a session acts on, a new session asked to be told of: the events that tell of changes
/// of state and those that tell of changes to a registry.
pub proof fn law_acted_on_is_subscribed(now: u64, v: JsonModel, decoded: Option<EntityModel>)
    requires
        super::session::state_change(v, decoded) is Some || super::session::registry_change(v) is Some,
    ensures
        event_of(v) is Some,
        exists|i: int| 0 <= i < super::session::started(now).req.outbox.len() && subscribes(
            #[trigger] super::session::started(now).req.outbox[i],
            event_of(v)->0,
        ),
{
    law_opening(now);
    let o = super::session::started(now).req.outbox;
    assert(subscribes(o[0], "state_changed"@));
    assert(subscribes(o[1], "area_registry_updated"@));
    assert(subscribes(o[2], "device_registry_updated"@));
    assert(subscribes(o[3], "entity_registry_updated"@));
}

// ----- Commands ----------------------------------------------------------------------------

/// What is written for a command, where something is: the last message of the session after it.
pub open spec fn written_for(s: SessionModel, cmd: CommandModel, now: u64, date: TimeModel) -> JsonModel {
    super::session::on_command(s, Some(cmd), now, date).session.req.outbox.last()
}

/// Whether exactly one message went out and its reply is awaited, and nothing else came of it.
pub open spec fn one_request(s: SessionModel, t: super::session::StepModel, now: u64) -> bool {
    &&& t.events.len() == 0 && t.end is None
    &&& t.session.req.outbox.len() == s.req.outbox.len() + 1
    &&& t.session.req.outbox.drop_last() == s.req.outbox
    &&& t.session.req.pending.len() == s.req.pending.len() + 1
    &&& t.session.req.pending.drop_last() == s.req.pending
    &&& t.session.req.pending.last().sent == now
    &&& t.session.req.pending.last().id == s.req.next_id + 1
    &&& s.req.next_id < u64::MAX ==> belong(t.session.req.outbox.last(), t.session.req.pending.last())
    &&& t.session == (SessionModel { req: t.session.req, ..s })
}

/// A service call goes out, once the snapshot is in, as a `call_service` with the domain, service and
/// target of the call and with exactly its data.
pub proof fn law_service_calls_go_out(s: SessionModel, call: CallModel, label: Seq<char>, now: u64, date: TimeModel)
    requires
        s.left == 0,
    ensures
        ({
            let cmd = CommandModel::CallService { call, label };
            let m = written_for(s, cmd, now, date);
            let t = super::session::on_command(s, Some(cmd), now, date);
            &&& one_request(s, t, now)
            &&& t.session.req.pending.last().kind == PendingModel::Service(label)
            &&& says(m, "type"@) == Some("call_service"@)
            &&& says(m, "domain"@) == Some(call.domain)
            &&& says(m, "service"@) == Some(call.service)
            &&& says(crate::json::at(m, "target"@), "entity_id"@) == call.entity_id
            &&& crate::json::field(m, "target"@) is Some <==> call.entity_id is Some
            &&& crate::json::field(m, "service_data"@) == Some(JsonModel::Object(call.data))
            &&& forall|k: Seq<char>| #[trigger] crate::json::field(crate::json::at(m, "service_data"@), k) == crate::strmap::lookup(call.data, k)
        }),
{
    reveal_fields();
    let a = super::client::ask("call_service"@);
    let b = crate::strmap::put(a, "domain"@, JsonModel::Text(call.domain));
    let c = crate::strmap::put(b, "service"@, JsonModel::Text(call.service));
    let d = crate::strmap::put(c, "service_data"@, JsonModel::Object(call.data));
    lemma_ask("call_service"@);
    lemma_field(a, "domain"@, JsonModel::Text(call.domain));
    lemma_field(b, "service"@, JsonModel::Text(call.service));
    lemma_field(c, "service_data"@, JsonModel::Object(call.data));
    if let Some(id) = call.entity_id {
        let target = seq![("entity_id"@, JsonModel::Text(id))];
        crate::strmap::lemma_found(target, 0);
        lemma_field(d, "target"@, JsonModel::Object(target));
    }
    lemma_asked(s.req, super::session::service_request(call), PendingModel::Service(label), now);
    let t = super::session::on_command(s, Some(CommandModel::CallService { call, label }), now, date);
    assert("type"@ != "domain"@ && "type"@ != "service"@);
    assert("domain"@ != "target"@) by {
        assert("domain"@[0] != "target"@[0]);
    }
}

/// A history is asked for of the entity, from the time on up to the present, with every state that it
/// had and without its attributes.
pub proof fn law_histories_are_asked_for(s: SessionModel, id: Seq<char>, since: TimeModel, now: u64, date: TimeModel)
    ensures
        ({
            let cmd = CommandModel::History { entity_id: id, since };
            let m = written_for(s, cmd, now, date);
            let t = super::session::on_command(s, Some(cmd), now, date);
            &&& one_request(s, t, now)
            &&& t.session.req.pending.last().kind == PendingModel::History(id)
            &&& says(m, "type"@) == Some("history/history_during_period"@)
            &&& says(m, "start_time"@) == Some(crate::time::rfc3339_text(since))
            &&& crate::json::field(m, "end_time"@) is None
            &&& crate::json::at(m, "entity_ids"@) == JsonModel::List(seq![JsonModel::Text(id)])
            &&& crate::json::truth(crate::json::at(m, "minimal_response"@)) == Some(true)
            &&& crate::json::truth(crate::json::at(m, "no_attributes"@)) == Some(true)
            &&& crate::json::truth(crate::json::at(m, "include_start_time_state"@)) == Some(true)
            &&& crate::json::truth(crate::json::at(m, "significant_changes_only"@)) == Some(false)
        }),
{
    reveal_fields();
    let from = JsonModel::Text(crate::time::rfc3339_text(since));
    let ids = JsonModel::List(seq![JsonModel::Text(id)]);
    let kind = "history/history_during_period"@;
    let a = super::client::ask(kind);
    let b = crate::strmap::put(a, "start_time"@, from);
    let c = crate::strmap::put(b, "entity_ids"@, ids);
    let d = crate::strmap::put(c, "minimal_response"@, JsonModel::Bool(true));
    let e = crate::strmap::put(d, "no_attributes"@, JsonModel::Bool(true));
    let f = crate::strmap::put(e, "include_start_time_state"@, JsonModel::Bool(true));
    lemma_ask(kind);
    lemma_field(a, "start_time"@, from);
    lemma_field(b, "entity_ids"@, ids);
    lemma_field(c, "minimal_response"@, JsonModel::Bool(true));
    lemma_field(d, "no_attributes"@, JsonModel::Bool(true));
    lemma_field(e, "include_start_time_state"@, JsonModel::Bool(true));
    lemma_field(f, "significant_changes_only"@, JsonModel::Bool(false));
    assert("start_time"@ != "entity_ids"@) by {
        assert("start_time"@[0] != "entity_ids"@[0]);
    }
    assert("include_start_time_state"@ != "significant_changes_only"@) by {
        assert("include_start_time_state"@[0] != "significant_changes_only"@[0]);
    }
    lemma_asked(s.req, super::session::history_request(id, crate::time::rfc3339_text(since)), PendingModel::History(id), now);
}

/// The logbook is asked for from the time on up to the present, of the entity if one is given.
pub proof fn law_logbooks_are_asked_for(s: SessionModel, since: TimeModel, id: Option<Seq<char>>, now: u64, date: TimeModel)
    ensures
        ({
            let cmd = CommandModel::Logbook { since, entity_id: id };
            let m = written_for(s, cmd, now, date);
            let t = super::session::on_command(s, Some(cmd), now, date);
            &&& one_request(s, t, now)
            &&& t.session.req.pending.last().kind == PendingModel::Logbook(id)
            &&& says(m, "type"@) == Some("logbook/get_events"@)
            &&& says(m, "start_time"@) == Some(crate::time::rfc3339_text(since))
            &&& says(m, "end_time"@) == Some(crate::time::rfc3339_text(date))
            &&& crate::json::field(m, "entity_ids"@) == match id {
                Some(id) => Some(JsonModel::List(seq![JsonModel::Text(id)])),
                None => None,
            }
        }),
{
    reveal_fields();
    let from = JsonModel::Text(crate::time::rfc3339_text(since));
    let to = JsonModel::Text(crate::time::rfc3339_text(date));
    let a = super::client::ask("logbook/get_events"@);
    let b = crate::strmap::put(a, "start_time"@, from);
    let c = crate::strmap::put(b, "end_time"@, to);
    lemma_ask("logbook/get_events"@);
    lemma_field(a, "start_time"@, from);
    lemma_field(b, "end_time"@, to);
    if let Some(id) = id {
        lemma_field(c, "entity_ids"@, JsonModel::List(seq![JsonModel::Text(id)]));
    }
    assert("start_time"@ != "entity_ids"@) by {
        assert("start_time"@[0] != "entity_ids"@[0]);
    }
    lemma_asked(
        s.req,
        super::session::logbook_request(crate::time::rfc3339_text(since), crate::time::rfc3339_text(date), id),
        PendingModel::Logbook(id),
        now,
    );
}

// ----- Events --------------------------------------------------------------------------------

/// A change of state is read from a `state_changed` event with an entity: a null is its removal, anything
/// else the state that it could be read as. What has no new state, or one that could not be read, tells
/// of nothing; no other event does.
pub proof fn law_changes_of_state_are_read(v: JsonModel, decoded: Option<EntityModel>)
    ensures
        ({
            let data = crate::json::at(crate::json::at(v, "event"@), "data"@);
            let id = says(data, "entity_id"@);
            let new = crate::json::field(data, "new_state"@);
            let told = super::session::state_change(v, decoded);
            if event_of(v) == Some("state_changed"@) && id is Some && new is Some {
                &&& new->0 is Null ==> told == Some(EventModel::StateChanged { entity_id: id->0, new_state: None })
                &&& !(new->0 is Null) && decoded is Some ==> told == Some(EventModel::StateChanged { entity_id: id->0, new_state: decoded })
                &&& !(new->0 is Null) && decoded is None ==> told is None
            } else {
                told is None
            }
        }),
{
}

/// Each registry has its own event.
pub proof fn law_changes_to_registries_are_read(v: JsonModel)
    ensures
        super::session::registry_change(v) == Some(Registry::Areas) <==> event_of(v) == Some("area_registry_updated"@),
        super::session::registry_change(v) == Some(Registry::Devices) <==> event_of(v) == Some("device_registry_updated"@),
        super::session::registry_change(v) == Some(Registry::Entities) <==> event_of(v) == Some("entity_registry_updated"@),
{
    reveal_strlit("area_registry_updated");
    reveal_strlit("device_registry_updated");
    reveal_strlit("entity_registry_updated");
    assert("area_registry_updated"@.len() == 21 && "device_registry_updated"@.len() == 23 && "entity_registry_updated"@.len() == 23);
    assert("device_registry_updated"@[0] == 'd' && "entity_registry_updated"@[0] == 'e');
}

// ----- Replies -------------------------------------------------------------------------------

/// Whether the message is the reply to the waiting request `i`.
pub open spec fn replies(s: SessionModel, v: JsonModel, i: int) -> bool {
    &&& 0 <= i < s.req.pending.len()
    &&& says(v, "type"@) == Some("result"@)
    &&& super::client::id_in(v) == Some(s.req.pending[i].id)
}

/// Whether a reply says that what was asked was done.
pub open spec fn succeeded(v: JsonModel) -> bool {
    crate::json::at(v, "success"@) == JsonModel::Bool(true)
}

/// What a reply says went wrong.
pub open spec fn complaint(v: JsonModel) -> Seq<char> {
    match says(crate::json::at(v, "error"@), "message"@) {
        Some(m) => m,
        None => "request failed"@,
    }
}

proof fn lemma_reply(s: SessionModel, v: JsonModel, d: DecodedModel, now: u64, i: int)
    requires
        s.wf(),
        replies(s, v, i),
    ensures
        super::session::on_message(s, v, d, now) == super::session::on_reply(
            SessionModel { req: RequestsModel { pending: s.req.pending.remove(i), ..s.req }, ..s },
            s.req.pending[i].kind,
            v,
            d,
        ),
{
    let p = s.req.pending;
    reveal_strlit("event");
    reveal_strlit("pong");
    reveal_strlit("result");
    assert("event"@.len() == 5 && "pong"@.len() == 4 && "result"@.len() == 6);
    super::session::lemma_waiting_found(p, i);
}

/// A reply to a command is its outcome: what was asked for if it was done, and else what went wrong. A
/// reply is awaited once.
pub proof fn law_replies_are_outcomes(s: SessionModel, v: JsonModel, d: DecodedModel, now: u64, i: int)
    requires
        s.wf(),
        replies(s, v, i),
    ensures
        ({
            let r = super::session::on_message(s, v, d, now);
            let result = crate::json::at(v, "result"@);
            &&& r.session.req.pending == s.req.pending.remove(i)
            &&& r.session.req.outbox == s.req.outbox && r.session.req.next_id == s.req.next_id
            &&& match s.req.pending[i].kind {
                PendingModel::Service(label) => {
                    &&& r.end is None
                    &&& r.events == seq![
                        EventModel::ServiceResult { label, error: if succeeded(v) { None } else { Some(complaint(v)) } },
                    ]
                },
                PendingModel::History(id) => {
                    &&& r.end is None
                    &&& succeeded(v) ==> r.events == seq![
                        EventModel::History { entity_id: id, points: super::session::history(result, id) },
                    ]
                    &&& !succeeded(v) ==> r.events == seq![EventModel::HistoryFailed { entity_id: id, error: complaint(v) }]
                },
                PendingModel::Logbook(id) => {
                    &&& r.end is None
                    &&& r.events == seq![
                        EventModel::Logbook {
                            entity_id: id,
                            result: if succeeded(v) { Ok(super::session::logbook(result)) } else { Err(complaint(v)) },
                        },
                    ]
                },
                // Without changes of state or without a list the session is of no use; without changes to
                // a registry, or with an old list of one, it is.
                PendingModel::Subscribe => {
                    &&& r.events.len() == 0
                    &&& r.end == if succeeded(v) { None } else { Some(EndModel::Error("subscribe failed: "@ + complaint(v))) }
                },
                PendingModel::SubscribeRegistry => r.events.len() == 0 && r.end is None,
                PendingModel::Refresh(_) => r.end is None && (!succeeded(v) ==> r.events.len() == 0),
                _ => !succeeded(v) ==> r.end == Some(EndModel::Error("bootstrap failed: "@ + complaint(v))) && r.events.len() == 0,
            }
        }),
{
    lemma_reply(s, v, d, now, i);
}

/// A call and its reply: what the call was labelled is told of, once, and whether it was done.
pub proof fn law_calls_are_answered(s: SessionModel, call: CallModel, label: Seq<char>, now: u64, date: TimeModel, v: JsonModel, d: DecodedModel, later: u64)
    requires
        s.wf(),
        s.left == 0,
        says(v, "type"@) == Some("result"@),
        super::client::id_in(v) == Some((s.req.next_id + 1) as nat),
    ensures
        ({
            let asked = super::session::on_command(s, Some(CommandModel::CallService { call, label }), now, date);
            let r = super::session::on_message(asked.session, v, d, later);
            &&& r.events == seq![EventModel::ServiceResult { label, error: if succeeded(v) { None } else { Some(complaint(v)) } }]
            &&& r.session.req.pending == s.req.pending
        }),
{
    let cmd = CommandModel::CallService { call, label };
    let t = super::session::on_command(s, Some(cmd), now, date).session;
    law_service_calls_go_out(s, call, label, now, date);
    super::session::lemma_command(s, Some(cmd), now, date);
    let i = s.req.pending.len() as int;
    law_replies_are_outcomes(t, v, d, later, i);
    assert(t.req.pending.remove(i) =~= t.req.pending.drop_last());
}

// ----- Lists that are read --------------------------------------------------------------------

/// The list that was read, where it is one of those.
pub open spec fn states_in(d: DecodedModel) -> Option<Seq<Option<EntityModel>>> {
    match d {
        DecodedModel::States(Ok(l)) => Some(l),
        _ => None,
    }
}

pub open spec fn areas_in(d: DecodedModel) -> Option<Seq<Option<AreaModel>>> {
    match d {
        DecodedModel::Areas(Ok(l)) => Some(l),
        _ => None,
    }
}

pub open spec fn devices_in(d: DecodedModel) -> Option<Seq<Option<DeviceModel>>> {
    match d {
        DecodedModel::Devices(Ok(l)) => Some(l),
        _ => None,
    }
}

pub open spec fn entities_in(d: DecodedModel) -> Option<Seq<Option<RegistrationModel>>> {
    match d {
        DecodedModel::Entities(Ok(l)) => Some(l),
        _ => None,
    }
}

/// Reading keeps what could be read, in order, and leaves out the rest: it reads a list as it reads its
/// parts one behind the other.
pub proof fn law_readable_items_are_kept<T>(a: Seq<Option<T>>, b: Seq<Option<T>>, x: T)
    ensures
        super::session::kept(Seq::<Option<T>>::empty()) == Seq::<T>::empty(),
        super::session::kept(seq![Some(x)]) == seq![x],
        super::session::kept(seq![None::<T>]) == Seq::<T>::empty(),
        super::session::kept(a + b) == super::session::kept(a) + super::session::kept(b),
    decreases b.len(),
{
    reveal_with_fuel(super::session::kept, 2);
    assert(seq![Some(x)].drop_last() =~= Seq::empty());
    assert(seq![None::<T>].drop_last() =~= Seq::empty());
    assert(super::session::kept(seq![Some(x)]) =~= seq![x]);
    if b.len() > 0 {
        law_readable_items_are_kept(a, b.drop_last(), x);
        assert((a + b).drop_last() =~= a + b.drop_last());
    } else {
        assert(a + b =~= a);
    }
    assert(super::session::kept(a + b) =~= super::session::kept(a) + super::session::kept(b));
}

/// The snapshot as it stands after a reply: still being loaded, or told.
pub open spec fn snapshot_after(r: super::session::StepModel) -> super::client::SnapshotModel {
    if r.events.len() > 0 && r.events[0] is Snapshot {
        r.events[0]->Snapshot_0
    } else {
        r.session.snapshot
    }
}

/// Each list goes where it belongs in the snapshot and leaves the others as they are; one that is none,
/// or of another kind, ends the session.
pub proof fn law_lists_fill_the_snapshot(s: SessionModel, v: JsonModel, d: DecodedModel, now: u64, i: int)
    requires
        s.wf(),
        replies(s, v, i),
        succeeded(v),
        s.req.pending[i].kind.is_list(),
    ensures
        ({
            let r = super::session::on_message(s, v, d, now);
            let t = snapshot_after(r);
            let b = s.snapshot;
            match s.req.pending[i].kind {
                PendingModel::States => match states_in(d) {
                    Some(l) => r.end is None && t.states == super::session::kept(l) && t.areas == b.areas && t.devices == b.devices && t.entities
                        == b.entities,
                    None => r.end is Some,
                },
                PendingModel::Areas => match areas_in(d) {
                    Some(l) => r.end is None && t.areas == super::session::kept(l) && t.states == b.states && t.devices == b.devices && t.entities
                        == b.entities,
                    None => r.end is Some,
                },
                PendingModel::Devices => match devices_in(d) {
                    Some(l) => r.end is None && t.devices == super::session::kept(l) && t.states == b.states && t.areas == b.areas && t.entities
                        == b.entities,
                    None => r.end is Some,
                },
                _ => match entities_in(d) {
                    Some(l) => r.end is None && t.entities == super::session::kept(l) && t.states == b.states && t.areas == b.areas && t.devices
                        == b.devices,
                    None => r.end is Some,
                },
            }
        }),
{
    lemma_reply(s, v, d, now, i);
}

/// What is read of a message is what it is needed as: of an event the new state, of a reply that brings a
/// list that list, and of anything else nothing.
pub proof fn law_parts_are_read_as_needed(s: SessionModel, v: JsonModel, i: int)
    requires
        s.wf(),
    ensures
        says(v, "type"@) == Some("event"@) ==> super::session::part(s, v) == Part::State,
        replies(s, v, i) ==> super::session::part(s, v) == match s.req.pending[i].kind {
            PendingModel::States => Part::States,
            PendingModel::Areas | PendingModel::Refresh(Registry::Areas) => Part::Areas,
            PendingModel::Devices | PendingModel::Refresh(Registry::Devices) => Part::Devices,
            PendingModel::Entities | PendingModel::Refresh(Registry::Entities) => Part::Entities,
            _ => Part::Nothing,
        },
{
    reveal_strlit("event");
    reveal_strlit("result");
    assert("event"@.len() == 5 && "result"@.len() == 6);
    if replies(s, v, i) {
        super::session::lemma_waiting_found(s.req.pending, i);
    }
}

/// A registry that was fetched again is told of as what it is, with what could be read of it.
pub proof fn law_refetched_registries_are_told(s: SessionModel, v: JsonModel, d: DecodedModel, now: u64, i: int)
    requires
        s.wf(),
        replies(s, v, i),
        succeeded(v),
    ensures
        ({
            let told = super::session::on_message(s, v, d, now).events;
            &&& s.req.pending[i].kind == PendingModel::Refresh(Registry::Areas) ==> told == match areas_in(d) {
                Some(l) => seq![EventModel::Registry(UpdateModel::Areas(super::session::kept(l)))],
                None => Seq::empty(),
            }
            &&& s.req.pending[i].kind == PendingModel::Refresh(Registry::Devices) ==> told == match devices_in(d) {
                Some(l) => seq![EventModel::Registry(UpdateModel::Devices(super::session::kept(l)))],
                None => Seq::empty(),
            }
            &&& s.req.pending[i].kind == PendingModel::Refresh(Registry::Entities) ==> told == match entities_in(d) {
                Some(l) => seq![EventModel::Registry(UpdateModel::Entities(super::session::kept(l)))],
                None => Seq::empty(),
            }
        }),
{
    lemma_reply(s, v, d, now, i);
}

// ----- Histories and logbooks -------------------------------------------------------------------

/// A history is what the result has under the entity's id, read item by item in order.
pub proof fn law_histories_are_read(result: JsonModel, id: Seq<char>, a: Seq<JsonModel>, b: Seq<JsonModel>, item: JsonModel)
    ensures
        crate::json::at(result, id) == JsonModel::List(a) ==> super::session::history(result, id) == super::session::points(a),
        crate::json::list(crate::json::at(result, id)) is None ==> super::session::history(result, id) == Seq::<PointModel>::empty(),
        super::session::points(seq![item]) == match super::types::point(item) {
            Some(p) => seq![p],
            None => Seq::empty(),
        },
        super::session::points(a + b) == super::session::points(a) + super::session::points(b),
    decreases b.len(),
{
    reveal_with_fuel(super::session::points, 2);
    assert(seq![item].drop_last() =~= Seq::empty());
    assert(super::session::points(seq![item]) =~= match super::types::point(item) {
        Some(p) => seq![p],
        None => Seq::empty(),
    });
    if b.len() > 0 {
        law_histories_are_read(result, id, a, b.drop_last(), item);
        assert((a + b).drop_last() =~= a + b.drop_last());
    } else {
        assert(a + b =~= a);
    }
    assert(super::session::points(a + b) =~= super::session::points(a) + super::session::points(b));
}

/// A point of a history has the state under `s`, or under `state` where there is no `s`, and the first
/// time that can be read of `lu`, `lc`, `last_updated` and `last_changed`. Without both it is none.
pub proof fn law_points_are_read(v: JsonModel)
    ensures
        ({
            let state = if crate::json::field(v, "s"@) is Some { says(v, "s"@) } else { says(v, "state"@) };
            let lu = super::types::stamp(crate::json::at(v, "lu"@));
            let lc = super::types::stamp(crate::json::at(v, "lc"@));
            let updated = super::types::stamp(crate::json::at(v, "last_updated"@));
            let changed = super::types::stamp(crate::json::at(v, "last_changed"@));
            let when = if lu is Some { lu } else if lc is Some { lc } else if updated is Some { updated } else { changed };
            match super::types::point(v) {
                Some(p) => state == Some(p.state) && when == Some(p.when),
                None => state is None || when is None,
            }
        }),
{
    let keys = seq!["lu"@, "lc"@, "last_updated"@, "last_changed"@];
    reveal_with_fuel(super::types::first_stamp, 5);
    assert(keys.drop_first() =~= seq!["lc"@, "last_updated"@, "last_changed"@]);
    assert(keys.drop_first().drop_first() =~= seq!["last_updated"@, "last_changed"@]);
    assert(keys.drop_first().drop_first().drop_first() =~= seq!["last_changed"@]);
    assert(keys.drop_first().drop_first().drop_first().drop_first() =~= Seq::empty());
}

/// A time is read from a number of seconds since the epoch or from a text that is one.
pub proof fn law_times_are_read(v: JsonModel)
    ensures
        match v {
            JsonModel::Number(n) => super::types::stamp(v) matches Some(t) ==> t.secs * 1_000_000 + t.nanos / 1000 == n.micros && 0 <= t.nanos
                < 1_000_000_000,
            JsonModel::Text(s) => super::types::stamp(v) == crate::time::rfc3339_point(s),
            _ => super::types::stamp(v) is None,
        },
{
}

/// A logbook is what the result lists, read item by item in order. An entry has the fields of the item,
/// and is none without a time.
pub proof fn law_logbooks_are_read(result: JsonModel, a: Seq<JsonModel>, b: Seq<JsonModel>, item: JsonModel)
    ensures
        result == JsonModel::List(a) ==> super::session::logbook(result) == super::session::logs(a),
        crate::json::list(result) is None ==> super::session::logbook(result) == Seq::<LogModel>::empty(),
        super::session::logs(seq![item]) == match super::types::log(item) {
            Some(p) => seq![p],
            None => Seq::empty(),
        },
        super::session::logs(a + b) == super::session::logs(a) + super::session::logs(b),
        match super::types::log(item) {
            Some(l) => {
                &&& Some(l.when) == super::types::stamp(crate::json::at(item, "when"@))
                &&& l.entity_id == says(item, "entity_id"@)
                &&& l.name == says(item, "name"@)
                &&& l.message == says(item, "message"@)
                &&& l.state == says(item, "state"@)
            },
            None => super::types::stamp(crate::json::at(item, "when"@)) is None,
        },
    decreases b.len(),
{
    reveal_with_fuel(super::session::logs, 2);
    reveal_with_fuel(super::types::first_stamp, 2);
    assert(seq!["when"@].drop_first() =~= Seq::empty());
    assert(seq![item].drop_last() =~= Seq::empty());
    assert(super::session::logs(seq![item]) =~= match super::types::log(item) {
        Some(p) => seq![p],
        None => Seq::empty(),
    });
    if b.len() > 0 {
        law_logbooks_are_read(result, a, b.drop_last(), item);
        assert((a + b).drop_last() =~= a + b.drop_last());
    } else {
        assert(a + b =~= a);
    }
    assert(super::session::logs(a + b) =~= super::session::logs(a) + super::session::logs(b));
}

/// What happened, in words: the message, or that it changed to its state.
pub proof fn law_entries_say_what_happened(l: LogModel)
    ensures
        l.message matches Some(m) ==> super::types::happening(l) == m,
        l.message is None && l.state is Some ==> super::types::happening(l) == "changed to "@ + l.state->0,
        l.message is None && l.state is None ==> super::types::happening(l).len() == 0,
{
}

// ----- Refetching, pings and giving up ------------------------------------------------------------

/// A refetch writes one message for each stale registry, in their order: each asks for the list that its
/// reply is taken for.
pub proof fn law_refetches_ask_for_their_lists(s: SessionModel, now: u64, i: int)
    requires
        s.left == 0,
        s.refresh_at matches Some(at) && at <= now,
        0 <= i < s.stale.len(),
        s.req.next_id + s.stale.len() <= u64::MAX,
    ensures
        ({
            let t = super::session::on_refresh(s, now).req;
            let n = s.req.outbox.len();
            let k = s.req.pending.len();
            &&& t.outbox.len() == n + s.stale.len() && t.pending.len() == k + s.stale.len()
            &&& belong(t.outbox[n + i], t.pending[k + i])
            &&& t.pending[k + i].kind == PendingModel::Refresh(s.stale[i])
            &&& s.stale[i] is Areas ==> says(t.outbox[n + i], "type"@) == Some("config/area_registry/list"@)
            &&& s.stale[i] is Devices ==> says(t.outbox[n + i], "type"@) == Some("config/device_registry/list"@)
            &&& s.stale[i] is Entities ==> says(t.outbox[n + i], "type"@) == Some("config/entity_registry/list"@)
        }),
{
    lemma_refetching_writes(s.req, s.stale, now);
}

proof fn lemma_refetching_writes(r: RequestsModel, stale: Seq<Registry>, now: u64)
    requires
        r.next_id + stale.len() <= u64::MAX,
    ensures
        ({
            let t = super::session::refetching(r, stale, now);
            &&& t.next_id == r.next_id + stale.len()
            &&& t.outbox.len() == r.outbox.len() + stale.len() && t.pending.len() == r.pending.len() + stale.len()
            &&& forall|i: int| 0 <= i < stale.len() ==> {
                &&& belong(t.outbox[r.outbox.len() + i], #[trigger] t.pending[r.pending.len() + i])
                &&& t.pending[r.pending.len() + i].kind == PendingModel::Refresh(stale[i])
            }
        }),
    decreases stale.len(),
{
    if stale.len() > 0 {
        let rest = stale.drop_last();
        let b = super::session::refetching(r, rest, now);
        let t = super::session::refetching(r, stale, now);
        let body = super::client::ask(stale.last().listing());
        reveal_fields();
        lemma_refetching_writes(r, rest, now);
        lemma_ask(stale.last().listing());
        lemma_asked(b, body, PendingModel::Refresh(stale.last()), now);
        assert forall|i: int| 0 <= i < stale.len() implies {
            &&& belong(t.outbox[r.outbox.len() + i], #[trigger] t.pending[r.pending.len() + i])
            &&& t.pending[r.pending.len() + i].kind == PendingModel::Refresh(stale[i])
        } by {
            if i < rest.len() {
                assert(t.pending.drop_last()[r.pending.len() + i] == b.pending[r.pending.len() + i]);
                assert(t.outbox.drop_last()[r.outbox.len() + i] == b.outbox[r.outbox.len() + i]);
                assert(rest[i] == stale[i]);
            }
        }
    }
}

/// A ping goes out as one, under the number that its answer is known by; nothing else is awaited. An answer
/// under another number leaves it unanswered.
pub proof fn law_pings_go_out(s: SessionModel, v: JsonModel, d: DecodedModel, now: u64)
    requires
        s.ping is None,
        s.req.next_id < u64::MAX,
        says(v, "type"@) == Some("pong"@),
    ensures
        ({
            let t = super::session::on_ping(s).session;
            let answered = super::session::on_message(t, v, d, now).session;
            &&& t.req.outbox.len() == s.req.outbox.len() + 1 && t.req.pending == s.req.pending
            &&& says(t.req.outbox.last(), "type"@) == Some("ping"@)
            &&& t.ping is Some && super::client::id_in(t.req.outbox.last()) == t.ping
            &&& answered.ping is None <==> super::client::id_in(v) == t.ping
        }),
{
    reveal_fields();
    lemma_ask("ping"@);
    lemma_field(super::client::ask("ping"@), "id"@, JsonModel::Number(crate::json::whole((s.req.next_id + 1) as int)));
    reveal_strlit("event");
    reveal_strlit("pong");
    assert("event"@.len() == 5 && "pong"@.len() == 4);
}

/// Whether a request has waited for `after` by `now`.
pub open spec fn has_waited(w: WaitingModel, after: u64, now: u64) -> bool {
    (if now >= w.sent { now - w.sent } else { 0 }) >= after
}

/// Requests that waited long enough are given up, each with its outcome, and no others are. Giving up a
/// list or the changes of state ends the session.
pub proof fn law_overdue_requests_are_given_up(s: SessionModel, after: u64, now: u64)
    ensures
        ({
            let r = super::session::on_sweep(s, after, now);
            let given_up = s.req.pending.filter(|w: WaitingModel| has_waited(w, after, now));
            &&& r.session.req.pending == s.req.pending.filter(|w: WaitingModel| !has_waited(w, after, now))
            &&& r.events == super::session::failures(super::session::kinds(given_up), "no reply from Home Assistant"@)
            &&& r.end is Some <==> exists|i: int|
                0 <= i < given_up.len() && ((#[trigger] given_up[i]).kind.is_list() || given_up[i].kind is Subscribe)
            &&& r.end is Some ==> r.end == Some(EndModel::Error("timed out loading from Home Assistant"@))
        }),
{
    let p = s.req.pending;
    let given_up = p.filter(|w: WaitingModel| has_waited(w, after, now));
    lemma_swept(p, after, now);
    let ks = super::client::overdue_kinds(p, after, now);
    assert(ks == super::session::kinds(given_up));
    if super::session::vital(ks) {
        let i = choose|i: int| 0 <= i < ks.len() && (#[trigger] ks[i]).is_bootstrap();
        assert(given_up[i].kind == ks[i]);
    }
    if exists|i: int| 0 <= i < given_up.len() && ((#[trigger] given_up[i]).kind.is_list() || given_up[i].kind is Subscribe) {
        let i = choose|i: int| 0 <= i < given_up.len() && ((#[trigger] given_up[i]).kind.is_list() || given_up[i].kind is Subscribe);
        assert(ks[i].is_bootstrap());
    }
}

proof fn lemma_swept(p: Seq<WaitingModel>, after: u64, now: u64)
    ensures
        super::client::in_time(p, after, now) == p.filter(|w: WaitingModel| !has_waited(w, after, now)),
        super::client::overdue_kinds(p, after, now) == super::session::kinds(p.filter(|w: WaitingModel| has_waited(w, after, now))),
    decreases p.len(),
{
    reveal(Seq::filter);
    if p.len() > 0 {
        lemma_swept(p.drop_last(), after, now);
    }
    assert(super::client::overdue_kinds(p, after, now) =~= super::session::kinds(p.filter(|w: WaitingModel| has_waited(w, after, now))));
}

/// What is told of a request that gets no reply: that it failed and why. A service may have run all the
/// same. Several are told of one behind the other; what no command asked for is not told of.
pub proof fn law_failures_are_told(kind: PendingModel, why: Seq<char>, a: Seq<PendingModel>, b: Seq<PendingModel>)
    ensures
        ({
            let told = super::session::failures(seq![kind], why);
            match kind {
                PendingModel::Service(label) => told == seq![
                    EventModel::ServiceResult { label, error: Some(why + "; it may or may not have run"@) },
                ],
                PendingModel::History(id) => told == seq![EventModel::HistoryFailed { entity_id: id, error: why }],
                PendingModel::Logbook(id) => told == seq![EventModel::Logbook { entity_id: id, result: Err(why) }],
                _ => told.len() == 0,
            }
        }),
        super::session::failures(a + b, why) == super::session::failures(a, why) + super::session::failures(b, why),
    decreases b.len(),
{
    reveal_with_fuel(super::session::failures, 2);
    assert(seq![kind].drop_last() =~= Seq::empty());
    let told = super::session::failures(seq![kind], why);
    match super::client::failure(kind, why) {
        Some(ev) => assert(told =~= seq![ev]),
        None => assert(told =~= Seq::empty()),
    }
    if b.len() > 0 {
        law_failures_are_told(kind, why, a, b.drop_last());
        assert((a + b).drop_last() =~= a + b.drop_last());
    } else {
        assert(a + b =~= a);
    }
    assert(super::session::failures(a + b, why) =~= super::session::failures(a, why) + super::session::failures(b, why));
}

/// When a session ends, what still waits fails: cancelled where everything is loaded again, and else with
/// the connection.
pub proof fn law_ends_fail_what_waits(s: SessionModel, end: EndModel)
    ensures
        end is Resync ==> super::session::leftovers(s, end) == super::session::failures(
            super::session::kinds(s.req.pending),
            "cancelled by resync"@,
        ),
        !(end is Resync) ==> super::session::leftovers(s, end) == super::session::failures(
            super::session::kinds(s.req.pending),
            "connection lost"@,
        ),
{
}

// ----- Connecting -------------------------------------------------------------------------------

/// The token is handed over as what it is.
pub proof fn law_tokens_are_handed_over(token: Seq<char>)
    ensures
        says(super::reconnect::handing_over(token), "type"@) == Some("auth"@),
        says(super::reconnect::handing_over(token), "access_token"@) == Some(token),
{
    reveal_fields();
    lemma_ask("auth"@);
    lemma_field(super::client::ask("auth"@), "access_token"@, JsonModel::Text(token));
}

/// The token goes out when it is asked for and not otherwise; a connection counts as authenticated, with
/// the version that Home Assistant gives, or as refused, with what it says, when it says so.
pub proof fn law_authentication(v: JsonModel)
    ensures
        ({
            let r = super::reconnect::authenticating(v);
            &&& r is SendToken <==> says(v, "type"@) == Some("auth_required"@)
            &&& r is Accepted <==> says(v, "type"@) == Some("auth_ok"@)
            &&& r is Refused <==> says(v, "type"@) == Some("auth_invalid"@)
            &&& r matches AuthModel::Accepted(version) ==> match says(v, "ha_version"@) {
                Some(x) => version == x,
                None => version == "?"@,
            }
            &&& r matches AuthModel::Refused(end) ==> match says(v, "message"@) {
                Some(m) => end == EndModel::AuthFailed(m),
                None => end == EndModel::AuthFailed("invalid token"@),
            }
        }),
{
    reveal_strlit("auth_required");
    reveal_strlit("auth_ok");
    reveal_strlit("auth_invalid");
    assert("auth_required"@.len() == 13 && "auth_ok"@.len() == 7 && "auth_invalid"@.len() == 12);
}

/// After a session: the end of the commands stops the client, a refused token is told of and not tried
/// again, loading everything again connects at once, and an error is told of with the wait until the next
/// attempt. The waits are from a second to half a minute.
pub proof fn law_after_a_session(backoff: u64, end: EndModel, was_connected: bool)
    ensures
        ({
            let next = super::reconnect::after_session(backoff, end, was_connected).0;
            match end {
                EndModel::Shutdown => next is Stop,
                EndModel::AuthFailed(m) => next == NextModel::Refuse(EventModel::Status(StatusModel::AuthFailed(m))),
                EndModel::Resync => next is Retry,
                EndModel::Error(e) => {
                    &&& next is Wait
                    &&& next->event == EventModel::Status(StatusModel::Disconnected { error: e, retry_in: next->delay })
                    &&& was_connected ==> next->delay == 1_000
                    &&& !was_connected ==> next->delay == backoff
                },
            }
        }),
        end is Resync ==> super::reconnect::after_session(backoff, end, was_connected).1 == 1_000,
        super::client::BACKOFF_MIN == 1_000 && super::client::BACKOFF_MAX == 30_000,
        super::client::PING_EVERY == 30_000 && super::client::SWEEP_EVERY == 1_000 && super::client::REGISTRY_DEBOUNCE == 300,
{
}

/// Without a session a command is refused with its own kind of outcome, saying why; loading everything
/// again only cuts a wait short. The end of the commands stops the client.
pub proof fn law_commands_without_a_session(idle: Idle, cmd: CommandModel)
    ensures
        super::reconnect::without_session(idle, None) is Stop,
        ({
            let why = if idle is Refused { "authentication failed"@ } else { "not connected"@ };
            let r = super::reconnect::without_session(idle, Some(cmd));
            match cmd {
                CommandModel::CallService { label, .. } => r == IdleModel::Answer(
                    Some(EventModel::ServiceResult { label, error: Some(why) }),
                ),
                CommandModel::History { entity_id, .. } => r == IdleModel::Answer(Some(EventModel::HistoryFailed { entity_id, error: why })),
                CommandModel::Logbook { entity_id, .. } => r == IdleModel::Answer(
                    Some(EventModel::Logbook { entity_id, result: Err(why) }),
                ),
                CommandModel::Resync => if idle is Waiting { r is Retry } else { r == IdleModel::Answer(None) },
            }
        }),
{
}

/// In a session the end of the commands shuts it down, and loading everything again ends it for that.
pub proof fn law_sessions_are_ended(s: SessionModel, now: u64, date: TimeModel)
    ensures
        super::session::on_command(s, None, now, date).end == Some(EndModel::Shutdown),
        super::session::on_command(s, Some(CommandModel::Resync), now, date).end == Some(EndModel::Resync),
        super::session::on_command(s, None, now, date).session == s,
        super::session::on_command(s, Some(CommandModel::Resync), now, date).session == s,
{
}

/// A frame that is a list holds the messages that it lists, in that order; any other is one message.
pub proof fn law_frames_hold_messages(v: JsonModel, l: Seq<JsonModel>)
    ensures
        super::session::apart(JsonModel::List(l)) == l,
        !(v is List) ==> super::session::apart(v).len() == 1 && super::session::apart(v)[0] == v,
{
}

/// What went wrong on the socket is told in words, with what the system said of it.
pub proof fn law_troubles_are_told(t: super::reconnect::Trouble)
    ensures
        ({
            let told = super::reconnect::trouble(t);
            match t {
                super::reconnect::Trouble::Connect(e) => told == "connect: "@ + e@,
                super::reconnect::Trouble::BadAuthMessage(e) => told == "bad auth message: "@ + e@,
                super::reconnect::Trouble::Socket(e) => told == e@,
                super::reconnect::Trouble::ConnectTimeout => told == "timed out connecting"@,
                super::reconnect::Trouble::ClosedInAuth => told == "closed during auth"@,
                super::reconnect::Trouble::WriteTimeout => told == "timed out writing to Home Assistant"@,
                super::reconnect::Trouble::Lost => told == "connection lost"@,
                super::reconnect::Trouble::Closed(Some(why)) => told == crate::text::trimmed("server closed connection "@ + why@),
                super::reconnect::Trouble::Closed(None) => told == crate::text::trimmed("server closed connection "@ + Seq::empty()),
            }
        }),
{
}

/// A registry's change is acted on 300 milliseconds after the first that is told of, and a later one does not
/// put that off.
pub proof fn law_changes_are_acted_on_in_time(s: SessionModel, v: JsonModel, decoded: Option<EntityModel>, now: u64)
    requires
        super::session::state_change(v, decoded) is None,
        super::session::registry_change(v) is Some,
        now + 300 <= u64::MAX,
    ensures
        ({
            let t = super::session::on_event(s, v, decoded, now);
            let r = super::session::registry_change(v)->0;
            &&& t.events.len() == 0 && t.end is None
            &&& s.refresh_at is None ==> t.session.refresh_at == Some((now + 300) as u64)
            &&& s.refresh_at is Some ==> t.session.refresh_at == s.refresh_at
            &&& t.session.stale.contains(r)
            &&& t.session.req == s.req && t.session.left == s.left && t.session.early == s.early
        }),
{
    if !s.stale.contains(super::session::registry_change(v)->0) {
        let t = s.stale.push(super::session::registry_change(v)->0);
        assert(t[s.stale.len() as int] == super::session::registry_change(v)->0);
    }
}

/// A change of state is told at once where everything is loaded, and kept where it is not.
pub proof fn law_changes_are_told_or_kept(s: SessionModel, v: JsonModel, decoded: Option<EntityModel>, now: u64)
    requires
        super::session::state_change(v, decoded) is Some,
    ensures
        ({
            let t = super::session::on_event(s, v, decoded, now);
            let told = super::session::state_change(v, decoded)->0;
            &&& s.left == 0 ==> t.events == seq![told] && t.session == s
            &&& s.left > 0 ==> t.events.len() == 0 && t.session == (SessionModel { early: s.early.push(told), ..s })
            &&& t.end is None
        }),
{
}

/// A ping that is due while the last was not answered ends the session, saying so.
pub proof fn law_unanswered_pings_are_told(s: SessionModel)
    requires
        s.ping is Some,
    ensures
        super::session::on_ping(s).end == Some(EndModel::Error("ping timed out"@)),
        super::session::on_ping(s).session == s,
{
}

/// What is written is taken in the order in which it came about, all of it, and once.
pub proof fn law_messages_are_taken_once(s: SessionModel)
    ensures
        ({
            let (first, t) = super::session::taken(s);
            let (again, _) = super::session::taken(t);
            &&& first == s.req.outbox
            &&& again.len() == 0
            &&& t.req.pending == s.req.pending && t.req.next_id == s.req.next_id && t.left == s.left && t.early == s.early && t.stale == s.stale
                && t.refresh_at == s.refresh_at && t.ping == s.ping && t.snapshot == s.snapshot
        }),
{
}

/// A reply that nothing waits for, and a message that is neither a reply, an event nor an answer to a ping, change
/// nothing.
pub proof fn law_other_messages_change_nothing(s: SessionModel, v: JsonModel, d: DecodedModel, now: u64)
    requires
        says(v, "type"@) != Some("event"@),
        says(v, "type"@) != Some("pong"@),
        says(v, "type"@) == Some("result"@) ==> forall|i: int| 0 <= i < s.req.pending.len() ==> super::client::id_in(v) != Some((#[trigger] s.req.pending[i]).id),
    ensures
        super::session::on_message(s, v, d, now).session == s,
        super::session::on_message(s, v, d, now).events.len() == 0,
        super::session::on_message(s, v, d, now).end is None,
{
    if let Some(id) = super::client::id_in(v) {
        super::session::lemma_waiting_at(s.req.pending, id);
    }
}

/// An event is taken for what it tells of: a change of state or, if it tells of none, a change to a registry. Any
/// other event changes nothing.
pub proof fn law_events_are_taken_for_what_they_tell(s: SessionModel, v: JsonModel, d: DecodedModel, now: u64)
    requires
        says(v, "type"@) == Some("event"@),
    ensures
        super::session::on_message(s, v, d, now) == super::session::on_event(
            s,
            v,
            match d {
                DecodedModel::State(e) => e,
                _ => None,
            },
            now,
        ),
        event_of(v) != Some("state_changed"@) && super::session::registry_change(v) is None ==> super::session::on_message(s, v, d, now).session == s
            && super::session::on_message(s, v, d, now).events.len() == 0,
{
}

} // verus!
