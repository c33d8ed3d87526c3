//! One connection: from the handshake through loading everything to relaying commands and events.

use super::client::{asking, fail, put};
use super::client::{HaCommand, HaEvent, Pending, Registry, RegistryUpdate, Requests, SessionEnd, Snapshot, REGISTRY_DEBOUNCE};
use super::client::{CommandModel, EndModel, EventModel, PendingModel, RequestsModel, SnapshotModel, UpdateModel, WaitingModel};
use super::types::{AreaModel, AttributesModel, CallModel, DeviceModel, EntityModel, LogModel, PointModel, RegistrationModel};
use super::types::{Area, DeviceRegistryEntry, EntityRegistryEntry, EntityState, HistoryPoint, LogbookEntry};
use crate::json::{Json, JsonModel};
use crate::strmap::StrMap;
use crate::text;
use crate::text::same;
use crate::time::{TimeModel, Timestamp};
use vstd::prelude::*;

verus! {

// ----- What a message carries ------------------------------------------------------

/// The items of a list that could be read.
pub open spec fn kept<T>(items: Seq<Option<T>>) -> Seq<T>
    decreases items.len(),
{
    if items.len() == 0 {
        Seq::empty()
    } else {
        match items.last() {
            Some(x) => kept(items.drop_last()).push(x),
            None => kept(items.drop_last()),
        }
    }
}

/// What reading a list item by item stands for.
pub open spec fn reading<T: DeepView>(r: Result<Vec<Option<T>>, String>) -> Result<Seq<Option<T::V>>, Seq<char>> {
    match r {
        Ok(l) => Ok(l.deep_view()),
        Err(e) => Err(e@),
    }
}

/// The list read: the items that could be read, or why it is none.
pub open spec fn listed<T>(r: Result<Seq<Option<T>>, Seq<char>>) -> Result<Seq<T>, Seq<char>> {
    match r {
        Ok(l) => Ok(kept(l)),
        Err(e) => Err(e),
    }
}

/// Keep the items that could be read, so a single odd entry doesn't sink the whole list.
pub fn parse_list<T: DeepView>(items: Result<Vec<Option<T>>, String>) -> (r: Result<Vec<T>, String>)
    ensures
        match r {
            Ok(l) => listed(reading(items)) == Ok::<_, Seq<char>>(l.deep_view()),
            Err(e) => listed(reading(items)) == Err::<Seq<T::V>, _>(e@),
        },
{
    match items {
        Ok(items) => {
            let ghost all = items.deep_view();
            let ghost raw = items@;
            let mut out: Vec<T> = Vec::new();
            assert(out.deep_view() =~= Seq::empty());
            for item in it: items
                invariant
                    it.seq() == raw,
                    raw.len() == all.len(),
                    forall|i: int| 0 <= i < raw.len() ==> #[trigger] raw[i].deep_view() == all[i],
                    out.deep_view() == kept(all.take(it.index() as int)),
            {
                let ghost i = it.index() as int;
                assert(all.take(i + 1).drop_last() =~= all.take(i));
                assert(all.take(i + 1).last() == item.deep_view());
                let ghost o0 = out.deep_view();
                if let Some(x) = item {
                    out.push(x);
                    assert(out.deep_view() =~= o0.push(x.deep_view()));
                }
            }
            assert(all.take(all.len() as int) =~= all);
            Ok(out)
        },
        Err(e) => Err(e),
    }
}

/// The part of a message that has to be read as data of Home Assistant.
#[derive(Debug, Clone, Copy, PartialEq, Eq, Structural)]
pub enum Part {
    Nothing,
    /// `event.data.new_state`, as a state.
    State,
    /// `result`, as a list of states.
    States,
    Areas,
    Devices,
    Entities,
}

/// What that part was read as: `None` for what could not be read, and for a list that is none, why.
#[derive(Debug)]
pub enum Decoded {
    Nothing,
    State(Option<EntityState>),
    States(Result<Vec<Option<EntityState>>, String>),
    Areas(Result<Vec<Option<Area>>, String>),
    Devices(Result<Vec<Option<DeviceRegistryEntry>>, String>),
    Entities(Result<Vec<Option<EntityRegistryEntry>>, String>),
}

/// What a [`Decoded`] stands for.
pub enum DecodedModel {
    Nothing,
    State(Option<EntityModel>),
    States(Result<Seq<Option<EntityModel>>, Seq<char>>),
    Areas(Result<Seq<Option<AreaModel>>, Seq<char>>),
    Devices(Result<Seq<Option<DeviceModel>>, Seq<char>>),
    Entities(Result<Seq<Option<RegistrationModel>>, Seq<char>>),
}

impl View for Decoded {
    type V = DecodedModel;

    open spec fn view(&self) -> DecodedModel {
        match *self {
            Decoded::Nothing => DecodedModel::Nothing,
            Decoded::State(s) => DecodedModel::State(s.deep_view()),
            Decoded::States(r) => DecodedModel::States(reading(r)),
            Decoded::Areas(r) => DecodedModel::Areas(reading(r)),
            Decoded::Devices(r) => DecodedModel::Devices(reading(r)),
            Decoded::Entities(r) => DecodedModel::Entities(reading(r)),
        }
    }
}

impl DecodedModel {
    pub open spec fn state(self) -> Option<EntityModel> {
        match self {
            DecodedModel::State(s) => s,
            _ => None,
        }
    }

    pub open spec fn states(self) -> Result<Seq<EntityModel>, Seq<char>> {
        match self {
            DecodedModel::States(r) => listed(r),
            _ => Err("nothing was read"@),
        }
    }

    pub open spec fn areas(self) -> Result<Seq<AreaModel>, Seq<char>> {
        match self {
            DecodedModel::Areas(r) => listed(r),
            _ => Err("nothing was read"@),
        }
    }

    pub open spec fn devices(self) -> Result<Seq<DeviceModel>, Seq<char>> {
        match self {
            DecodedModel::Devices(r) => listed(r),
            _ => Err("nothing was read"@),
        }
    }

    pub open spec fn entities(self) -> Result<Seq<RegistrationModel>, Seq<char>> {
        match self {
            DecodedModel::Entities(r) => listed(r),
            _ => Err("nothing was read"@),
        }
    }
}

impl Decoded {
    fn state(self) -> (r: Option<EntityState>)
        ensures
            r.deep_view() == self@.state(),
    {
        match self {
            Decoded::State(s) => s,
            _ => None,
        }
    }

    fn states(self) -> (r: Result<Vec<EntityState>, String>)
        ensures
            match r {
                Ok(l) => self@.states() == Ok::<_, Seq<char>>(l.deep_view()),
                Err(e) => self@.states() == Err::<Seq<EntityModel>, _>(e@),
            },
    {
        match self {
            Decoded::States(r) => parse_list(r),
            _ => Err("nothing was read".to_owned()),
        }
    }

    fn areas(self) -> (r: Result<Vec<Area>, String>)
        ensures
            match r {
                Ok(l) => self@.areas() == Ok::<_, Seq<char>>(l.deep_view()),
                Err(e) => self@.areas() == Err::<Seq<AreaModel>, _>(e@),
            },
    {
        match self {
            Decoded::Areas(r) => parse_list(r),
            _ => Err("nothing was read".to_owned()),
        }
    }

    fn devices(self) -> (r: Result<Vec<DeviceRegistryEntry>, String>)
        ensures
            match r {
                Ok(l) => self@.devices() == Ok::<_, Seq<char>>(l.deep_view()),
                Err(e) => self@.devices() == Err::<Seq<DeviceModel>, _>(e@),
            },
    {
        match self {
            Decoded::Devices(r) => parse_list(r),
            _ => Err("nothing was read".to_owned()),
        }
    }

    fn entities(self) -> (r: Result<Vec<EntityRegistryEntry>, String>)
        ensures
            match r {
                Ok(l) => self@.entities() == Ok::<_, Seq<char>>(l.deep_view()),
                Err(e) => self@.entities() == Err::<Seq<RegistrationModel>, _>(e@),
            },
    {
        match self {
            Decoded::Entities(r) => parse_list(r),
            _ => Err("nothing was read".to_owned()),
        }
    }
}

/// `event.event_type` of a message.
pub open spec fn event_type(v: JsonModel) -> Option<Seq<char>> {
    crate::json::text(crate::json::at(crate::json::at(v, "event"@), "event_type"@))
}

/// `event.data` of a message.
pub open spec fn event_data(v: JsonModel) -> JsonModel {
    crate::json::at(crate::json::at(v, "event"@), "data"@)
}

/// The change of state that a message tells of. `decoded` is what its `new_state` was read as. Only
/// an explicit null means the entity was removed.
pub open spec fn state_change(
    v: JsonModel,
    decoded: Option<EntityModel>,
) -> Option<EventModel> {
    let id = crate::json::text(crate::json::at(event_data(v), "entity_id"@));
    let new = crate::json::field(event_data(v), "new_state"@);
    if event_type(v) != Some("state_changed"@) || id is None || new is None {
        None
    } else if new == Some(JsonModel::Null) {
        Some(EventModel::StateChanged { entity_id: id->0, new_state: None })
    } else if decoded is Some {
        Some(EventModel::StateChanged { entity_id: id->0, new_state: decoded })
    } else {
        None
    }
}

/// The change of state that a message tells of. `decoded` is what its `new_state` was read as.
pub fn parse_state_changed(v: &Json, decoded: Option<EntityState>) -> (r: Option<HaEvent>)
    ensures
        r.deep_view() == state_change(v@, decoded.deep_view()),
{
    let ev = match v.get("event") {
        Some(ev) => ev,
        None => return None,
    };
    match ev.text_at("event_type") {
        Some(t) => if !same(t, "state_changed") {
            return None;
        },
        None => return None,
    }
    let data = match ev.get("data") {
        Some(data) => data,
        None => return None,
    };
    let entity_id = match data.text_at("entity_id") {
        Some(id) => id.to_owned(),
        None => return None,
    };
    // Only an explicit null means the entity was removed. A malformed update is dropped, so
    // the entity keeps its last known state instead of disappearing.
    match data.get("new_state") {
        None => None,
        Some(new) => if new.is_null() {
            Some(HaEvent::StateChanged { entity_id, new_state: None })
        } else {
            match decoded {
                Some(s) => Some(HaEvent::StateChanged { entity_id, new_state: Some(s) }),
                None => None,
            }
        },
    }
}

/// Which registry a `*_registry_updated` event says changed.
pub open spec fn registry_change(v: JsonModel) -> Option<Registry> {
    if event_type(v) == Some(Registry::Areas.event()) {
        Some(Registry::Areas)
    } else if event_type(v) == Some(Registry::Devices.event()) {
        Some(Registry::Devices)
    } else if event_type(v) == Some(Registry::Entities.event()) {
        Some(Registry::Entities)
    } else {
        None
    }
}

/// Which registry a `*_registry_updated` event says changed.
pub fn parse_registry_event(v: &Json) -> (r: Option<Registry>)
    ensures
        r == registry_change(v@),
{
    let t = match v.get("event") {
        Some(ev) => ev.text_at("event_type"),
        None => None,
    };
    match t {
        Some(t) => if same(t, Registry::Areas.updated_event()) {
            Some(Registry::Areas)
        } else if same(t, Registry::Devices.updated_event()) {
            Some(Registry::Devices)
        } else if same(t, Registry::Entities.updated_event()) {
            Some(Registry::Entities)
        } else {
            None
        },
        None => None,
    }
}

/// The history points among `l`.
pub open spec fn points(l: Seq<JsonModel>) -> Seq<PointModel>
    decreases l.len(),
{
    if l.len() == 0 {
        Seq::empty()
    } else {
        match super::types::point(l.last()) {
            Some(p) => points(l.drop_last()).push(p),
            None => points(l.drop_last()),
        }
    }
}

/// The history of `entity_id` in the result of a request for it.
pub open spec fn history(result: JsonModel, entity_id: Seq<char>) -> Seq<PointModel> {
    match crate::json::list(crate::json::at(result, entity_id)) {
        Some(l) => points(l),
        None => Seq::empty(),
    }
}

fn parse_history(result: Option<&Json>, entity_id: &str) -> (r: Vec<HistoryPoint>)
    ensures
        r.deep_view() == history(match result { Some(v) => v@, None => JsonModel::Null }, entity_id@),
{
    let mut out: Vec<HistoryPoint> = Vec::new();
    assert(out.deep_view() =~= Seq::empty());
    if let Some(v) = result {
        if let Some(mine) = v.get(entity_id) {
            if let Some(l) = mine.as_array() {
                let ghost all = l.deep_view();
                let n: usize = l.len();
                for i in 0..n
                    invariant
                        n == l@.len(),
                        all == l.deep_view(),
                        out.deep_view() == points(all.take(i as int)),
                {
                    assert(all.take(i + 1).drop_last() =~= all.take(i as int));
                    assert(all.take(i + 1).last() == l@[i as int]@);
                    let ghost o0 = out.deep_view();
                    if let Some(p) = HistoryPoint::from_value(&l[i]) {
                        out.push(p);
                        assert(out.deep_view() =~= o0.push(p@));
                    }
                }
                assert(all.take(n as int) =~= all);
            }
        }
    }
    out
}

/// The logbook entries among `l`.
pub open spec fn logs(l: Seq<JsonModel>) -> Seq<LogModel>
    decreases l.len(),
{
    if l.len() == 0 {
        Seq::empty()
    } else {
        match super::types::log(l.last()) {
            Some(p) => logs(l.drop_last()).push(p),
            None => logs(l.drop_last()),
        }
    }
}

/// The logbook in the result of a request for it.
pub open spec fn logbook(result: JsonModel) -> Seq<LogModel> {
    match crate::json::list(result) {
        Some(l) => logs(l),
        None => Seq::empty(),
    }
}

fn parse_logbook(result: Option<&Json>) -> (r: Vec<LogbookEntry>)
    ensures
        r.deep_view() == logbook(match result { Some(v) => v@, None => JsonModel::Null }),
{
    let mut out: Vec<LogbookEntry> = Vec::new();
    assert(out.deep_view() =~= Seq::empty());
    if let Some(v) = result {
        if let Some(l) = v.as_array() {
            let ghost all = l.deep_view();
            let n: usize = l.len();
            for i in 0..n
                invariant
                    n == l@.len(),
                    all == l.deep_view(),
                    out.deep_view() == logs(all.take(i as int)),
            {
                assert(all.take(i + 1).drop_last() =~= all.take(i as int));
                assert(all.take(i + 1).last() == l@[i as int]@);
                let ghost o0 = out.deep_view();
                if let Some(p) = LogbookEntry::from_value(&l[i]) {
                    out.push(p);
                    assert(out.deep_view() =~= o0.push(p@));
                }
            }
            assert(all.take(n as int) =~= all);
        }
    }
    out
}

/// The messages in a frame.
pub open spec fn apart(v: JsonModel) -> Seq<JsonModel> {
    match crate::json::list(v) {
        Some(l) => l,
        None => seq![v],
    }
}

/// The messages in a frame: Home Assistant may coalesce several into a list.
pub fn messages(v: Json) -> (r: Vec<Json>)
    ensures
        r.deep_view() == (match crate::json::list(v@) {
            Some(l) => l,
            None => seq![v@],
        }),
        r.deep_view() == apart(v@),
{
    match v.into_array() {
        Ok(l) => l,
        Err(v) => {
            let mut one: Vec<Json> = Vec::new();
            one.push(v);
            assert(one.deep_view() =~= seq![v@]);
            one
        },
    }
}

// ----- The session ------------------------------------------------------------------

/// A connection that is authenticated.
#[derive(Debug)]
pub struct Session {
    pub req: Requests,
    pub snapshot: Snapshot,
    /// How many of the snapshot's four lists are still to come.
    pub bootstrap_left: u8,
    /// Changes that arrive before the snapshot is complete are replayed on top of it.
    pub early_changes: Vec<HaEvent>,
    /// Registries reported changed and not yet refetched, and when to refetch them. Nothing is
    /// refetched before the snapshot is in, or a reply could be overwritten by older data.
    pub stale: Vec<Registry>,
    pub refresh_at: Option<u64>,
    pub ping_outstanding: Option<u64>,
}

/// What one thing that happened to a session led to: events for the UI, and why the session ended if
/// it did.
#[derive(Debug)]
pub struct Step {
    pub events: Vec<HaEvent>,
    pub end: Option<SessionEnd>,
}

/// What a [`Session`] stands for.
#[verifier::ext_equal]
pub struct SessionModel {
    pub req: RequestsModel,
    pub snapshot: SnapshotModel,
    pub left: int,
    pub early: Seq<EventModel>,
    pub stale: Seq<Registry>,
    pub refresh_at: Option<u64>,
    pub ping: Option<nat>,
}

/// What a step makes of a session.
#[verifier::ext_equal]
pub struct StepModel {
    pub session: SessionModel,
    pub events: Seq<EventModel>,
    pub end: Option<EndModel>,
}

impl View for Session {
    type V = SessionModel;

    open spec fn view(&self) -> SessionModel {
        SessionModel {
            req: self.req@,
            snapshot: self.snapshot@,
            left: self.bootstrap_left as int,
            early: self.early_changes.deep_view(),
            stale: self.stale@,
            refresh_at: self.refresh_at,
            ping: super::client::numbered(self.ping_outstanding),
        }
    }
}

/// How many of the snapshot's lists are being waited for.
pub open spec fn lists(p: Seq<WaitingModel>) -> int
    decreases p.len(),
{
    if p.len() == 0 {
        0
    } else {
        lists(p.drop_last()) + if p.last().kind.is_list() { 1int } else { 0 }
    }
}

impl SessionModel {
    /// What holds of every session.
    pub open spec fn wf(self) -> bool {
        &&& self.req.wf()
        &&& self.left == lists(self.req.pending)
        &&& 0 <= self.left <= 4
        &&& self.stale.no_duplicates()
        &&& self.refresh_at is Some <==> self.stale.len() > 0
        &&& self.left == 0 ==> self.early.len() == 0
        &&& forall|i: int| 0 <= i < self.early.len() ==> #[trigger] self.early[i] is StateChanged
        &&& self.left > 0 ==> forall|i: int| 0 <= i < self.req.pending.len() ==> !(#[trigger] self.req.pending[i].kind is Refresh)
    }
}

/// Nothing comes of it but a changed session.
pub open spec fn quiet(session: SessionModel) -> StepModel {
    StepModel { session, events: Seq::empty(), end: None }
}

/// One event comes of it.
pub open spec fn telling(session: SessionModel, ev: EventModel) -> StepModel {
    StepModel { session, events: seq![ev], end: None }
}

/// The session ends.
pub open spec fn ending(session: SessionModel, end: EndModel) -> StepModel {
    StepModel { session, events: Seq::empty(), end: Some(end) }
}

/// The session ends with an error.
pub open spec fn failing(session: SessionModel, why: Seq<char>) -> StepModel {
    ending(session, EndModel::Error(why))
}

/// What is to be written to the socket, and the session once that is taken.
pub open spec fn taken(s: SessionModel) -> (Seq<JsonModel>, SessionModel) {
    (s.req.outbox, SessionModel { req: RequestsModel { outbox: Seq::empty(), ..s.req }, ..s })
}

impl Step {
    /// What the step made of the session `s`.
    pub open spec fn on(self, s: SessionModel) -> StepModel {
        StepModel { session: s, events: self.events.deep_view(), end: self.end.deep_view() }
    }

    fn quiet() -> (r: Step)
        ensures
            forall|s: SessionModel| r.on(s) == quiet(s),
    {
        let r = Step { events: Vec::new(), end: None };
        assert(r.events.deep_view() =~= Seq::empty());
        r
    }

    fn telling(ev: HaEvent) -> (r: Step)
        ensures
            forall|s: SessionModel| r.on(s) == telling(s, ev@),
    {
        let mut events: Vec<HaEvent> = Vec::new();
        events.push(ev);
        let r = Step { events, end: None };
        assert(r.events.deep_view() =~= seq![ev@]);
        r
    }

    fn ending(end: SessionEnd) -> (r: Step)
        ensures
            forall|s: SessionModel| r.on(s) == ending(s, end@),
    {
        let r = Step { events: Vec::new(), end: Some(end) };
        assert(r.events.deep_view() =~= Seq::empty());
        r
    }

    fn failing(why: String) -> (r: Step)
        ensures
            forall|s: SessionModel| r.on(s) == failing(s, why@),
    {
        Step::ending(SessionEnd::Error(why))
    }
}

/// A request to be told of the events of one type.
pub open spec fn subscription(event_type: Seq<char>) -> AttributesModel {
    crate::strmap::put(super::client::ask("subscribe_events"@), "event_type"@, JsonModel::Text(event_type))
}

/// The requests that open a session: subscribe to changes before fetching states, so that no change
/// slips between the two, then fetch everything.
pub open spec fn opening(now: u64) -> RequestsModel {
    RequestsModel { next_id: 0, pending: Seq::empty(), outbox: Seq::empty() }
        .asked(subscription("state_changed"@), PendingModel::Subscribe, now)
        .asked(subscription(Registry::Areas.event()), PendingModel::SubscribeRegistry, now)
        .asked(subscription(Registry::Devices.event()), PendingModel::SubscribeRegistry, now)
        .asked(subscription(Registry::Entities.event()), PendingModel::SubscribeRegistry, now)
        .asked(super::client::ask(Registry::Areas.listing()), PendingModel::Areas, now)
        .asked(super::client::ask(Registry::Devices.listing()), PendingModel::Devices, now)
        .asked(super::client::ask(Registry::Entities.listing()), PendingModel::Entities, now)
        .asked(super::client::ask("get_states"@), PendingModel::States, now)
}

/// A session at its start.
pub open spec fn started(now: u64) -> SessionModel {
    SessionModel {
        req: opening(now),
        snapshot: super::client::empty_snapshot(),
        left: 4,
        early: Seq::empty(),
        stale: Seq::empty(),
        refresh_at: None,
        ping: None,
    }
}

/// A new session satisfies what holds of every session.
pub proof fn lemma_started(now: u64)
    ensures
        started(now).wf(),
        started(now).req.next_id == 8,
{
    reveal_with_fuel(lists, 9);
    let p = opening(now).pending;
    assert(p.len() == 8);
    assert(forall|i: int| 0 <= i < 8 ==> #[trigger] p[i].id == i + 1);
    assert(lists(p) == 4);
}

/// When to refetch after a change told of at `now`.
pub open spec fn debounced(now: u64) -> u64 {
    if now + REGISTRY_DEBOUNCE > u64::MAX {
        u64::MAX
    } else {
        (now + REGISTRY_DEBOUNCE) as u64
    }
}

/// What an event message leads to. `decoded` is what its new state was read as.
pub open spec fn on_event(
    s: SessionModel,
    v: JsonModel,
    decoded: Option<EntityModel>,
    now: u64,
) -> StepModel {
    match state_change(v, decoded) {
        Some(ev) => if s.left > 0 {
            quiet(SessionModel { early: s.early.push(ev), ..s })
        } else {
            telling(s, ev)
        },
        None => match registry_change(v) {
            Some(r) => quiet(
                SessionModel {
                    stale: if s.stale.contains(r) { s.stale } else { s.stale.push(r) },
                    refresh_at: match s.refresh_at {
                        Some(at) => Some(at),
                        None => Some(debounced(now)),
                    },
                    ..s
                },
            ),
            None => quiet(s),
        },
    }
}

/// The snapshot with one of its lists filled in.
pub open spec fn filled(
    snap: SnapshotModel,
    kind: PendingModel,
    d: DecodedModel,
) -> Result<SnapshotModel, Seq<char>> {
    match kind {
        PendingModel::States => match d.states() {
            Ok(states) => Ok(SnapshotModel { states, ..snap }),
            Err(e) => Err(e),
        },
        PendingModel::Areas => match d.areas() {
            Ok(areas) => Ok(SnapshotModel { areas, ..snap }),
            Err(e) => Err(e),
        },
        PendingModel::Devices => match d.devices() {
            Ok(devices) => Ok(SnapshotModel { devices, ..snap }),
            Err(e) => Err(e),
        },
        _ => match d.entities() {
            Ok(entities) => Ok(SnapshotModel { entities, ..snap }),
            Err(e) => Err(e),
        },
    }
}

/// The update that a refetched registry is.
pub open spec fn refetched(r: Registry, d: DecodedModel) -> Option<UpdateModel> {
    match r {
        Registry::Areas => match d.areas() {
            Ok(l) => Some(UpdateModel::Areas(l)),
            Err(_) => None,
        },
        Registry::Devices => match d.devices() {
            Ok(l) => Some(UpdateModel::Devices(l)),
            Err(_) => None,
        },
        Registry::Entities => match d.entities() {
            Ok(l) => Some(UpdateModel::Entities(l)),
            Err(_) => None,
        },
    }
}

/// What the reply to a request of the given kind leads to, the request no longer waiting.
pub open spec fn on_reply(
    s: SessionModel,
    kind: PendingModel,
    v: JsonModel,
    d: DecodedModel,
) -> StepModel {
    let ok = crate::json::truth(crate::json::at(v, "success"@)) == Some(true);
    let error = match crate::json::text(crate::json::at(crate::json::at(v, "error"@), "message"@)) {
        Some(m) => m,
        None => "request failed"@,
    };
    let result = crate::json::at(v, "result"@);
    match kind {
        PendingModel::Subscribe => if ok {
            quiet(s)
        } else {
            failing(s, "subscribe failed: "@ + error)
        },
        PendingModel::SubscribeRegistry => quiet(s),
        // A failed refetch keeps the previous data; the next change event or a manual resync brings
        // it up to date.
        PendingModel::Refresh(r) => match refetched(r, d) {
            Some(u) => if ok { telling(s, EventModel::Registry(u)) } else { quiet(s) },
            None => quiet(s),
        },
        PendingModel::Service(label) => telling(
            s,
            EventModel::ServiceResult { label, error: if ok { None } else { Some(error) } },
        ),
        PendingModel::History(entity_id) => telling(
            s,
            if ok {
                EventModel::History { entity_id, points: history(result, entity_id) }
            } else {
                EventModel::HistoryFailed { entity_id, error }
            },
        ),
        PendingModel::Logbook(entity_id) => telling(
            s,
            EventModel::Logbook { entity_id, result: if ok { Ok(logbook(result)) } else { Err(error) } },
        ),
        _ => if !ok {
            failing(s, "bootstrap failed: "@ + error)
        } else {
            match filled(s.snapshot, kind, d) {
                Err(e) => failing(s, "bootstrap parse: "@ + e),
                Ok(snap) => if s.left == 1 {
                    StepModel {
                        session: SessionModel {
                            snapshot: super::client::empty_snapshot(),
                            left: 0,
                            early: Seq::empty(),
                            ..s
                        },
                        events: seq![EventModel::Snapshot(snap)] + s.early,
                        end: None,
                    }
                } else {
                    quiet(SessionModel { snapshot: snap, left: s.left - 1, ..s })
                },
            }
        },
    }
}

/// What a message leads to. `d` is what its data was read as.
pub open spec fn on_message(s: SessionModel, v: JsonModel, d: DecodedModel, now: u64) -> StepModel {
    let kind = crate::json::text(crate::json::at(v, "type"@));
    let id = super::client::id_in(v);
    if kind == Some("event"@) {
        on_event(s, v, d.state(), now)
    } else if kind == Some("pong"@) {
        quiet(SessionModel { ping: if id == s.ping { None } else { s.ping }, ..s })
    } else if kind == Some("result"@) {
        match id {
            Some(id) => {
                let p = s.req.pending;
                let i = super::client::waiting_at(p, id);
                if i < p.len() {
                    on_reply(
                        SessionModel { req: RequestsModel { pending: p.remove(i), ..s.req }, ..s },
                        p[i].kind,
                        v,
                        d,
                    )
                } else {
                    quiet(s)
                }
            },
            None => quiet(s),
        }
    } else {
        quiet(s)
    }
}

/// The part of a message that has to be read as data of Home Assistant, before the message is handled.
pub open spec fn part(s: SessionModel, v: JsonModel) -> Part {
    let kind = crate::json::text(crate::json::at(v, "type"@));
    let id = super::client::id_in(v);
    if kind == Some("event"@) {
        Part::State
    } else if kind == Some("result"@) && id is Some && super::client::waiting_at(s.req.pending, id->0) < s.req.pending.len() {
        match s.req.pending[super::client::waiting_at(s.req.pending, id->0)].kind {
            PendingModel::States => Part::States,
            PendingModel::Areas => Part::Areas,
            PendingModel::Devices => Part::Devices,
            PendingModel::Entities => Part::Entities,
            PendingModel::Refresh(Registry::Areas) => Part::Areas,
            PendingModel::Refresh(Registry::Devices) => Part::Devices,
            PendingModel::Refresh(Registry::Entities) => Part::Entities,
            _ => Part::Nothing,
        }
    } else {
        Part::Nothing
    }
}

/// The request that calls a service.
pub open spec fn service_request(call: CallModel) -> AttributesModel {
    let body = crate::strmap::put(
        crate::strmap::put(
            crate::strmap::put(super::client::ask("call_service"@), "domain"@, JsonModel::Text(call.domain)),
            "service"@,
            JsonModel::Text(call.service),
        ),
        "service_data"@,
        JsonModel::Object(call.data),
    );
    match call.entity_id {
        Some(id) => crate::strmap::put(
            body,
            "target"@,
            JsonModel::Object(seq![("entity_id"@, JsonModel::Text(id))]),
        ),
        None => body,
    }
}

/// The request for an entity's history from a time, as that is written.
pub open spec fn history_request(entity_id: Seq<char>, since: Seq<char>) -> AttributesModel {
    let a = crate::strmap::put(
        super::client::ask("history/history_during_period"@),
        "start_time"@,
        JsonModel::Text(since),
    );
    let b = crate::strmap::put(
        a,
        "entity_ids"@,
        JsonModel::List(seq![JsonModel::Text(entity_id)]),
    );
    let c = crate::strmap::put(b, "minimal_response"@, JsonModel::Bool(true));
    let d = crate::strmap::put(c, "no_attributes"@, JsonModel::Bool(true));
    let e = crate::strmap::put(d, "include_start_time_state"@, JsonModel::Bool(true));
    crate::strmap::put(e, "significant_changes_only"@, JsonModel::Bool(false))
}

/// The request for the logbook between two times, as they are written.
pub open spec fn logbook_request(
    since: Seq<char>,
    until: Seq<char>,
    entity_id: Option<Seq<char>>,
) -> AttributesModel {
    let body = crate::strmap::put(
        crate::strmap::put(
            super::client::ask("logbook/get_events"@),
            "start_time"@,
            JsonModel::Text(since),
        ),
        "end_time"@,
        JsonModel::Text(until),
    );
    match entity_id {
        Some(id) => crate::strmap::put(
            body,
            "entity_ids"@,
            JsonModel::List(seq![JsonModel::Text(id)]),
        ),
        None => body,
    }
}

/// What a command leads to; `None` is the end of the commands. Until the snapshot is in, the UI still
/// shows the previous session's states, so services are not called.
pub open spec fn on_command(
    s: SessionModel,
    cmd: Option<CommandModel>,
    now: u64,
    date: TimeModel,
) -> StepModel {
    match cmd {
        None => ending(s, EndModel::Shutdown),
        Some(CommandModel::Resync) => ending(s, EndModel::Resync),
        Some(CommandModel::CallService { call, label }) => if s.left > 0 {
            telling(
                s,
                EventModel::ServiceResult { label, error: Some("still loading from Home Assistant"@) },
            )
        } else {
            quiet(
                SessionModel {
                    req: s.req.asked(service_request(call), PendingModel::Service(label), now),
                    ..s
                },
            )
        },
        Some(CommandModel::History { entity_id, since }) => quiet(
            SessionModel {
                req: s.req.asked(
                    history_request(entity_id, crate::time::rfc3339_text(since)),
                    PendingModel::History(entity_id),
                    now,
                ),
                ..s
            },
        ),
        Some(CommandModel::Logbook { since, entity_id }) => quiet(
            SessionModel {
                req: s.req.asked(
                    logbook_request(crate::time::rfc3339_text(since), crate::time::rfc3339_text(date), entity_id),
                    PendingModel::Logbook(entity_id),
                    now,
                ),
                ..s
            },
        ),
    }
}

/// The requests with one for each of `stale`.
pub open spec fn refetching(r: RequestsModel, stale: Seq<Registry>, now: u64) -> RequestsModel
    decreases stale.len(),
{
    if stale.len() == 0 {
        r
    } else {
        refetching(r, stale.drop_last(), now).asked(
            super::client::ask(stale.last().listing()),
            PendingModel::Refresh(stale.last()),
            now,
        )
    }
}

/// When the stale registries are to be refetched: not before the snapshot is in.
pub open spec fn refresh_due(s: SessionModel) -> Option<u64> {
    if s.left == 0 {
        s.refresh_at
    } else {
        None
    }
}

/// Whether it is time for the refetch.
pub open spec fn is_due(s: SessionModel, now: u64) -> bool {
    refresh_due(s) matches Some(at) && at <= now
}

/// The stale registries are refetched, once it is time.
pub open spec fn on_refresh(s: SessionModel, now: u64) -> SessionModel {
    if is_due(s, now) {
        SessionModel { req: refetching(s.req, s.stale, now), stale: Seq::empty(), refresh_at: None, ..s }
    } else {
        s
    }
}

/// It is time for a ping. One that was not answered since the last ends the session.
pub open spec fn on_ping(s: SessionModel) -> StepModel {
    if s.ping is Some {
        failing(s, "ping timed out"@)
    } else {
        let req = s.req.written(super::client::ask("ping"@));
        quiet(SessionModel { req, ping: Some(req.next_id), ..s })
    }
}

/// The outcomes of requests that will never get their replies.
pub open spec fn failures(kinds: Seq<PendingModel>, why: Seq<char>) -> Seq<EventModel>
    decreases kinds.len(),
{
    if kinds.len() == 0 {
        Seq::empty()
    } else {
        match super::client::failure(kinds.last(), why) {
            Some(ev) => failures(kinds.drop_last(), why).push(ev),
            None => failures(kinds.drop_last(), why),
        }
    }
}

/// Whether the connection is of no use without one of the replies.
pub open spec fn vital(kinds: Seq<PendingModel>) -> bool {
    exists|i: int| 0 <= i < kinds.len() && (#[trigger] kinds[i]).is_bootstrap()
}

/// Requests that went unanswered for `after` are given up.
pub open spec fn on_sweep(s: SessionModel, after: u64, now: u64) -> StepModel {
    let kinds = super::client::overdue_kinds(s.req.pending, after, now);
    StepModel {
        session: SessionModel {
            req: RequestsModel {
                pending: super::client::in_time(s.req.pending, after, now),
                ..s.req
            },
            ..s
        },
        events: failures(kinds, "no reply from Home Assistant"@),
        end: if vital(kinds) {
            Some(EndModel::Error("timed out loading from Home Assistant"@))
        } else {
            None
        },
    }
}

/// The kinds of the requests that are waiting.
pub open spec fn kinds(p: Seq<WaitingModel>) -> Seq<PendingModel> {
    p.map_values(|w: WaitingModel| w.kind)
}

/// The outcomes that are still owed when the session ends.
pub open spec fn leftovers(s: SessionModel, end: EndModel) -> Seq<EventModel> {
    failures(kinds(s.req.pending), if end is Resync { "cancelled by resync"@ } else { "connection lost"@ })
}

/// Put what failing the requests comes to behind `out`.
fn fail_all(kinds: Vec<Pending>, why: &str) -> (r: (Vec<HaEvent>, bool))
    ensures
        r.0.deep_view() == failures(kinds.deep_view(), why@),
        r.1 == vital(kinds.deep_view()),
{
    let ghost all = kinds.deep_view();
    let ghost raw = kinds@;
    let mut out: Vec<HaEvent> = Vec::new();
    let mut lost = false;
    assert(out.deep_view() =~= Seq::empty());
    for kind in it: kinds
        invariant
            it.seq() == raw,
            raw.len() == all.len(),
            forall|i: int| 0 <= i < raw.len() ==> #[trigger] raw[i]@ == all[i],
            out.deep_view() == failures(all.take(it.index() as int), why@),
            lost == vital(all.take(it.index() as int)),
    {
        let ghost i = it.index() as int;
        let ghost now = all.take(i + 1);
        assert(now.drop_last() =~= all.take(i));
        assert(now.last() == kind@);
        let ghost o0 = out.deep_view();
        let fatal = kind.is_bootstrap();
        proof {
            if vital(all.take(i)) {
                let j = choose|j: int| 0 <= j < all.take(i).len() && (#[trigger] all.take(i)[j]).is_bootstrap();
                assert(now[j].is_bootstrap());
            }
            if fatal {
                assert(now[i].is_bootstrap());
            }
            if vital(now) {
                let j = choose|j: int| 0 <= j < now.len() && (#[trigger] now[j]).is_bootstrap();
                if j < i {
                    assert(all.take(i)[j].is_bootstrap());
                }
            }
        }
        if fatal {
            lost = true;
        }
        if let Some(ev) = fail(kind, why) {
            out.push(ev);
            assert(out.deep_view() =~= o0.push(ev@));
        }
    }
    assert(all.take(all.len() as int) =~= all);
    (out, lost)
}

impl Session {
    /// Start a session: everything it opens with is to be written.
    pub fn start(now: u64) -> (r: Session)
        ensures
            r@ == started(now),
            r@.wf(),
            r@.req.next_id == 8,
    {
        let mut req = Requests::default();
        req.send(subscribe("state_changed"), Pending::Subscribe, now);
        req.send(subscribe(Registry::Areas.updated_event()), Pending::SubscribeRegistry, now);
        req.send(subscribe(Registry::Devices.updated_event()), Pending::SubscribeRegistry, now);
        req.send(subscribe(Registry::Entities.updated_event()), Pending::SubscribeRegistry, now);
        req.send(asking(Registry::Areas.list_type()), Pending::Areas, now);
        req.send(asking(Registry::Devices.list_type()), Pending::Devices, now);
        req.send(asking(Registry::Entities.list_type()), Pending::Entities, now);
        req.send(asking("get_states"), Pending::States, now);
        let r = Session {
            req,
            snapshot: Snapshot::default(),
            bootstrap_left: 4,
            early_changes: Vec::new(),
            stale: Vec::new(),
            refresh_at: None,
            ping_outstanding: None,
        };
        assert(r@ =~= started(now));
        proof {
            lemma_started(now);
        }
        r
    }

    /// Take what is to be written to the socket.
    pub fn take_outbox(&mut self) -> (r: Vec<Json>)
        ensures
            (r.deep_view(), final(self)@) == taken(old(self)@),
            r.deep_view() == old(self)@.req.outbox,
            final(self)@ == (SessionModel {
                req: RequestsModel { outbox: Seq::empty(), ..old(self)@.req },
                ..old(self)@
            }),
    {
        let mut out: Vec<Json> = Vec::new();
        std::mem::swap(&mut out, &mut self.req.outbox);
        assert(self@ =~= SessionModel { req: RequestsModel { outbox: Seq::empty(), ..old(self)@.req }, ..old(self)@ });
        out
    }

    /// The part of a message that has to be read as data before the message is handled.
    pub fn part_of(&self, v: &Json) -> (r: Part)
        ensures
            r == part(self@, v@),
    {
        match v.text_at("type") {
            Some(t) => if same(t, "event") {
                Part::State
            } else if same(t, "result") {
                match id_of(v) {
                    Some(id) => match self.req.find(id) {
                        Some(kind) => match kind {
                            Pending::States => Part::States,
                            Pending::Areas => Part::Areas,
                            Pending::Devices => Part::Devices,
                            Pending::Entities => Part::Entities,
                            Pending::Refresh(Registry::Areas) => Part::Areas,
                            Pending::Refresh(Registry::Devices) => Part::Devices,
                            Pending::Refresh(Registry::Entities) => Part::Entities,
                            _ => Part::Nothing,
                        },
                        None => Part::Nothing,
                    },
                    None => Part::Nothing,
                }
            } else {
                Part::Nothing
            },
            None => Part::Nothing,
        }
    }

    /// Handle an event message.
    fn on_event(&mut self, v: &Json, decoded: Option<EntityState>, now: u64) -> (r: Step)
        ensures
            r.on(final(self)@) == on_event(old(self)@, v@, decoded.deep_view(), now),
    {
        let ghost before = self@;
        if let Some(ev) = parse_state_changed(v, decoded) {
            if self.bootstrap_left > 0 {
                self.early_changes.push(ev);
                assert(self@ =~= SessionModel { early: before.early.push(ev@), ..before });
                Step::quiet()
            } else {
                Step::telling(ev)
            }
        } else if let Some(r) = parse_registry_event(v) {
            if !contains(&self.stale, r) {
                self.stale.push(r);
            }
            if self.refresh_at.is_none() {
                self.refresh_at = Some(if now <= u64::MAX - REGISTRY_DEBOUNCE { now + REGISTRY_DEBOUNCE } else { u64::MAX });
            }
            Step::quiet()
        } else {
            Step::quiet()
        }
    }

    /// Fill in one of the snapshot's lists.
    fn fill(&mut self, kind: Pending, d: Decoded) -> (r: Result<(), String>)
        requires
            kind@.is_list(),
        ensures
            match r {
                Ok(_) => filled(old(self)@.snapshot, kind@, d@) == Ok::<_, Seq<char>>(final(self)@.snapshot),
                Err(e) => filled(old(self)@.snapshot, kind@, d@) == Err::<SnapshotModel, _>(e@) && final(self)@.snapshot == old(self)@.snapshot,
            },
            final(self)@ == (SessionModel { snapshot: final(self)@.snapshot, ..old(self)@ }),
    {
        match kind {
            Pending::States => match d.states() {
                Ok(l) => {
                    self.snapshot.states = l;
                    Ok(())
                },
                Err(e) => Err(e),
            },
            Pending::Areas => match d.areas() {
                Ok(l) => {
                    self.snapshot.areas = l;
                    Ok(())
                },
                Err(e) => Err(e),
            },
            Pending::Devices => match d.devices() {
                Ok(l) => {
                    self.snapshot.devices = l;
                    Ok(())
                },
                Err(e) => Err(e),
            },
            _ => match d.entities() {
                Ok(l) => {
                    self.snapshot.entities = l;
                    Ok(())
                },
                Err(e) => Err(e),
            },
        }
    }

    /// Handle the reply that fills in one of the snapshot's lists.
    fn on_list(&mut self, kind: Pending, d: Decoded) -> (r: Step)
        requires
            kind@.is_list(),
            old(self)@.left > 0,
        ensures
            r.on(final(self)@) == (match filled(old(self)@.snapshot, kind@, d@) {
                Err(e) => failing(old(self)@, "bootstrap parse: "@ + e),
                Ok(snap) => if old(self)@.left == 1 {
                    StepModel {
                        session: SessionModel { snapshot: super::client::empty_snapshot(), left: 0, early: Seq::empty(), ..old(self)@ },
                        events: seq![EventModel::Snapshot(snap)] + old(self)@.early,
                        end: None,
                    }
                } else {
                    quiet(SessionModel { snapshot: snap, left: old(self)@.left - 1, ..old(self)@ })
                },
            }),
    {
        let ghost before = self@;
        if let Err(e) = self.fill(kind, d) {
            return Step::failing(text::cat2("bootstrap parse: ", e.as_str()));
        }
        self.bootstrap_left = self.bootstrap_left - 1;
        if self.bootstrap_left > 0 {
            return Step::quiet();
        }
        let mut snapshot = Snapshot::default();
        std::mem::swap(&mut snapshot, &mut self.snapshot);
        let mut early: Vec<HaEvent> = Vec::new();
        std::mem::swap(&mut early, &mut self.early_changes);
        let mut events: Vec<HaEvent> = Vec::new();
        events.push(HaEvent::Snapshot(snapshot));
        events.append(&mut early);
        assert(events.deep_view() =~= seq![EventModel::Snapshot(snapshot@)] + before.early);
        assert(self@ =~= SessionModel { snapshot: super::client::empty_snapshot(), left: 0, early: Seq::empty(), ..before });
        Step { events, end: None }
    }

    /// Handle the reply to a request of the given kind, which is no longer waiting.
    fn on_reply(&mut self, kind: Pending, v: &Json, d: Decoded) -> (r: Step)
        requires
            kind@.is_list() ==> old(self)@.left > 0,
        ensures
            r.on(final(self)@) == on_reply(old(self)@, kind@, v@, d@),
    {
        let ok = match v.get("success") {
            Some(b) => match b.as_bool() {
                Some(b) => b,
                None => false,
            },
            None => false,
        };
        let message = match v.get("error") {
            Some(e) => e.text_at("message"),
            None => None,
        };
        let error = match message {
            Some(m) => m,
            None => "request failed",
        };
        match kind {
            Pending::Subscribe => if ok {
                Step::quiet()
            } else {
                Step::failing(text::cat2("subscribe failed: ", error))
            },
            Pending::SubscribeRegistry => Step::quiet(),
            Pending::Refresh(registry) => {
                if !ok {
                    return Step::quiet();
                }
                let update = match registry {
                    Registry::Areas => match d.areas() {
                        Ok(l) => Some(RegistryUpdate::Areas(l)),
                        Err(_) => None,
                    },
                    Registry::Devices => match d.devices() {
                        Ok(l) => Some(RegistryUpdate::Devices(l)),
                        Err(_) => None,
                    },
                    Registry::Entities => match d.entities() {
                        Ok(l) => Some(RegistryUpdate::Entities(l)),
                        Err(_) => None,
                    },
                };
                match update {
                    Some(u) => Step::telling(HaEvent::Registry(u)),
                    None => Step::quiet(),
                }
            },
            Pending::Service(label) => Step::telling(
                HaEvent::ServiceResult { label, result: if ok { Ok(()) } else { Err(error.to_owned()) } },
            ),
            Pending::History(entity_id) => if ok {
                let points = parse_history(v.get("result"), entity_id.as_str());
                Step::telling(HaEvent::History { entity_id, points })
            } else {
                Step::telling(HaEvent::HistoryFailed { entity_id, error: error.to_owned() })
            },
            Pending::Logbook(entity_id) => {
                let result = if ok { Ok(parse_logbook(v.get("result"))) } else { Err(error.to_owned()) };
                Step::telling(HaEvent::Logbook { entity_id, result })
            },
            kind => if ok {
                self.on_list(kind, d)
            } else {
                Step::failing(text::cat2("bootstrap failed: ", error))
            },
        }
    }

    /// Handle a message. `d` is what its data was read as.
    pub fn on_message(&mut self, v: &Json, d: Decoded, now: u64) -> (r: Step)
        requires
            old(self)@.wf(),
        ensures
            r.on(final(self)@) == on_message(old(self)@, v@, d@, now),
            final(self)@.wf() || r.end is Some,
            final(self)@.req.wf(),
    {
        proof {
            lemma_message(self@, v@, d@, now);
        }
        let ghost before = self@;
        let kind = match v.text_at("type") {
            Some(t) => t,
            None => return Step::quiet(),
        };
        if same(kind, "event") {
            self.on_event(v, d.state(), now)
        } else if same(kind, "pong") {
            if id_of(v) == self.ping_outstanding {
                self.ping_outstanding = None;
            }
            Step::quiet()
        } else if same(kind, "result") {
            match id_of(v) {
                Some(id) => match self.req.answered(id) {
                    Some(kind) => {
                        proof {
                            let p = before.req.pending;
                            let i = super::client::waiting_at(p, id as nat);
                            lemma_waiting_at(p, id as nat);
                            lemma_lists_remove(p, i);
                        }
                        self.on_reply(kind, v, d)
                    },
                    None => Step::quiet(),
                },
                None => Step::quiet(),
            }
        } else {
            Step::quiet()
        }
    }

    /// Handle a command; `None` is the end of the commands.
    pub fn on_command(&mut self, cmd: Option<HaCommand>, now: u64, date: &Timestamp) -> (r: Step)
        requires
            old(self)@.wf(),
            old(self)@.req.next_id < u64::MAX,
        ensures
            r.on(final(self)@) == on_command(old(self)@, cmd.deep_view(), now, date@),
            final(self)@.wf(),
    {
        let ghost before = self@;
        proof {
            lemma_command(self@, cmd.deep_view(), now, date@);
        }
        match cmd {
            None => Step::ending(SessionEnd::Shutdown),
            Some(HaCommand::Resync) => Step::ending(SessionEnd::Resync),
            Some(HaCommand::CallService { call, label }) => {
                if self.bootstrap_left > 0 {
                    return Step::telling(
                        HaEvent::ServiceResult { label, result: Err("still loading from Home Assistant".to_owned()) },
                    );
                }
                let a = put(asking("call_service"), "domain", Json::text(call.domain));
                let b = put(a, "service", Json::text(call.service));
                let c = put(b, "service_data", Json::object(call.data));
                let body = match call.entity_id {
                    Some(id) => {
                        let target = single("entity_id", Json::text(id));
                        put(c, "target", Json::object(target))
                    },
                    None => c,
                };
                self.req.send(body, Pending::Service(label), now);
                Step::quiet()
            },
            Some(HaCommand::History { entity_id, since }) => {
                let body = history_body(entity_id.as_str(), since.to_rfc3339());
                self.req.send(body, Pending::History(entity_id), now);
                Step::quiet()
            },
            Some(HaCommand::Logbook { since, entity_id }) => {
                let body = logbook_body(since.to_rfc3339(), date.to_rfc3339(), &entity_id);
                self.req.send(body, Pending::Logbook(entity_id), now);
                Step::quiet()
            },
        }
    }

    /// When the stale registries are to be refetched.
    pub fn refresh_due(&self) -> (r: Option<u64>)
        ensures
            r == refresh_due(self@),
    {
        if self.bootstrap_left == 0 {
            self.refresh_at
        } else {
            None
        }
    }

    /// Refetch the stale registries, once it is time.
    pub fn on_refresh(&mut self, now: u64)
        requires
            old(self)@.wf(),
            old(self)@.req.next_id <= u64::MAX - 3,
        ensures
            final(self)@ == on_refresh(old(self)@, now),
            final(self)@.wf(),
    {
        let ghost before = self@;
        proof {
            lemma_refresh(self@, now);
        }
        match self.refresh_due() {
            Some(at) => if at > now {
                return;
            },
            None => return,
        }
        let mut stale: Vec<Registry> = Vec::new();
        std::mem::swap(&mut stale, &mut self.stale);
        let ghost all = stale@;
        let n: usize = stale.len();
        proof {
            lemma_three(all);
        }
        for i in 0..n
            invariant
                n == stale@.len(),
                n <= 3,
                all == stale@,
                before.req.next_id <= u64::MAX - 3,
                self.req@ == refetching(before.req, all.take(i as int), now),
                self.req@.next_id == before.req.next_id + i,
                self@ == (SessionModel { req: self.req@, stale: Seq::empty(), ..before }),
        {
            assert(all.take(i + 1).drop_last() =~= all.take(i as int));
            let registry = stale[i];
            self.req.send(asking(registry.list_type()), Pending::Refresh(registry), now);
        }
        assert(all.take(n as int) =~= all);
        self.refresh_at = None;
    }

    /// Send a ping, unless the last one was not answered.
    pub fn on_ping(&mut self) -> (r: Step)
        requires
            old(self)@.wf(),
            old(self)@.req.next_id < u64::MAX,
        ensures
            r.on(final(self)@) == on_ping(old(self)@),
            final(self)@.wf(),
    {
        if self.ping_outstanding.is_some() {
            return Step::failing("ping timed out".to_owned());
        }
        let id: u64 = self.req.send_untracked(asking("ping"));
        self.ping_outstanding = Some(id);
        Step::quiet()
    }

    /// Give up requests that went unanswered for `after`.
    pub fn on_sweep(&mut self, after: u64, now: u64) -> (r: Step)
        requires
            old(self)@.wf(),
        ensures
            r.on(final(self)@) == on_sweep(old(self)@, after, now),
            final(self)@.wf() || r.end is Some,
            final(self)@.req.wf(),
    {
        let ghost before = self@;
        proof {
            lemma_sweep(self@, after, now);
        }
        let kinds = self.req.expired(after, now);
        let (events, lost) = fail_all(kinds, "no reply from Home Assistant");
        let end = if lost {
            Some(SessionEnd::Error("timed out loading from Home Assistant".to_owned()))
        } else {
            None
        };
        Step { events, end }
    }

    /// Report what is still outstanding when the session ends.
    pub fn finish(self, end: &SessionEnd) -> (r: Vec<HaEvent>)
        ensures
            r.deep_view() == leftovers(self@, end@),
    {
        let why = match end {
            SessionEnd::Resync => "cancelled by resync",
            _ => "connection lost",
        };
        let pending = self.req.pending;
        let ghost all = pending.deep_view();
        let ghost raw = pending@;
        let mut out: Vec<Pending> = Vec::new();
        for w in it: pending
            invariant
                it.seq() == raw,
                raw.len() == all.len(),
                forall|i: int| 0 <= i < raw.len() ==> #[trigger] raw[i]@ == all[i],
                out.deep_view() == kinds(all.take(it.index() as int)),
        {
            let ghost i = it.index() as int;
            let ghost o0 = out.deep_view();
            out.push(w.kind);
            assert(all[i] == w@);
            assert(out.deep_view() =~= o0.push(w.kind@));
            assert(kinds(all.take(i + 1)) =~= kinds(all.take(i)).push(w.kind@));
        }
        assert(all.take(all.len() as int) =~= all);
        let (events, _) = fail_all(out, why);
        events
    }
}

/// Whether `r` is among `l`.
fn contains(l: &Vec<Registry>, r: Registry) -> (b: bool)
    ensures
        b == l@.contains(r),
{
    let n: usize = l.len();
    for i in 0..n
        invariant
            n == l@.len(),
            forall|j: int| 0 <= j < i ==> l@[j] != r,
    {
        if l[i] == r {
            return true;
        }
    }
    false
}

/// The id of a message.
fn id_of(v: &Json) -> (r: Option<u64>)
    ensures
        r == crate::json::uint(crate::json::at(v@, "id"@)),
{
    match v.get("id") {
        Some(id) => id.as_u64(),
        None => None,
    }
}

fn subscribe(event_type: &str) -> (r: StrMap<Json>)
    ensures
        r.deep_view() == subscription(event_type@),
{
    put(asking("subscribe_events"), "event_type", Json::text(event_type.to_owned()))
}

/// A map with one key.
fn single(k: &str, v: Json) -> (r: StrMap<Json>)
    ensures
        r.deep_view() == seq![(k@, v@)],
{
    let m: StrMap<Json> = StrMap::new();
    assert(m.deep_view() =~= Seq::empty());
    proof {
        crate::strmap::lemma_place(m.deep_view(), k@);
    }
    let r = put(m, k, v);
    assert(r.deep_view() =~= seq![(k@, v@)]);
    r
}

/// A list of one text.
fn only(s: &str) -> (r: Json)
    ensures
        r@ == JsonModel::List(seq![JsonModel::Text(s@)]),
{
    let mut l: Vec<Json> = Vec::new();
    l.push(Json::text(s.to_owned()));
    assert(l.deep_view() =~= seq![JsonModel::Text(s@)]);
    Json::list(l)
}

/// The body of the request for an entity's history from a time, as that is written.
pub fn history_body(entity_id: &str, since: String) -> (r: StrMap<Json>)
    ensures
        r.deep_view() == history_request(entity_id@, since@),
{
    let a = put(asking("history/history_during_period"), "start_time", Json::text(since));
    let b = put(a, "entity_ids", only(entity_id));
    let c = put(b, "minimal_response", Json::flag(true));
    let d = put(c, "no_attributes", Json::flag(true));
    let e = put(d, "include_start_time_state", Json::flag(true));
    put(e, "significant_changes_only", Json::flag(false))
}

/// The body of the request for the logbook between two times, as they are written.
pub fn logbook_body(since: String, until: String, entity_id: &Option<String>) -> (r: StrMap<Json>)
    ensures
        r.deep_view() == logbook_request(since@, until@, entity_id.deep_view()),
{
    let a = put(asking("logbook/get_events"), "start_time", Json::text(since));
    let b = put(a, "end_time", Json::text(until));
    match entity_id {
        Some(id) => put(b, "entity_ids", only(id.as_str())),
        None => b,
    }
}

// ----- What every step keeps ----------------------------------------------------------

proof fn lemma_lists_push(p: Seq<WaitingModel>, w: WaitingModel)
    ensures
        lists(p.push(w)) == lists(p) + if w.kind.is_list() { 1int } else { 0 },
{
    assert(p.push(w).drop_last() =~= p);
}

pub proof fn lemma_lists_remove(p: Seq<WaitingModel>, i: int)
    requires
        0 <= i < p.len(),
    ensures
        lists(p.remove(i)) == lists(p) - if p[i].kind.is_list() { 1int } else { 0 },
        0 <= lists(p.remove(i)),
    decreases p.len(),
{
    let q = p.remove(i);
    lemma_lists_bound(q);
    if i == p.len() - 1 {
        assert(q =~= p.drop_last());
    } else {
        assert(q.drop_last() =~= p.drop_last().remove(i));
        assert(q.last() == p.last());
        lemma_lists_remove(p.drop_last(), i);
    }
}

proof fn lemma_lists_bound(p: Seq<WaitingModel>)
    ensures
        0 <= lists(p) <= p.len(),
    decreases p.len(),
{
    if p.len() > 0 {
        lemma_lists_bound(p.drop_last());
    }
}

pub proof fn lemma_waiting_at(p: Seq<WaitingModel>, id: nat)
    ensures
        0 <= super::client::waiting_at(p, id) <= p.len(),
        super::client::waiting_at(p, id) < p.len() ==> p[super::client::waiting_at(p, id)].id == id,
    decreases p.len(),
{
    if p.len() > 0 && p[0].id != id {
        lemma_waiting_at(p.drop_first(), id);
    }
}

pub proof fn lemma_waiting_found(p: Seq<WaitingModel>, i: int)
    requires
        0 <= i < p.len(),
        forall|a: int, b: int| 0 <= a < b < p.len() ==> #[trigger] p[a].id < #[trigger] p[b].id,
    ensures
        super::client::waiting_at(p, p[i].id) == i,
    decreases p.len(),
{
    if i > 0 {
        let rest = p.drop_first();
        assert(p[0].id < p[i].id);
        assert(rest[i - 1] == p[i]);
        assert forall|a: int, b: int| 0 <= a < b < rest.len() implies #[trigger] rest[a].id < #[trigger] rest[b].id by {
            assert(rest[a] == p[a + 1] && rest[b] == p[b + 1]);
        }
        lemma_waiting_found(rest, i - 1);
    }
}

/// At most three registries can be stale.
pub proof fn lemma_three(s: Seq<Registry>)
    requires
        s.no_duplicates(),
    ensures
        s.len() <= 3,
{
    if s.len() > 3 {
        let a = s[0];
        let b = s[1];
        let c = s[2];
        let d = s[3];
        assert(a != b && a != c && a != d && b != c && b != d && c != d);
    }
}

/// A message leaves a session as sessions are, unless it ends it.
pub proof fn lemma_message(s: SessionModel, v: JsonModel, d: DecodedModel, now: u64)
    requires
        s.wf(),
    ensures
        on_message(s, v, d, now).session.wf() || on_message(s, v, d, now).end is Some,
        on_message(s, v, d, now).session.req.wf(),
{
    let kind = crate::json::text(crate::json::at(v, "type"@));
    let id = super::client::id_in(v);
    if kind == Some("result"@) && id is Some {
        let p = s.req.pending;
        let i = super::client::waiting_at(p, id->0);
        lemma_waiting_at(p, id->0);
        if i < p.len() {
            let q = p.remove(i);
            lemma_lists_remove(p, i);
            let t = SessionModel { req: RequestsModel { pending: q, ..s.req }, ..s };
            assert forall|a: int, b: int| 0 <= a < b < q.len() implies #[trigger] q[a].id < #[trigger] q[b].id by {
                let a1 = if a < i { a } else { a + 1 };
                let b1 = if b < i { b } else { b + 1 };
                assert(q[a] == p[a1] && q[b] == p[b1]);
            }
            assert forall|a: int| 0 <= a < q.len() implies 0 < #[trigger] q[a].id <= s.req.next_id by {
                assert(q[a] == p[if a < i { a } else { a + 1 }]);
            }
            assert forall|a: int| s.left > 0 && 0 <= a < q.len() implies !(#[trigger] q[a].kind is Refresh) by {
                assert(q[a] == p[if a < i { a } else { a + 1 }]);
            }
            assert(t.req.wf());
            assert(on_reply(t, p[i].kind, v, d).session.req == t.req);
        }
    }
}

/// Asking for something keeps the ids in order.
proof fn lemma_asked(r: RequestsModel, body: AttributesModel, kind: PendingModel, now: u64)
    requires
        r.wf(),
    ensures
        r.asked(body, kind, now).wf(),
        lists(r.asked(body, kind, now).pending) == lists(r.pending) + if kind.is_list() { 1int } else { 0 },
{
    lemma_lists_push(r.pending, WaitingModel { id: r.next_id + 1, kind, sent: now });
}

/// A command leaves a session as sessions are.
pub proof fn lemma_command(s: SessionModel, cmd: Option<CommandModel>, now: u64, date: TimeModel)
    requires
        s.wf(),
    ensures
        on_command(s, cmd, now, date).session.wf(),
{
    match cmd {
        Some(CommandModel::CallService { call, label }) => {
            lemma_asked(s.req, service_request(call), PendingModel::Service(label), now);
        },
        Some(CommandModel::History { entity_id, since }) => {
            lemma_asked(s.req, history_request(entity_id, crate::time::rfc3339_text(since)), PendingModel::History(entity_id), now);
        },
        Some(CommandModel::Logbook { since, entity_id }) => {
            lemma_asked(s.req, logbook_request(crate::time::rfc3339_text(since), crate::time::rfc3339_text(date), entity_id), PendingModel::Logbook(entity_id), now);
        },
        _ => {},
    }
}

pub proof fn lemma_refetching(r: RequestsModel, stale: Seq<Registry>, now: u64)
    requires
        r.wf(),
    ensures
        refetching(r, stale, now).wf(),
        refetching(r, stale, now).next_id == r.next_id + stale.len(),
        lists(refetching(r, stale, now).pending) == lists(r.pending),
    decreases stale.len(),
{
    if stale.len() > 0 {
        lemma_refetching(r, stale.drop_last(), now);
        lemma_asked(
            refetching(r, stale.drop_last(), now),
            super::client::ask(stale.last().listing()),
            PendingModel::Refresh(stale.last()),
            now,
        );
    }
}

/// Refetching leaves a session as sessions are.
pub proof fn lemma_refresh(s: SessionModel, now: u64)
    requires
        s.wf(),
    ensures
        on_refresh(s, now).wf(),
{
    lemma_three(s.stale);
    lemma_refetching(s.req, s.stale, now);
}

pub proof fn lemma_in_time(p: Seq<WaitingModel>, after: u64, now: u64)
    ensures
        forall|i: int| 0 <= i < super::client::in_time(p, after, now).len() ==> p.contains(#[trigger] super::client::in_time(p, after, now)[i]),
        forall|i: int| 0 <= i < super::client::in_time(p, after, now).len() ==> !super::client::overdue(#[trigger] super::client::in_time(p, after, now)[i].sent, after, now),
        !vital(super::client::overdue_kinds(p, after, now)) ==> lists(super::client::in_time(p, after, now)) == lists(p),
        (forall|i: int, j: int| 0 <= i < j < p.len() ==> #[trigger] p[i].id < #[trigger] p[j].id) ==>
            (forall|i: int, j: int| 0 <= i < j < super::client::in_time(p, after, now).len() ==>
                #[trigger] super::client::in_time(p, after, now)[i].id < #[trigger] super::client::in_time(p, after, now)[j].id),
    decreases p.len(),
{
    let t = super::client::in_time(p, after, now);
    if p.len() > 0 {
        let q = p.drop_last();
        let u = super::client::in_time(q, after, now);
        let k = super::client::overdue_kinds(p, after, now);
        let m = super::client::overdue_kinds(q, after, now);
        lemma_in_time(q, after, now);
        assert forall|i: int| 0 <= i < t.len() implies p.contains(#[trigger] t[i]) by {
            if i < u.len() {
                assert(q.contains(u[i]));
                let j = choose|j: int| 0 <= j < q.len() && q[j] == u[i];
                assert(p[j] == t[i]);
            } else {
                assert(p[p.len() - 1] == t[i]);
            }
        }
        if !vital(k) {
            assert(!vital(m)) by {
                if vital(m) {
                    let j = choose|j: int| 0 <= j < m.len() && (#[trigger] m[j]).is_bootstrap();
                    assert(k[j].is_bootstrap());
                }
            }
            if super::client::overdue(p.last().sent, after, now) {
                assert(k[k.len() - 1] == p.last().kind);
                assert(!p.last().kind.is_bootstrap());
            } else {
                lemma_lists_push(u, p.last());
            }
        }
        if forall|i: int, j: int| 0 <= i < j < p.len() ==> #[trigger] p[i].id < #[trigger] p[j].id {
            assert forall|i: int, j: int| 0 <= i < j < t.len() implies #[trigger] t[i].id < #[trigger] t[j].id by {
                if j == u.len() {
                    assert(q.contains(u[i]));
                    let a = choose|a: int| 0 <= a < q.len() && q[a] == u[i];
                    assert(p[a].id < p[p.len() - 1].id);
                }
            }
        }
    }
}

/// Giving up requests leaves a session as sessions are, unless it ends it.
pub proof fn lemma_sweep(s: SessionModel, after: u64, now: u64)
    requires
        s.wf(),
    ensures
        on_sweep(s, after, now).session.wf() || on_sweep(s, after, now).end is Some,
        on_sweep(s, after, now).session.req.wf(),
{
    let p = s.req.pending;
    let t = super::client::in_time(p, after, now);
    lemma_in_time(p, after, now);
    assert forall|i: int| 0 <= i < t.len() implies 0 < #[trigger] t[i].id <= s.req.next_id by {
        assert(p.contains(t[i]));
    }
    assert forall|i: int| s.left > 0 && 0 <= i < t.len() implies !(#[trigger] t[i].kind is Refresh) by {
        assert(p.contains(t[i]));
    }
}

} // verus!
