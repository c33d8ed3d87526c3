//! The conversation with Home Assistant over its WebSocket: what is asked, what the answers mean and
//! when a connection is given up.
//!
//! The UI sends [`HaCommand`]s and receives [`HaEvent`]s; it never touches the socket. Everything is
//! loaded again on every connection. Changes to the area, device and entity registries are pushed by
//! Home Assistant as events; the affected list is then refetched (coalescing bursts) and sent as
//! [`HaEvent::Registry`].
//!
//! Every command gets exactly one outcome. Commands are never held back and replayed on a later
//! connection: while disconnected, connecting or authenticating they are rejected, and service calls
//! are also rejected until the state mirror is loaded. Requests still in flight when a connection
//! ends, or that go unanswered for too long, are reported as failed. For service calls the outcome is
//! then unknown, since Home Assistant may already have run them.
//!
//! Spans of time are in milliseconds, on a clock that never goes back.

use super::types::{AreaModel, AttributesModel, CallModel, DeviceModel, EntityModel, LogModel, PointModel, RegistrationModel};
use super::types::{Area, DeviceRegistryEntry, EntityRegistryEntry, EntityState, HistoryPoint, LogbookEntry, ServiceCall};
use crate::json::{Json, JsonModel};
use crate::strmap::StrMap;
use crate::text;
use crate::time::{TimeModel, Timestamp};
use vstd::prelude::*;

verus! {

pub const PING_EVERY: u64 = 30_000;

pub const SWEEP_EVERY: u64 = 1_000;

pub const BACKOFF_MIN: u64 = 1_000;

pub const BACKOFF_MAX: u64 = 30_000;

/// Bulk edits send a burst of registry events; refetch once, this long after the first.
pub const REGISTRY_DEBOUNCE: u64 = 300;

/// How long to wait on Home Assistant before giving up.
#[derive(Debug, Clone, Copy)]
pub struct Timeouts {
    /// Opening the connection plus the auth handshake.
    pub connect: u64,
    /// The reply to a single request.
    pub request: u64,
    /// Writing a single message to the socket.
    pub write: u64,
}

impl Default for Timeouts {
    fn default() -> (r: Self)
        ensures
            r.connect == 15_000,
            r.request == 30_000,
            r.write == 10_000,
    {
        Timeouts { connect: 15_000, request: 30_000, write: 10_000 }
    }
}

// ----- What the UI and the client tell each other ------------------------------

#[derive(Debug, PartialEq)]
pub enum ConnStatus {
    Connecting,
    Connected { version: String },
    /// Connection dropped; a retry is scheduled after `retry_in`.
    Disconnected { error: String, retry_in: u64 },
    /// The token was rejected. The client stops retrying.
    AuthFailed(String),
}

#[derive(Debug, PartialEq)]
pub struct Snapshot {
    pub states: Vec<EntityState>,
    pub areas: Vec<Area>,
    pub devices: Vec<DeviceRegistryEntry>,
    pub entities: Vec<EntityRegistryEntry>,
}

/// A registry list refetched after Home Assistant reported a change to it.
#[derive(Debug, PartialEq)]
pub enum RegistryUpdate {
    Areas(Vec<Area>),
    Devices(Vec<DeviceRegistryEntry>),
    Entities(Vec<EntityRegistryEntry>),
}

#[derive(Debug, PartialEq)]
pub enum HaEvent {
    Status(ConnStatus),
    Snapshot(Snapshot),
    Registry(RegistryUpdate),
    StateChanged { entity_id: String, new_state: Option<EntityState> },
    ServiceResult { label: String, result: Result<(), String> },
    History { entity_id: String, points: Vec<HistoryPoint> },
    HistoryFailed { entity_id: String, error: String },
    Logbook {
        /// The entity filter the request was made with.
        entity_id: Option<String>,
        result: Result<Vec<LogbookEntry>, String>,
    },
}

#[derive(Debug, PartialEq)]
pub enum HaCommand {
    CallService { call: ServiceCall, label: String },
    History { entity_id: String, since: Timestamp },
    Logbook { since: Timestamp, entity_id: Option<String> },
    /// Drop the connection and load everything again.
    Resync,
}

/// What a [`ConnStatus`] stands for.
pub enum StatusModel {
    Connecting,
    Connected { version: Seq<char> },
    Disconnected { error: Seq<char>, retry_in: u64 },
    AuthFailed(Seq<char>),
}

/// What a [`Snapshot`] stands for.
#[verifier::ext_equal]
pub struct SnapshotModel {
    pub states: Seq<EntityModel>,
    pub areas: Seq<AreaModel>,
    pub devices: Seq<DeviceModel>,
    pub entities: Seq<RegistrationModel>,
}

/// What a [`RegistryUpdate`] stands for.
pub enum UpdateModel {
    Areas(Seq<AreaModel>),
    Devices(Seq<DeviceModel>),
    Entities(Seq<RegistrationModel>),
}

/// What an [`HaEvent`] stands for. A service's `error` is `None` where it was run.
pub enum EventModel {
    Status(StatusModel),
    Snapshot(SnapshotModel),
    Registry(UpdateModel),
    StateChanged { entity_id: Seq<char>, new_state: Option<EntityModel> },
    ServiceResult { label: Seq<char>, error: Option<Seq<char>> },
    History { entity_id: Seq<char>, points: Seq<PointModel> },
    HistoryFailed { entity_id: Seq<char>, error: Seq<char> },
    Logbook { entity_id: Option<Seq<char>>, result: Result<Seq<LogModel>, Seq<char>> },
}

/// What an [`HaCommand`] stands for.
pub enum CommandModel {
    CallService { call: CallModel, label: Seq<char> },
    History { entity_id: Seq<char>, since: TimeModel },
    Logbook { since: TimeModel, entity_id: Option<Seq<char>> },
    Resync,
}

impl View for ConnStatus {
    type V = StatusModel;

    open spec fn view(&self) -> StatusModel {
        match self {
            ConnStatus::Connecting => StatusModel::Connecting,
            ConnStatus::Connected { version } => StatusModel::Connected { version: version@ },
            ConnStatus::Disconnected { error, retry_in } => StatusModel::Disconnected { error: error@, retry_in: *retry_in },
            ConnStatus::AuthFailed(m) => StatusModel::AuthFailed(m@),
        }
    }
}

impl View for Snapshot {
    type V = SnapshotModel;

    open spec fn view(&self) -> SnapshotModel {
        SnapshotModel {
            states: self.states.deep_view(),
            areas: self.areas.deep_view(),
            devices: self.devices.deep_view(),
            entities: self.entities.deep_view(),
        }
    }
}

impl View for RegistryUpdate {
    type V = UpdateModel;

    open spec fn view(&self) -> UpdateModel {
        match self {
            RegistryUpdate::Areas(l) => UpdateModel::Areas(l.deep_view()),
            RegistryUpdate::Devices(l) => UpdateModel::Devices(l.deep_view()),
            RegistryUpdate::Entities(l) => UpdateModel::Entities(l.deep_view()),
        }
    }
}

impl View for HaEvent {
    type V = EventModel;

    open spec fn view(&self) -> EventModel {
        match self {
            HaEvent::Status(s) => EventModel::Status(s@),
            HaEvent::Snapshot(s) => EventModel::Snapshot(s@),
            HaEvent::Registry(u) => EventModel::Registry(u@),
            HaEvent::StateChanged { entity_id, new_state } => EventModel::StateChanged {
                entity_id: entity_id@,
                new_state: new_state.deep_view(),
            },
            HaEvent::ServiceResult { label, result } => EventModel::ServiceResult {
                label: label@,
                error: match result {
                    Ok(_) => None,
                    Err(e) => Some(e@),
                },
            },
            HaEvent::History { entity_id, points } => EventModel::History {
                entity_id: entity_id@,
                points: points.deep_view(),
            },
            HaEvent::HistoryFailed { entity_id, error } => EventModel::HistoryFailed {
                entity_id: entity_id@,
                error: error@,
            },
            HaEvent::Logbook { entity_id, result } => EventModel::Logbook {
                entity_id: entity_id.deep_view(),
                result: match result {
                    Ok(l) => Ok(l.deep_view()),
                    Err(e) => Err(e@),
                },
            },
        }
    }
}

impl DeepView for HaEvent {
    type V = EventModel;

    open spec fn deep_view(&self) -> EventModel {
        self@
    }
}

impl View for HaCommand {
    type V = CommandModel;

    open spec fn view(&self) -> CommandModel {
        match self {
            HaCommand::CallService { call, label } => CommandModel::CallService { call: call@, label: label@ },
            HaCommand::History { entity_id, since } => CommandModel::History { entity_id: entity_id@, since: since@ },
            HaCommand::Logbook { since, entity_id } => CommandModel::Logbook {
                since: since@,
                entity_id: entity_id.deep_view(),
            },
            HaCommand::Resync => CommandModel::Resync,
        }
    }
}

impl DeepView for HaCommand {
    type V = CommandModel;

    open spec fn deep_view(&self) -> CommandModel {
        self@
    }
}

/// A snapshot with nothing in it.
pub open spec fn empty_snapshot() -> SnapshotModel {
    SnapshotModel { states: Seq::empty(), areas: Seq::empty(), devices: Seq::empty(), entities: Seq::empty() }
}

impl Default for Snapshot {
    fn default() -> (r: Self)
        ensures
            r@ == empty_snapshot(),
    {
        let r = Snapshot { states: Vec::new(), areas: Vec::new(), devices: Vec::new(), entities: Vec::new() };
        assert(r@ =~= empty_snapshot());
        r
    }
}

// ----- Requests ------------------------------------------------------------------

#[derive(Debug, Clone, Copy, PartialEq, Eq, Structural)]
pub enum Registry {
    Areas,
    Devices,
    Entities,
}

impl Registry {
    /// The request that lists the registry.
    pub open spec fn listing(self) -> Seq<char> {
        match self {
            Registry::Areas => "config/area_registry/list"@,
            Registry::Devices => "config/device_registry/list"@,
            Registry::Entities => "config/entity_registry/list"@,
        }
    }

    /// The event that tells of a change to the registry.
    pub open spec fn event(self) -> Seq<char> {
        match self {
            Registry::Areas => "area_registry_updated"@,
            Registry::Devices => "device_registry_updated"@,
            Registry::Entities => "entity_registry_updated"@,
        }
    }

    pub fn list_type(self) -> (r: &'static str)
        ensures
            r@ == self.listing(),
    {
        match self {
            Registry::Areas => "config/area_registry/list",
            Registry::Devices => "config/device_registry/list",
            Registry::Entities => "config/entity_registry/list",
        }
    }

    pub fn updated_event(self) -> (r: &'static str)
        ensures
            r@ == self.event(),
    {
        match self {
            Registry::Areas => "area_registry_updated",
            Registry::Devices => "device_registry_updated",
            Registry::Entities => "entity_registry_updated",
        }
    }
}

/// What an outstanding request id is waiting for.
#[derive(Debug, PartialEq)]
pub enum Pending {
    States,
    Areas,
    Devices,
    Entities,
    Subscribe,
    /// A registry-change subscription. Optional: a refusal only means no live updates.
    SubscribeRegistry,
    /// A refetch of one registry after a change event.
    Refresh(Registry),
    Service(String),
    History(String),
    Logbook(Option<String>),
}

/// What a [`Pending`] stands for.
pub enum PendingModel {
    States,
    Areas,
    Devices,
    Entities,
    Subscribe,
    SubscribeRegistry,
    Refresh(Registry),
    Service(Seq<char>),
    History(Seq<char>),
    Logbook(Option<Seq<char>>),
}

impl View for Pending {
    type V = PendingModel;

    open spec fn view(&self) -> PendingModel {
        match self {
            Pending::States => PendingModel::States,
            Pending::Areas => PendingModel::Areas,
            Pending::Devices => PendingModel::Devices,
            Pending::Entities => PendingModel::Entities,
            Pending::Subscribe => PendingModel::Subscribe,
            Pending::SubscribeRegistry => PendingModel::SubscribeRegistry,
            Pending::Refresh(r) => PendingModel::Refresh(*r),
            Pending::Service(label) => PendingModel::Service(label@),
            Pending::History(id) => PendingModel::History(id@),
            Pending::Logbook(id) => PendingModel::Logbook(id.deep_view()),
        }
    }
}

impl DeepView for Pending {
    type V = PendingModel;

    open spec fn deep_view(&self) -> PendingModel {
        self@
    }
}

impl PendingModel {
    /// Whether it fetches one of the four lists of the snapshot.
    pub open spec fn is_list(self) -> bool {
        self is States || self is Areas || self is Devices || self is Entities
    }

    /// Whether the connection is of no use without its reply.
    pub open spec fn is_bootstrap(self) -> bool {
        self.is_list() || self is Subscribe
    }
}

impl Pending {
    pub fn is_bootstrap(&self) -> (r: bool)
        ensures
            r == self@.is_bootstrap(),
    {
        match self {
            Pending::States | Pending::Areas | Pending::Devices | Pending::Entities | Pending::Subscribe => true,
            _ => false,
        }
    }
}

#[derive(Debug, PartialEq)]
pub enum SessionEnd {
    /// The command channel closed: the UI is gone.
    Shutdown,
    AuthFailed(String),
    Resync,
    Error(String),
}

/// What a [`SessionEnd`] stands for.
pub enum EndModel {
    Shutdown,
    AuthFailed(Seq<char>),
    Resync,
    Error(Seq<char>),
}

impl View for SessionEnd {
    type V = EndModel;

    open spec fn view(&self) -> EndModel {
        match self {
            SessionEnd::Shutdown => EndModel::Shutdown,
            SessionEnd::AuthFailed(m) => EndModel::AuthFailed(m@),
            SessionEnd::Resync => EndModel::Resync,
            SessionEnd::Error(m) => EndModel::Error(m@),
        }
    }
}

impl DeepView for SessionEnd {
    type V = EndModel;

    open spec fn deep_view(&self) -> EndModel {
        self@
    }
}

/// The outcome of a command that is not carried out.
pub open spec fn rejection(cmd: CommandModel, why: Seq<char>) -> Option<EventModel> {
    match cmd {
        CommandModel::CallService { label, .. } => Some(EventModel::ServiceResult { label, error: Some(why) }),
        CommandModel::History { entity_id, .. } => Some(EventModel::HistoryFailed { entity_id, error: why }),
        CommandModel::Logbook { entity_id, .. } => Some(EventModel::Logbook { entity_id, result: Err(why) }),
        CommandModel::Resync => None,
    }
}

/// The outcome of a command that is not carried out.
pub fn reject(cmd: HaCommand, why: &str) -> (r: Option<HaEvent>)
    ensures
        r.deep_view() == rejection(cmd@, why@),
{
    match cmd {
        HaCommand::CallService { label, .. } => Some(HaEvent::ServiceResult { label, result: Err(why.to_owned()) }),
        HaCommand::History { entity_id, .. } => Some(HaEvent::HistoryFailed { entity_id, error: why.to_owned() }),
        HaCommand::Logbook { entity_id, .. } => Some(HaEvent::Logbook { entity_id, result: Err(why.to_owned()) }),
        HaCommand::Resync => None,
    }
}

/// The outcome of a request that will never get its reply.
pub open spec fn failure(kind: PendingModel, why: Seq<char>) -> Option<EventModel> {
    match kind {
        PendingModel::Service(label) => Some(
            EventModel::ServiceResult { label, error: Some(why + "; it may or may not have run"@) },
        ),
        PendingModel::History(entity_id) => Some(EventModel::HistoryFailed { entity_id, error: why }),
        PendingModel::Logbook(entity_id) => Some(EventModel::Logbook { entity_id, result: Err(why) }),
        _ => None,
    }
}

/// Report a request that will never get its reply.
pub fn fail(kind: Pending, why: &str) -> (r: Option<HaEvent>)
    ensures
        r.deep_view() == failure(kind@, why@),
{
    match kind {
        Pending::Service(label) => Some(
            HaEvent::ServiceResult { label, result: Err(text::cat2(why, "; it may or may not have run")) },
        ),
        Pending::History(entity_id) => Some(HaEvent::HistoryFailed { entity_id, error: why.to_owned() }),
        Pending::Logbook(entity_id) => Some(HaEvent::Logbook { entity_id, result: Err(why.to_owned()) }),
        _ => None,
    }
}

/// A request that was sent and not answered yet.
#[derive(Debug, PartialEq)]
pub struct Waiting {
    pub id: u64,
    pub kind: Pending,
    pub sent: u64,
}

/// What a [`Waiting`] stands for.
pub struct WaitingModel {
    pub id: nat,
    pub kind: PendingModel,
    pub sent: u64,
}

impl View for Waiting {
    type V = WaitingModel;

    open spec fn view(&self) -> WaitingModel {
        WaitingModel { id: self.id as nat, kind: self.kind@, sent: self.sent }
    }
}

impl DeepView for Waiting {
    type V = WaitingModel;

    open spec fn deep_view(&self) -> WaitingModel {
        self@
    }
}

/// The requests of one connection.
#[derive(Debug)]
pub struct Requests {
    pub next_id: u64,
    /// What each outstanding request is waiting for, and when it was sent; the oldest first.
    pub pending: Vec<Waiting>,
    /// What is still to be written to the socket.
    pub outbox: Vec<Json>,
}

/// What [`Requests`] stand for.
#[verifier::ext_equal]
pub struct RequestsModel {
    pub next_id: nat,
    pub pending: Seq<WaitingModel>,
    pub outbox: Seq<JsonModel>,
}

impl View for Requests {
    type V = RequestsModel;

    open spec fn view(&self) -> RequestsModel {
        RequestsModel { next_id: self.next_id as nat, pending: self.pending.deep_view(), outbox: self.outbox.deep_view() }
    }
}

/// The number that a request or its reply is known by, where there is one.
pub open spec fn numbered(id: Option<u64>) -> Option<nat> {
    match id {
        Some(n) => Some(n as nat),
        None => None,
    }
}

/// The id of a message.
pub open spec fn id_in(v: JsonModel) -> Option<nat> {
    numbered(crate::json::uint(crate::json::at(v, "id"@)))
}

/// Where the request `id` stands among those waiting; their number where it does not.
pub open spec fn waiting_at(p: Seq<WaitingModel>, id: nat) -> int
    decreases p.len(),
{
    if p.len() == 0 || p[0].id == id {
        0
    } else {
        1 + waiting_at(p.drop_first(), id)
    }
}

/// Whether a request sent at `sent` has waited for `after` by `now`.
pub open spec fn overdue(sent: u64, after: u64, now: u64) -> bool {
    (if now >= sent { now - sent } else { 0 }) >= after
}

/// The kinds of the requests that are overdue.
pub open spec fn overdue_kinds(p: Seq<WaitingModel>, after: u64, now: u64) -> Seq<PendingModel>
    decreases p.len(),
{
    if p.len() == 0 {
        Seq::empty()
    } else if overdue(p.last().sent, after, now) {
        overdue_kinds(p.drop_last(), after, now).push(p.last().kind)
    } else {
        overdue_kinds(p.drop_last(), after, now)
    }
}

/// The requests that are not overdue.
pub open spec fn in_time(p: Seq<WaitingModel>, after: u64, now: u64) -> Seq<WaitingModel>
    decreases p.len(),
{
    if p.len() == 0 {
        Seq::empty()
    } else if overdue(p.last().sent, after, now) {
        in_time(p.drop_last(), after, now)
    } else {
        in_time(p.drop_last(), after, now).push(p.last())
    }
}

impl RequestsModel {
    /// With `body` to be written under the next id.
    pub open spec fn written(self, body: AttributesModel) -> RequestsModel {
        let id = self.next_id + 1;
        RequestsModel {
            next_id: id,
            outbox: self.outbox.push(
                JsonModel::Object(
                    crate::strmap::put(body, "id"@, JsonModel::Number(crate::json::whole(id as int))),
                ),
            ),
            ..self
        }
    }

    /// With `body` to be written under the next id, and its reply awaited.
    pub open spec fn asked(self, body: AttributesModel, kind: PendingModel, now: u64) -> RequestsModel {
        let r = self.written(body);
        RequestsModel { pending: r.pending.push(WaitingModel { id: r.next_id, kind, sent: now }), ..r }
    }

    /// Each waiting request has an id of its own, in the order they were sent.
    pub open spec fn wf(self) -> bool {
        &&& forall|i: int, j: int| 0 <= i < j < self.pending.len() ==> #[trigger] self.pending[i].id < #[trigger] self.pending[j].id
        &&& forall|i: int| 0 <= i < self.pending.len() ==> 0 < #[trigger] self.pending[i].id <= self.next_id
    }
}

impl Default for Requests {
    fn default() -> (r: Self)
        ensures
            r@ == (RequestsModel { next_id: 0, pending: Seq::empty(), outbox: Seq::empty() }),
    {
        let r = Requests { next_id: 0, pending: Vec::new(), outbox: Vec::new() };
        assert(r@ =~= RequestsModel { next_id: 0, pending: Seq::empty(), outbox: Seq::empty() });
        r
    }
}

impl Requests {
    pub fn send(&mut self, body: StrMap<Json>, kind: Pending, now: u64) -> (id: u64)
        requires
            old(self).next_id < u64::MAX,
        ensures
            final(self)@ == old(self)@.asked(body.deep_view(), kind@, now),
            id == old(self).next_id + 1,
    {
        let ghost before = self@;
        let id: u64 = self.send_untracked(body);
        self.pending.push(Waiting { id, kind, sent: now });
        assert(self@ =~= before.asked(body.deep_view(), kind@, now));
        id
    }

    /// Remove and return the requests sent `after` ago or earlier.
    pub fn expired(&mut self, after: u64, now: u64) -> (r: Vec<Pending>)
        ensures
            final(self)@ == (RequestsModel { pending: in_time(old(self)@.pending, after, now), ..old(self)@ }),
            r.deep_view() == overdue_kinds(old(self)@.pending, after, now),
    {
        let ghost before = self@;
        let ghost all = self.pending.deep_view();
        let mut waiting: Vec<Waiting> = Vec::new();
        std::mem::swap(&mut waiting, &mut self.pending);
        let mut kept: Vec<Waiting> = Vec::new();
        let mut out: Vec<Pending> = Vec::new();
        let ghost raw = waiting@;
        assert(kept.deep_view() =~= Seq::empty());
        assert(out.deep_view() =~= Seq::empty());
        for w in it: waiting
            invariant
                it.seq() == raw,
                raw.len() == all.len(),
                forall|i: int| 0 <= i < raw.len() ==> #[trigger] raw[i]@ == all[i],
                kept.deep_view() == in_time(all.take(it.index() as int), after, now),
                out.deep_view() == overdue_kinds(all.take(it.index() as int), after, now),
        {
            let ghost i = it.index() as int;
            assert(all.take(i + 1).drop_last() =~= all.take(i));
            assert(all.take(i + 1).last() == w@);
            let ghost k0 = kept.deep_view();
            let ghost o0 = out.deep_view();
            let age: u64 = if now >= w.sent { now - w.sent } else { 0 };
            if age >= after {
                out.push(w.kind);
                assert(out.deep_view() =~= o0.push(w.kind@));
            } else {
                kept.push(w);
                assert(kept.deep_view() =~= k0.push(w@));
            }
        }
        assert(all.take(all.len() as int) =~= all);
        self.pending = kept;
        assert(self@ =~= RequestsModel { pending: in_time(before.pending, after, now), ..before });
        out
    }

    pub fn send_untracked(&mut self, body: StrMap<Json>) -> (id: u64)
        requires
            old(self).next_id < u64::MAX,
        ensures
            final(self)@ == old(self)@.written(body.deep_view()),
            id == old(self).next_id + 1,
    {
        let ghost before = self@;
        self.next_id = self.next_id + 1;
        let full = put(body, "id", Json::count(self.next_id));
        self.outbox.push(Json::object(full));
        assert(self@ =~= before.written(body.deep_view()));
        self.next_id
    }

    /// What the request `id` is waiting for.
    pub fn find(&self, id: u64) -> (r: Option<&Pending>)
        ensures
            r.deep_view() == (if waiting_at(self@.pending, id as nat) < self@.pending.len() {
                Some(self@.pending[waiting_at(self@.pending, id as nat)].kind)
            } else {
                None
            }),
    {
        let ghost all = self.pending.deep_view();
        let n: usize = self.pending.len();
        assert(all.skip(0) =~= all);
        for i in 0..n
            invariant
                n == self.pending@.len(),
                all == self.pending.deep_view(),
                waiting_at(all, id as nat) == i + waiting_at(all.skip(i as int), id as nat),
        {
            assert(all.skip(i as int)[0] == self.pending@[i as int]@);
            assert(all.skip(i as int).drop_first() =~= all.skip(i + 1));
            if self.pending[i].id == id {
                return Some(&self.pending[i].kind);
            }
        }
        None
    }

    /// Take the request `id` from those waiting.
    pub fn answered(&mut self, id: u64) -> (r: Option<Pending>)
        ensures
            ({
                let p = old(self)@.pending;
                let i = waiting_at(p, id as nat);
                if i < p.len() {
                    &&& r matches Some(kind) && kind@ == p[i].kind
                    &&& final(self)@ == (RequestsModel { pending: p.remove(i), ..old(self)@ })
                } else {
                    r is None && final(self)@ == old(self)@
                }
            }),
    {
        let ghost all = self.pending.deep_view();
        let ghost before = self@;
        let n: usize = self.pending.len();
        let mut i: usize = 0;
        assert(all.skip(0) =~= all);
        while i < n && self.pending[i].id != id
            invariant
                n == self.pending@.len(),
                all == self.pending.deep_view(),
                self@ == before,
                0 <= i <= n,
                waiting_at(all, id as nat) == i + waiting_at(all.skip(i as int), id as nat),
            decreases n - i,
        {
            assert(all.skip(i as int)[0] == self.pending@[i as int]@);
            assert(all.skip(i as int).drop_first() =~= all.skip(i + 1));
            i = i + 1;
        }
        if i < n {
            assert(all.skip(i as int)[0] == self.pending@[i as int]@);
            let w = self.pending.remove(i);
            assert(self.pending.deep_view() =~= all.remove(i as int));
            Some(w.kind)
        } else {
            None
        }
    }
}

/// `m` with `v` under `k`.
pub(crate) fn put(m: StrMap<Json>, k: &str, v: Json) -> (r: StrMap<Json>)
    ensures
        r.deep_view() == crate::strmap::put(m.deep_view(), k@, v@),
{
    let mut m = m;
    proof {
        crate::strmap::lemma_put_deep(m@, k@, v);
    }
    m.insert(k.to_owned(), v);
    m
}

/// A request of the type `kind`, with nothing more to it.
pub open spec fn ask(kind: Seq<char>) -> AttributesModel {
    crate::strmap::put(Seq::empty(), "type"@, JsonModel::Text(kind))
}

pub(crate) fn asking(kind: &str) -> (r: StrMap<Json>)
    ensures
        r.deep_view() == ask(kind@),
{
    let m: StrMap<Json> = StrMap::new();
    assert(m.deep_view() =~= Seq::empty());
    put(m, "type", Json::text(kind.to_owned()))
}

} // verus!
