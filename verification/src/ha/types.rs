//! Home Assistant's states, registries, history and service calls.

use crate::json::{Json, JsonModel, Number, NumberModel};
use crate::strmap::StrMap;
use crate::text;
use crate::time::{TimeModel, Timestamp};
use vstd::prelude::*;

verus! {

pub type Attributes = StrMap<Json>;

/// What attributes stand for: their keys, ascending, and values.
pub type AttributesModel = Seq<(Seq<char>, JsonModel)>;

/// The values that stepping an entity's level up and down would set; `None` where the entity has no
/// level, or reports a step or a range that cannot be used.
#[derive(Debug, PartialEq)]
pub struct Steps {
    pub up: Option<Number>,
    pub down: Option<Number>,
}

#[derive(Debug, PartialEq)]
pub struct EntityState {
    pub entity_id: String,
    pub state: String,
    pub attributes: Attributes,
    pub last_changed: Option<Timestamp>,
    pub last_updated: Option<Timestamp>,
    pub steps: Steps,
}

/// What [`Steps`] stand for.
pub struct StepsModel {
    pub up: Option<NumberModel>,
    pub down: Option<NumberModel>,
}

/// What an [`EntityState`] stands for.
pub struct EntityModel {
    pub entity_id: Seq<char>,
    pub state: Seq<char>,
    pub attributes: AttributesModel,
    pub last_changed: Option<TimeModel>,
    pub last_updated: Option<TimeModel>,
    pub steps: StepsModel,
}

impl View for EntityState {
    type V = EntityModel;

    open spec fn view(&self) -> EntityModel {
        EntityModel {
            entity_id: self.entity_id@,
            state: self.state@,
            attributes: self.attributes.deep_view(),
            last_changed: self.last_changed.deep_view(),
            last_updated: self.last_updated.deep_view(),
            steps: StepsModel { up: self.steps.up.deep_view(), down: self.steps.down.deep_view() },
        }
    }
}

impl DeepView for EntityState {
    type V = EntityModel;

    open spec fn deep_view(&self) -> EntityModel {
        self@
    }
}

/// The part of an entity id before its first dot.
pub open spec fn domain(entity_id: Seq<char>) -> Seq<char> {
    text::before(entity_id, '.')
}

/// The texts among `l`, in order.
pub open spec fn texts(l: Seq<JsonModel>) -> Seq<Seq<char>>
    decreases l.len(),
{
    if l.len() == 0 {
        Seq::empty()
    } else {
        match crate::json::text(l.last()) {
            Some(s) => texts(l.drop_last()).push(s),
            None => texts(l.drop_last()),
        }
    }
}

impl EntityModel {
    /// The value of the attribute `key`.
    pub open spec fn attr(self, key: Seq<char>) -> Option<JsonModel> {
        crate::strmap::lookup(self.attributes, key)
    }

    /// The attribute `key`, where it is a text.
    pub open spec fn attr_str(self, key: Seq<char>) -> Option<Seq<char>> {
        match self.attr(key) {
            Some(v) => crate::json::text(v),
            None => None,
        }
    }

    /// The attribute `key`, where it is a number.
    pub open spec fn attr_number(self, key: Seq<char>) -> Option<NumberModel> {
        match self.attr(key) {
            Some(v) => crate::json::number(v),
            None => None,
        }
    }

    /// The texts in the attribute `key`, where it is a list.
    pub open spec fn attr_list(self, key: Seq<char>) -> Seq<Seq<char>> {
        match self.attr(key) {
            Some(v) => match crate::json::list(v) {
                Some(l) => texts(l),
                None => Seq::empty(),
            },
            None => Seq::empty(),
        }
    }

    /// The name the entity is shown by: its friendly name, else its id.
    pub open spec fn name(self) -> Seq<char> {
        match self.attr_str("friendly_name"@) {
            Some(s) => s,
            None => self.entity_id,
        }
    }
}

impl EntityState {
    pub fn domain(&self) -> (r: &str)
        ensures
            r@ == domain(self@.entity_id),
    {
        domain_of(self.entity_id.as_str())
    }

    pub fn friendly_name(&self) -> (r: &str)
        ensures
            r@ == self@.name(),
    {
        match self.attr_str("friendly_name") {
            Some(s) => s,
            None => self.entity_id.as_str(),
        }
    }

    /// The number that the attribute `key` is.
    pub fn attr_f64(&self, key: &str) -> (r: Option<&Number>)
        ensures
            r.deep_view() == self@.attr_number(key@),
    {
        match self.attributes.fetch(key) {
            Some(v) => v.as_number(),
            None => None,
        }
    }

    pub fn attr_str(&self, key: &str) -> (r: Option<&str>)
        ensures
            r.deep_view() == self@.attr_str(key@),
    {
        match self.attributes.fetch(key) {
            Some(v) => v.as_str(),
            None => None,
        }
    }

    pub fn attr_list(&self, key: &str) -> (r: Vec<&str>)
        ensures
            r.deep_view() == self@.attr_list(key@),
    {
        let mut out: Vec<&str> = Vec::new();
        if let Some(v) = self.attributes.fetch(key) {
            if let Some(l) = v.as_array() {
                let n: usize = l.len();
                for i in 0..n
                    invariant
                        n == l@.len(),
                        out.deep_view() == texts(l.deep_view().take(i as int)),
                {
                    proof {
                        assert(l.deep_view().take(i + 1).drop_last() =~= l.deep_view().take(i as int));
                        assert(l.deep_view().take(i + 1).last() == l@[i as int]@);
                    }
                    let ghost sofar = out.deep_view();
                    if let Some(s) = l[i].as_str() {
                        out.push(s);
                        assert(out.deep_view() =~= sofar.push(s@));
                    }
                }
                assert(l.deep_view().take(n as int) =~= l.deep_view());
                return out;
            }
        }
        assert(out.deep_view() =~= Seq::empty());
        out
    }

    pub fn unit(&self) -> (r: Option<&str>)
        ensures
            r.deep_view() == self@.attr_str("unit_of_measurement"@),
    {
        self.attr_str("unit_of_measurement")
    }

    pub fn is_unavailable(&self) -> (r: bool)
        ensures
            r == (self@.state == "unavailable"@ || self@.state == "unknown"@),
    {
        text::same(self.state.as_str(), "unavailable") || text::same(self.state.as_str(), "unknown")
    }
}

pub fn domain_of(entity_id: &str) -> (r: &str)
    ensures
        r@ == domain(entity_id@),
{
    text::split_before(entity_id, '.')
}

/// The domain has no dot in it, and an id that has one is its domain, a dot and the rest.
pub proof fn law_domains(entity_id: Seq<char>)
    ensures
        !domain(entity_id).contains('.'),
        entity_id.contains('.') ==> text::begins(entity_id, domain(entity_id).push('.')),
        !entity_id.contains('.') ==> domain(entity_id) == entity_id,
{
    text::lemma_first_of(entity_id, '.');
    let n = text::first_of(entity_id, '.');
    if entity_id.contains('.') {
        assert(entity_id.take(n + 1) =~= domain(entity_id).push('.'));
    } else {
        assert(entity_id.take(n) =~= entity_id);
    }
}

#[derive(Debug, PartialEq)]
pub struct Area {
    pub area_id: String,
    pub name: String,
}

#[derive(Debug, PartialEq)]
pub struct DeviceRegistryEntry {
    pub id: String,
    pub area_id: Option<String>,
}

#[derive(Debug, PartialEq)]
pub struct EntityRegistryEntry {
    pub entity_id: String,
    pub area_id: Option<String>,
    pub device_id: Option<String>,
    pub hidden_by: Option<String>,
    pub disabled_by: Option<String>,
    pub entity_category: Option<String>,
    /// Integration that provides the entity, e.g. `hue`, `backup`.
    pub platform: Option<String>,
}

/// What an [`Area`] stands for.
pub struct AreaModel {
    pub area_id: Seq<char>,
    pub name: Seq<char>,
}

/// What a [`DeviceRegistryEntry`] stands for.
pub struct DeviceModel {
    pub id: Seq<char>,
    pub area_id: Option<Seq<char>>,
}

/// What an [`EntityRegistryEntry`] stands for.
pub struct RegistrationModel {
    pub entity_id: Seq<char>,
    pub area_id: Option<Seq<char>>,
    pub device_id: Option<Seq<char>>,
    pub hidden_by: Option<Seq<char>>,
    pub disabled_by: Option<Seq<char>>,
    pub entity_category: Option<Seq<char>>,
    pub platform: Option<Seq<char>>,
}

impl View for Area {
    type V = AreaModel;

    open spec fn view(&self) -> AreaModel {
        AreaModel { area_id: self.area_id@, name: self.name@ }
    }
}

impl DeepView for Area {
    type V = AreaModel;

    open spec fn deep_view(&self) -> AreaModel {
        self@
    }
}

impl View for DeviceRegistryEntry {
    type V = DeviceModel;

    open spec fn view(&self) -> DeviceModel {
        DeviceModel { id: self.id@, area_id: self.area_id.deep_view() }
    }
}

impl DeepView for DeviceRegistryEntry {
    type V = DeviceModel;

    open spec fn deep_view(&self) -> DeviceModel {
        self@
    }
}

impl View for EntityRegistryEntry {
    type V = RegistrationModel;

    open spec fn view(&self) -> RegistrationModel {
        RegistrationModel {
            entity_id: self.entity_id@,
            area_id: self.area_id.deep_view(),
            device_id: self.device_id.deep_view(),
            hidden_by: self.hidden_by.deep_view(),
            disabled_by: self.disabled_by.deep_view(),
            entity_category: self.entity_category.deep_view(),
            platform: self.platform.deep_view(),
        }
    }
}

impl DeepView for EntityRegistryEntry {
    type V = RegistrationModel;

    open spec fn deep_view(&self) -> RegistrationModel {
        self@
    }
}

/// One point from `history/history_during_period` with `minimal_response`.
#[derive(Debug, PartialEq)]
pub struct HistoryPoint {
    pub when: Timestamp,
    pub state: String,
}

/// What a [`HistoryPoint`] stands for.
pub struct PointModel {
    pub when: TimeModel,
    pub state: Seq<char>,
}

impl View for HistoryPoint {
    type V = PointModel;

    open spec fn view(&self) -> PointModel {
        PointModel { when: self.when@, state: self.state@ }
    }
}

impl DeepView for HistoryPoint {
    type V = PointModel;

    open spec fn deep_view(&self) -> PointModel {
        self@
    }
}

/// The point in time that a value gives: a number of seconds since 1970, or an ISO text.
pub open spec fn stamp(v: JsonModel) -> Option<TimeModel> {
    match v {
        JsonModel::Number(n) => crate::time::at_micros(n.micros as int),
        JsonModel::Text(s) => crate::time::rfc3339_point(s),
        _ => None,
    }
}

/// The first point in time that a field of `v` gives, the fields taken in the order of `keys`.
pub open spec fn first_stamp(v: JsonModel, keys: Seq<Seq<char>>) -> Option<TimeModel>
    decreases keys.len(),
{
    if keys.len() == 0 {
        None
    } else {
        match stamp(crate::json::at(v, keys[0])) {
            Some(t) => Some(t),
            None => first_stamp(v, keys.drop_first()),
        }
    }
}

/// The fields that may hold the time of a history point, in order.
pub open spec fn point_keys() -> Seq<Seq<char>> {
    seq!["lu"@, "lc"@, "last_updated"@, "last_changed"@]
}

/// The history point that `v` gives, in the compressed or in the full form.
pub open spec fn point(v: JsonModel) -> Option<PointModel> {
    let state = match crate::json::field(v, "s"@) {
        Some(s) => crate::json::text(s),
        None => crate::json::text(crate::json::at(v, "state"@)),
    };
    match (state, first_stamp(v, point_keys())) {
        (Some(state), Some(when)) => Some(PointModel { when, state }),
        _ => None,
    }
}

impl HistoryPoint {
    /// Parse an entry in either the compressed (`s`/`lu`) or the full form.
    pub fn from_value(v: &Json) -> (r: Option<Self>)
        ensures
            r.deep_view() == point(v@),
    {
        let found = match v.get("s") {
            Some(s) => s.as_str(),
            None => v.text_at("state"),
        };
        let keys: [&str; 4] = ["lu", "lc", "last_updated", "last_changed"];
        let fields: &[&str] = &keys;
        assert(fields.deep_view() =~= point_keys());
        let when = ts_field(v, fields);
        match (found, when) {
            (Some(s), Some(when)) => Some(HistoryPoint { when, state: s.to_owned() }),
            _ => None,
        }
    }
}

#[derive(Debug, PartialEq)]
pub struct LogbookEntry {
    pub when: Timestamp,
    pub entity_id: Option<String>,
    pub name: Option<String>,
    pub message: Option<String>,
    pub state: Option<String>,
}

/// What a [`LogbookEntry`] stands for.
pub struct LogModel {
    pub when: TimeModel,
    pub entity_id: Option<Seq<char>>,
    pub name: Option<Seq<char>>,
    pub message: Option<Seq<char>>,
    pub state: Option<Seq<char>>,
}

impl View for LogbookEntry {
    type V = LogModel;

    open spec fn view(&self) -> LogModel {
        LogModel {
            when: self.when@,
            entity_id: self.entity_id.deep_view(),
            name: self.name.deep_view(),
            message: self.message.deep_view(),
            state: self.state.deep_view(),
        }
    }
}

impl DeepView for LogbookEntry {
    type V = LogModel;

    open spec fn deep_view(&self) -> LogModel {
        self@
    }
}

/// The logbook entry that `v` gives.
pub open spec fn log(v: JsonModel) -> Option<LogModel> {
    match first_stamp(v, seq!["when"@]) {
        Some(when) => Some(
            LogModel {
                when,
                entity_id: crate::json::text(crate::json::at(v, "entity_id"@)),
                name: crate::json::text(crate::json::at(v, "name"@)),
                message: crate::json::text(crate::json::at(v, "message"@)),
                state: crate::json::text(crate::json::at(v, "state"@)),
            },
        ),
        None => None,
    }
}

/// What a logbook entry says happened.
pub open spec fn happening(l: LogModel) -> Seq<char> {
    match (l.message, l.state) {
        (Some(m), _) => m,
        (None, Some(s)) => "changed to "@ + s,
        (None, None) => Seq::empty(),
    }
}

impl LogbookEntry {
    pub fn from_value(v: &Json) -> (r: Option<Self>)
        ensures
            r.deep_view() == log(v@),
    {
        let keys: [&str; 1] = ["when"];
        let fields: &[&str] = &keys;
        assert(fields.deep_view() =~= seq!["when"@]);
        match ts_field(v, fields) {
            Some(when) => Some(
                LogbookEntry {
                    when,
                    entity_id: owned(v.text_at("entity_id")),
                    name: owned(v.text_at("name")),
                    message: owned(v.text_at("message")),
                    state: owned(v.text_at("state")),
                },
            ),
            None => None,
        }
    }

    pub fn describe(&self) -> (r: String)
        ensures
            r@ == happening(self@),
    {
        match (&self.message, &self.state) {
            (Some(m), _) => m.clone(),
            (None, Some(s)) => text::cat2("changed to ", s.as_str()),
            (None, None) => String::new(),
        }
    }
}

/// The text in an option, as a text of its own.
pub(crate) fn owned(s: Option<&str>) -> (r: Option<String>)
    ensures
        r.deep_view() == s.deep_view(),
{
    match s {
        Some(s) => Some(s.to_owned()),
        None => None,
    }
}

/// Read the first present timestamp field; HA sends either epoch floats or ISO strings.
fn ts_field(v: &Json, keys: &[&str]) -> (r: Option<Timestamp>)
    ensures
        r.deep_view() == first_stamp(v@, keys.deep_view()),
{
    let ghost all = keys.deep_view();
    let n: usize = keys.len();
    assert(all.skip(0) =~= all);
    for i in 0..n
        invariant
            n == keys@.len(),
            all == keys.deep_view(),
            first_stamp(v@, all) == first_stamp(v@, all.skip(i as int)),
    {
        assert(all.skip(i as int).drop_first() =~= all.skip(i + 1));
        let found = match v.get(keys[i]) {
            Some(x) => match (x.as_number(), x.as_str()) {
                (Some(n), _) => Timestamp::from_micros(n.micros),
                (None, Some(s)) => Timestamp::parse(s),
                (None, None) => None,
            },
            None => None,
        };
        if found.is_some() {
            return found;
        }
    }
    None
}

/// A Home Assistant service invocation targeting (at most) one entity.
#[derive(Debug, PartialEq)]
pub struct ServiceCall {
    pub domain: String,
    pub service: String,
    pub data: StrMap<Json>,
    pub entity_id: Option<String>,
}

/// What a [`ServiceCall`] stands for.
pub struct CallModel {
    pub domain: Seq<char>,
    pub service: Seq<char>,
    pub data: AttributesModel,
    pub entity_id: Option<Seq<char>>,
}

impl View for ServiceCall {
    type V = CallModel;

    open spec fn view(&self) -> CallModel {
        CallModel {
            domain: self.domain@,
            service: self.service@,
            data: self.data.deep_view(),
            entity_id: self.entity_id.deep_view(),
        }
    }
}

impl DeepView for ServiceCall {
    type V = CallModel;

    open spec fn deep_view(&self) -> CallModel {
        self@
    }
}

/// A call of a service on an entity, with no data.
pub open spec fn plain_call(domain: Seq<char>, service: Seq<char>, entity_id: Seq<char>) -> CallModel {
    CallModel { domain, service, data: Seq::empty(), entity_id: Some(entity_id) }
}

/// A call of a service on an entity, with one piece of data.
pub open spec fn call_with(
    domain: Seq<char>,
    service: Seq<char>,
    entity_id: Seq<char>,
    key: Seq<char>,
    value: JsonModel,
) -> CallModel {
    CallModel { domain, service, data: seq![(key, value)], entity_id: Some(entity_id) }
}

impl ServiceCall {
    pub fn new(domain: &str, service: &str, entity_id: &str) -> (r: Self)
        ensures
            r@ == plain_call(domain@, service@, entity_id@),
    {
        let data: StrMap<Json> = StrMap::new();
        assert(data.deep_view() =~= Seq::empty());
        ServiceCall { domain: domain.to_owned(), service: service.to_owned(), data, entity_id: Some(entity_id.to_owned()) }
    }

    pub fn with(self, key: &str, value: Json) -> (r: Self)
        ensures
            r@ == (CallModel { data: crate::strmap::put(self@.data, key@, value@), ..self@ }),
            r@ == self@.with(key@, value@),
    {
        let mut data = self.data;
        proof {
            crate::strmap::lemma_put_deep(data@, key@, value);
        }
        data.insert(key.to_owned(), value);
        ServiceCall { domain: self.domain, service: self.service, data, entity_id: self.entity_id }
    }

    pub fn name(&self) -> (r: String)
        ensures
            r@ == self@.domain + "."@ + self@.service,
            r@ == self@.called(),
    {
        text::cat3(self.domain.as_str(), ".", self.service.as_str())
    }
}

impl CallModel {
    /// The call with one value more.
    pub open spec fn with(self, key: Seq<char>, value: JsonModel) -> CallModel {
        CallModel { data: crate::strmap::put(self.data, key, value), ..self }
    }

    /// What is called.
    pub open spec fn called(self) -> Seq<char> {
        self.domain + "."@ + self.service
    }
}

/// A value given to a call is found in its data, and what else was there stays; a call is named with its domain,
/// a dot and its service.
pub proof fn law_calls_hold_their_data(c: CallModel, key: Seq<char>, value: JsonModel, other: Seq<char>)
    requires
        crate::strmap::ascending(c.data),
    ensures
        crate::strmap::lookup(c.with(key, value).data, key) == Some(value),
        other != key ==> crate::strmap::lookup(c.with(key, value).data, other) == crate::strmap::lookup(c.data, other),
        c.with(key, value).domain == c.domain && c.with(key, value).service == c.service && c.with(key, value).entity_id == c.entity_id,
        text::begins(c.called(), c.domain) && text::ends(c.called(), c.service) && c.called().len() == c.domain.len() + 1 + c.service.len(),
        c.called()[c.domain.len() as int] == '.',
        plain_call(c.domain, c.service, key).entity_id == Some(key) && plain_call(c.domain, c.service, key).data.len() == 0,
        plain_call(c.domain, c.service, key).domain == c.domain && plain_call(c.domain, c.service, key).service == c.service,
{
    reveal_strlit(".");
    crate::strmap::lemma_put(c.data, key, value);
    let n = c.called();
    assert(n.take(c.domain.len() as int) =~= c.domain);
    assert(n.skip(n.len() - c.service.len()) =~= c.service);
}

/// A list of texts holds the texts of the list, in order, and leaves out what is none.
pub proof fn law_lists_of_texts(a: Seq<JsonModel>, b: Seq<JsonModel>, v: JsonModel)
    ensures
        texts(a + b) == texts(a) + texts(b),
        v matches JsonModel::Text(s) ==> texts(seq![v]) == seq![s],
        !(v is Text) ==> texts(seq![v]).len() == 0,
    decreases b.len(),
{
    reveal_with_fuel(texts, 2);
    assert(seq![v].drop_last() =~= Seq::empty());
    if let JsonModel::Text(s) = v {
        assert(texts(seq![v]) =~= seq![s]);
    }
    if b.len() > 0 {
        law_lists_of_texts(a, b.drop_last(), v);
        assert((a + b).drop_last() =~= a + b.drop_last());
    } else {
        assert(a + b =~= a);
    }
    assert(texts(a + b) =~= texts(a) + texts(b));
}

/// What an attribute is read as: a text, a number or a list of texts where it is one.
pub proof fn law_attributes_are_read(e: EntityModel, k: Seq<char>, v: JsonModel)
    requires
        crate::strmap::lookup(e.attributes, k) == Some(v),
    ensures
        v matches JsonModel::Text(s) ==> e.attr_str(k) == Some(s),
        !(v is Text) ==> e.attr_str(k) is None,
        v matches JsonModel::Number(n) ==> e.attr_number(k) == Some(n),
        !(v is Number) ==> e.attr_number(k) is None,
        v matches JsonModel::List(l) ==> e.attr_list(k) == texts(l),
        e.attr(k) == Some(v),
{
}

} // verus!
