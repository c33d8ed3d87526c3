//! In-memory mirror of Home Assistant state plus the registries needed to group it.

use crate::ha::client::{RegistryUpdate, Snapshot, SnapshotModel, UpdateModel};
use crate::ha::types::{domain_of, Area, DeviceRegistryEntry, EntityRegistryEntry, EntityState};
use crate::ha::types::{AreaModel, DeviceModel, EntityModel, RegistrationModel};
use crate::sort::sort;
use crate::strmap::{tallied, StrMap};
use crate::text::{lowercase, order, same, Rel};
use vstd::prelude::*;

verus! {

#[derive(Debug, Clone, Copy, PartialEq, Eq, Structural)]
pub enum GroupBy {
    Area,
    Domain,
}

impl Default for GroupBy {
    fn default() -> (r: Self)
        ensures
            r == GroupBy::Area,
    {
        GroupBy::Area
    }
}

impl GroupBy {
    pub open spec fn toggled(self) -> GroupBy {
        match self {
            GroupBy::Area => GroupBy::Domain,
            GroupBy::Domain => GroupBy::Area,
        }
    }

    pub open spec fn labelled(self) -> Seq<char> {
        match self {
            GroupBy::Area => "Areas"@,
            GroupBy::Domain => "Domains"@,
        }
    }

    pub fn toggle(self) -> (r: Self)
        ensures
            r == self.toggled(),
    {
        match self {
            GroupBy::Area => GroupBy::Domain,
            GroupBy::Domain => GroupBy::Area,
        }
    }

    pub fn label(self) -> (r: &'static str)
        ensures
            r@ == self.labelled(),
    {
        match self {
            GroupBy::Area => "Areas",
            GroupBy::Domain => "Domains",
        }
    }
}

/// A sidebar group. `key == None` is the "All" group.
#[derive(Debug, PartialEq)]
pub struct Group {
    pub key: Option<String>,
    pub title: String,
    pub count: usize,
}

/// What a [`Group`] stands for.
pub struct GroupModel {
    pub key: Option<Seq<char>>,
    pub title: Seq<char>,
    pub count: int,
}

impl View for Group {
    type V = GroupModel;

    open spec fn view(&self) -> GroupModel {
        GroupModel { key: self.key.deep_view(), title: self.title@, count: self.count as int }
    }
}

impl DeepView for Group {
    type V = GroupModel;

    open spec fn deep_view(&self) -> GroupModel {
        self@
    }
}

pub const UNASSIGNED: &'static str = "Unassigned";

/// Housekeeping domains that clutter a device list.
pub open spec fn system_domain(d: Seq<char>) -> bool {
    ||| d == "ai_task"@
    ||| d == "conversation"@
    ||| d == "event"@
    ||| d == "stt"@
    ||| d == "tts"@
    ||| d == "update"@
    ||| d == "wake_word"@
    ||| d == "zone"@
}

fn is_system_domain(d: &str) -> (r: bool)
    ensures
        r == system_domain(d@),
{
    same(d, "ai_task") || same(d, "conversation") || same(d, "event") || same(d, "stt") || same(d, "tts")
        || same(d, "update") || same(d, "wake_word") || same(d, "zone")
}

#[derive(Debug)]
pub struct Store {
    pub entities: StrMap<EntityState>,
    pub areas: StrMap<Area>,
    pub devices: StrMap<DeviceRegistryEntry>,
    pub registry: StrMap<EntityRegistryEntry>,
    pub loaded: bool,
    /// Also list hidden, config/diagnostic and system entities.
    pub show_all: bool,
}

/// What a [`Store`] stands for. The keys of each map ascend.
#[verifier::ext_equal]
pub struct StoreModel {
    pub entities: Seq<(Seq<char>, EntityModel)>,
    pub areas: Seq<(Seq<char>, AreaModel)>,
    pub devices: Seq<(Seq<char>, DeviceModel)>,
    pub registry: Seq<(Seq<char>, RegistrationModel)>,
    pub loaded: bool,
    pub show_all: bool,
}

impl View for Store {
    type V = StoreModel;

    open spec fn view(&self) -> StoreModel {
        StoreModel {
            entities: self.entities.deep_view(),
            areas: self.areas.deep_view(),
            devices: self.devices.deep_view(),
            registry: self.registry.deep_view(),
            loaded: self.loaded,
            show_all: self.show_all,
        }
    }
}

/// A list as a map, each item under its key; of those under one key the last stays.
pub open spec fn indexed<T>(l: Seq<T>, key: spec_fn(T) -> Seq<char>) -> Seq<(Seq<char>, T)>
    decreases l.len(),
{
    if l.len() == 0 {
        Seq::empty()
    } else {
        crate::strmap::put(indexed(l.drop_last(), key), key(l.last()), l.last())
    }
}

/// States by their entity's id.
pub open spec fn states_by_id(l: Seq<EntityModel>) -> Seq<(Seq<char>, EntityModel)> {
    indexed(l, |s: EntityModel| s.entity_id)
}

/// Areas by their id.
pub open spec fn areas_by_id(l: Seq<AreaModel>) -> Seq<(Seq<char>, AreaModel)> {
    indexed(l, |a: AreaModel| a.area_id)
}

/// Devices by their id.
pub open spec fn devices_by_id(l: Seq<DeviceModel>) -> Seq<(Seq<char>, DeviceModel)> {
    indexed(l, |d: DeviceModel| d.id)
}

/// Registrations by their entity's id.
pub open spec fn registry_by_id(l: Seq<RegistrationModel>) -> Seq<(Seq<char>, RegistrationModel)> {
    indexed(l, |e: RegistrationModel| e.entity_id)
}

/// The items under their keys.
fn index<T: DeepView, F: Fn(&T) -> String>(l: Vec<T>, key: F, Ghost(k): Ghost<spec_fn(T::V) -> Seq<char>>) -> (r: StrMap<T>)
    requires
        forall|x: T| key.requires((&x,)),
        forall|x: T, s: String| key.ensures((&x,), s) ==> s@ == k(x.deep_view()),
    ensures
        r.deep_view() == indexed(l.deep_view(), k),
{
    let ghost all = l.deep_view();
    let ghost raw = l@;
    let mut m: StrMap<T> = StrMap::new();
    assert(m.deep_view() =~= Seq::empty());
    for x in it: l
        invariant
            it.seq() == raw,
            raw.len() == all.len(),
            forall|i: int| 0 <= i < raw.len() ==> #[trigger] raw[i].deep_view() == all[i],
            forall|x: T| key.requires((&x,)),
            forall|x: T, s: String| key.ensures((&x,), s) ==> s@ == k(x.deep_view()),
            m.deep_view() == indexed(all.take(it.index() as int), k),
    {
        let ghost i = it.index() as int;
        assert(all.take(i + 1).drop_last() =~= all.take(i));
        assert(all.take(i + 1).last() == x.deep_view());
        let id = key(&x);
        proof {
            crate::strmap::lemma_put_deep(m@, id@, x);
        }
        m.insert(id, x);
    }
    assert(all.take(all.len() as int) =~= all);
    m
}

fn index_states(l: Vec<EntityState>) -> (r: StrMap<EntityState>)
    ensures
        r.deep_view() == states_by_id(l.deep_view()),
{
    let key = |x: &EntityState| -> (k: String)
        ensures
            k@ == x.entity_id@,
        { x.entity_id.clone() };
    index(l, key, Ghost(|x: EntityModel| x.entity_id))
}

fn index_areas(l: Vec<Area>) -> (r: StrMap<Area>)
    ensures
        r.deep_view() == areas_by_id(l.deep_view()),
{
    let key = |x: &Area| -> (k: String)
        ensures
            k@ == x.area_id@,
        { x.area_id.clone() };
    index(l, key, Ghost(|x: AreaModel| x.area_id))
}

fn index_devices(l: Vec<DeviceRegistryEntry>) -> (r: StrMap<DeviceRegistryEntry>)
    ensures
        r.deep_view() == devices_by_id(l.deep_view()),
{
    let key = |x: &DeviceRegistryEntry| -> (k: String)
        ensures
            k@ == x.id@,
        { x.id.clone() };
    index(l, key, Ghost(|x: DeviceModel| x.id))
}

fn index_registry(l: Vec<EntityRegistryEntry>) -> (r: StrMap<EntityRegistryEntry>)
    ensures
        r.deep_view() == registry_by_id(l.deep_view()),
{
    let key = |x: &EntityRegistryEntry| -> (k: String)
        ensures
            k@ == x.entity_id@,
        { x.entity_id.clone() };
    index(l, key, Ghost(|x: RegistrationModel| x.entity_id))
}

impl StoreModel {
    /// A store in which nothing was loaded.
    pub open spec fn empty() -> StoreModel {
        StoreModel {
            entities: Seq::empty(),
            areas: Seq::empty(),
            devices: Seq::empty(),
            registry: Seq::empty(),
            loaded: false,
            show_all: false,
        }
    }

    /// The keys of each map ascend.
    pub open spec fn wf(self) -> bool {
        &&& crate::strmap::ascending(self.entities)
        &&& crate::strmap::ascending(self.areas)
        &&& crate::strmap::ascending(self.devices)
        &&& crate::strmap::ascending(self.registry)
    }

    /// The store with a snapshot loaded in place of everything.
    pub open spec fn with_snapshot(self, snap: SnapshotModel) -> StoreModel {
        StoreModel {
            entities: states_by_id(snap.states),
            areas: areas_by_id(snap.areas),
            devices: devices_by_id(snap.devices),
            registry: registry_by_id(snap.entities),
            loaded: true,
            ..self
        }
    }

    /// The store with one registry replaced.
    pub open spec fn with_registry(self, update: UpdateModel) -> StoreModel {
        match update {
            UpdateModel::Areas(l) => StoreModel { areas: areas_by_id(l), ..self },
            UpdateModel::Devices(l) => StoreModel { devices: devices_by_id(l), ..self },
            UpdateModel::Entities(l) => StoreModel { registry: registry_by_id(l), ..self },
        }
    }

    /// The store with the state of one entity changed; `None` removes it.
    pub open spec fn with_change(self, entity_id: Seq<char>, new_state: Option<EntityModel>) -> StoreModel {
        StoreModel {
            entities: match new_state {
                Some(s) => crate::strmap::put(self.entities, entity_id, s),
                None => crate::strmap::del(self.entities, entity_id),
            },
            ..self
        }
    }

    /// The state of an entity.
    pub open spec fn get(self, entity_id: Seq<char>) -> Option<EntityModel> {
        crate::strmap::lookup(self.entities, entity_id)
    }

    /// Entity's own area, falling back to its device's area.
    pub open spec fn area_of(self, entity_id: Seq<char>) -> Option<AreaModel> {
        match crate::strmap::lookup(self.registry, entity_id) {
            Some(reg) => {
                let area_id = match reg.area_id {
                    Some(a) => Some(a),
                    None => match reg.device_id {
                        Some(d) => match crate::strmap::lookup(self.devices, d) {
                            Some(dev) => dev.area_id,
                            None => None,
                        },
                        None => None,
                    },
                };
                match area_id {
                    Some(a) => crate::strmap::lookup(self.areas, a),
                    None => None,
                }
            },
            None => None,
        }
    }

    /// The name of the entity's area.
    pub open spec fn area_name(self, entity_id: Seq<char>) -> Seq<char> {
        match self.area_of(entity_id) {
            Some(a) => a.name,
            None => UNASSIGNED@,
        }
    }

    /// Whether the entity is listed: hidden, config/diagnostic and system entities are not, unless
    /// everything is shown.
    pub open spec fn is_visible(self, entity_id: Seq<char>) -> bool {
        ||| self.show_all
        ||| {
            &&& !system_domain(crate::ha::types::domain(entity_id))
            &&& match crate::strmap::lookup(self.registry, entity_id) {
                Some(r) => r.hidden_by is None && r.disabled_by is None && r.entity_category is None && r.platform != Some("backup"@),
                None => true,
            }
        }
    }

    /// The key of the group that the entity is in: its area's id, empty where it has none, or its
    /// domain.
    pub open spec fn group_key(self, e: EntityModel, by: GroupBy) -> Seq<char> {
        match by {
            GroupBy::Area => match self.area_of(e.entity_id) {
                Some(a) => a.area_id,
                None => Seq::empty(),
            },
            GroupBy::Domain => crate::ha::types::domain(e.entity_id),
        }
    }

    /// The title of the group under `key`.
    pub open spec fn group_title(self, key: Seq<char>, by: GroupBy) -> Seq<char> {
        match by {
            GroupBy::Area => match crate::strmap::lookup(self.areas, key) {
                Some(a) => a.name,
                None => UNASSIGNED@,
            },
            GroupBy::Domain => key,
        }
    }

    /// Whether the entity is listed under a group and a set of domains, where they are given.
    pub open spec fn lists(self, by: GroupBy, group: Option<Seq<char>>, domains: Option<Seq<Seq<char>>>, e: EntityModel) -> bool {
        &&& self.is_visible(e.entity_id)
        &&& match domains {
            Some(d) => d.contains(crate::ha::types::domain(e.entity_id)),
            None => true,
        }
        &&& match group {
            Some(g) => self.group_key(e, by) == g,
            None => true,
        }
    }

    /// The entities that are listed, in the order of their keys.
    pub open spec fn listed(self, by: GroupBy, group: Option<Seq<char>>, domains: Option<Seq<Seq<char>>>) -> Seq<EntityModel> {
        crate::strmap::values(self.entities).filter(|e: EntityModel| self.lists(by, group, domains, e))
    }

    /// Visible entities, sorted by friendly name, optionally restricted to a group or domain set.
    pub open spec fn visible(self, by: GroupBy, group: Option<Seq<char>>, domains: Option<Seq<Seq<char>>>) -> Seq<EntityModel> {
        by_name(self.listed(by, group, domains))
    }

    /// How many of `l` are in each group.
    pub open spec fn counted(self, l: Seq<EntityModel>, by: GroupBy) -> Seq<(Seq<char>, int)> {
        crate::strmap::tally(l.map_values(|e: EntityModel| self.group_key(e, by)))
    }

    /// Sidebar groups: "All" first, then groups sorted by title, "Unassigned" last.
    pub open spec fn groups(self, by: GroupBy) -> Seq<GroupModel> {
        let l = self.listed(by, None, None);
        let groups = self.counted(l, by).map_values(
            |e: (Seq<char>, int)| GroupModel { key: Some(e.0), title: self.group_title(e.0, by), count: e.1 },
        );
        seq![GroupModel { key: None, title: "All"@, count: l.len() as int }] + crate::sort::sorted(
            groups,
            |a: GroupModel, b: GroupModel| group_before(a, b),
        )
    }
}

/// Whether `a` comes before `b` by name; entities with one name go by their ids.
pub open spec fn name_before(a: EntityModel, b: EntityModel) -> bool {
    let x = crate::text::lowered(a.name());
    let y = crate::text::lowered(b.name());
    crate::text::lex_lt(x, y) || (x == y && crate::text::lex_lt(a.entity_id, b.entity_id))
}

/// Entities by their names.
pub open spec fn by_name(l: Seq<EntityModel>) -> Seq<EntityModel> {
    crate::sort::sorted(l, |a: EntityModel, b: EntityModel| name_before(a, b))
}

/// Whether the group is that of the entities without an area.
pub open spec fn unassigned(g: GroupModel) -> bool {
    g.key == Some(Seq::<char>::empty())
}

/// Whether the group `a` comes before `b`: the unassigned last, else by title.
pub open spec fn group_before(a: GroupModel, b: GroupModel) -> bool {
    if unassigned(a) != unassigned(b) {
        unassigned(b)
    } else {
        crate::text::lex_lt(crate::text::lowered(a.title), crate::text::lowered(b.title))
    }
}

impl Default for Store {
    fn default() -> (r: Self)
        ensures
            r@ == StoreModel::empty(),
    {
        let r = Store {
            entities: StrMap::new(),
            areas: StrMap::new(),
            devices: StrMap::new(),
            registry: StrMap::new(),
            loaded: false,
            show_all: false,
        };
        assert(r@ =~= StoreModel::empty());
        r
    }
}

/// Whether `x` is among `l`.
pub(crate) fn among(l: &[&str], x: &str) -> (r: bool)
    ensures
        r == l.deep_view().contains(x@),
{
    let ghost all = l.deep_view();
    let n: usize = l.len();
    for i in 0..n
        invariant
            n == l@.len(),
            all == l.deep_view(),
            forall|j: int| 0 <= j < i ==> #[trigger] all[j] != x@,
    {
        assert(all[i as int] == l@[i as int]@);
        if same(l[i], x) {
            return true;
        }
    }
    false
}

impl Store {
    pub fn load(&mut self, snap: Snapshot)
        ensures
            final(self)@ == old(self)@.with_snapshot(snap@),
    {
        self.entities = index_states(snap.states);
        self.areas = index_areas(snap.areas);
        self.devices = index_devices(snap.devices);
        self.registry = index_registry(snap.entities);
        self.loaded = true;
    }

    /// Replace one registry with a freshly fetched copy.
    pub fn apply_registry(&mut self, update: RegistryUpdate)
        ensures
            final(self)@ == old(self)@.with_registry(update@),
    {
        match update {
            RegistryUpdate::Areas(l) => {
                self.areas = index_areas(l);
            },
            RegistryUpdate::Devices(l) => {
                self.devices = index_devices(l);
            },
            RegistryUpdate::Entities(l) => {
                self.registry = index_registry(l);
            },
        }
    }

    pub fn apply_change(&mut self, entity_id: &str, new_state: Option<EntityState>)
        ensures
            final(self)@ == old(self)@.with_change(entity_id@, new_state.deep_view()),
    {
        match new_state {
            Some(s) => {
                proof {
                    crate::strmap::lemma_put_deep(self.entities@, entity_id@, s);
                }
                self.entities.insert(entity_id.to_owned(), s);
            },
            None => {
                proof {
                    crate::strmap::lemma_del_deep(self.entities@, entity_id@);
                }
                self.entities.remove(entity_id);
            },
        }
    }

    pub fn get(&self, entity_id: &str) -> (r: Option<&EntityState>)
        ensures
            r.deep_view() == self@.get(entity_id@),
    {
        self.entities.fetch(entity_id)
    }

    /// Entity's own area, falling back to its device's area.
    pub fn area_of(&self, entity_id: &str) -> (r: Option<&Area>)
        ensures
            r.deep_view() == self@.area_of(entity_id@),
    {
        let reg = match self.registry.fetch(entity_id) {
            Some(reg) => reg,
            None => return None,
        };
        let area_id = match &reg.area_id {
            Some(a) => a,
            None => match &reg.device_id {
                Some(d) => match self.devices.fetch(d.as_str()) {
                    Some(dev) => match &dev.area_id {
                        Some(a) => a,
                        None => return None,
                    },
                    None => return None,
                },
                None => return None,
            },
        };
        self.areas.fetch(area_id.as_str())
    }

    pub fn area_name(&self, entity_id: &str) -> (r: &str)
        ensures
            r@ == self@.area_name(entity_id@),
    {
        match self.area_of(entity_id) {
            Some(a) => a.name.as_str(),
            None => UNASSIGNED,
        }
    }

    /// Hidden, config/diagnostic and system entities are left out of the default views
    /// (like the Home Assistant dashboard) unless `show_all` is set.
    pub fn is_visible(&self, entity_id: &str) -> (r: bool)
        ensures
            r == self@.is_visible(entity_id@),
    {
        if self.show_all {
            return true;
        }
        if is_system_domain(domain_of(entity_id)) {
            return false;
        }
        match self.registry.fetch(entity_id) {
            Some(r) => {
                r.hidden_by.is_none() && r.disabled_by.is_none() && r.entity_category.is_none() && !match &r.platform {
                    Some(p) => same(p.as_str(), "backup"),
                    None => false,
                }
            },
            None => true,
        }
    }

    fn group_key(&self, e: &EntityState, by: GroupBy) -> (r: String)
        ensures
            r@ == self@.group_key(e@, by),
    {
        match by {
            GroupBy::Area => match self.area_of(e.entity_id.as_str()) {
                Some(a) => a.area_id.clone(),
                None => {
                    let none = String::new();
                    assert(none@ =~= Seq::empty());
                    none
                },
            },
            GroupBy::Domain => e.domain().to_owned(),
        }
    }

    fn group_title(&self, key: &str, by: GroupBy) -> (r: String)
        ensures
            r@ == self@.group_title(key@, by),
    {
        match by {
            GroupBy::Area => match self.areas.fetch(key) {
                Some(a) => a.name.clone(),
                None => UNASSIGNED.to_owned(),
            },
            GroupBy::Domain => key.to_owned(),
        }
    }

    /// The entities that are listed, in the order of their keys.
    fn listed(&self, by: GroupBy, group: Option<&str>, domains: Option<&[&str]>) -> (r: Vec<&EntityState>)
        ensures
            r.deep_view() == self@.listed(by, group.deep_view(), domains.deep_view()),
    {
        let ghost all = crate::strmap::values(self@.entities);
        let ghost keep = |e: EntityModel| self@.lists(by, group.deep_view(), domains.deep_view(), e);
        let mut out: Vec<&EntityState> = Vec::new();
        let n: usize = self.entities.len();
        proof {
            lemma_filter_empty(all, keep);
        }
        assert(out.deep_view() =~= Seq::empty());
        for i in 0..n
            invariant
                n == self.entities@.len(),
                all == crate::strmap::values(self@.entities),
                keep == (|e: EntityModel| self@.lists(by, group.deep_view(), domains.deep_view(), e)),
                out.deep_view() == all.take(i as int).filter(keep),
        {
            let e = self.entities.value_at(i);
            proof {
                lemma_filter_step(all, keep, i as int);
                assert(all[i as int] == e@);
            }
            let ghost sofar = out.deep_view();
            let in_domains = match domains {
                Some(d) => among(d, e.domain()),
                None => true,
            };
            let keeps = self.is_visible(e.entity_id.as_str()) && in_domains && match group {
                Some(g) => {
                    let key = self.group_key(e, by);
                    same(key.as_str(), g)
                },
                None => true,
            };
            if keeps {
                out.push(e);
                assert(out.deep_view() =~= sofar.push(e@));
            }
        }
        assert(all.take(n as int) =~= all);
        out
    }

    /// Visible entities, sorted by friendly name, optionally restricted to a group or domain set.
    pub fn visible(&self, by: GroupBy, group: Option<&str>, domains: Option<&[&str]>) -> (r: Vec<&EntityState>)
        ensures
            r.deep_view() == self@.visible(by, group.deep_view(), domains.deep_view()),
    {
        sort_by_name(self.listed(by, group, domains))
    }

    /// Sidebar groups: "All" first, then groups sorted by title, "Unassigned" last.
    pub fn groups(&self, by: GroupBy) -> (r: Vec<Group>)
        ensures
            r.deep_view() == self@.groups(by),
    {
        let listed = self.listed(by, None, None);
        let ghost l = listed.deep_view();
        let total: usize = listed.len();
        let ghost key = |e: EntityModel| self@.group_key(e, by);
        let mut keys: Vec<String> = Vec::new();
        for i in 0..total
            invariant
                total == listed@.len(),
                l == listed.deep_view(),
                key == (|e: EntityModel| self@.group_key(e, by)),
                keys.deep_view() == l.take(i as int).map_values(key),
        {
            let ghost sofar = keys.deep_view();
            let k = self.group_key(listed[i], by);
            keys.push(k);
            assert(l[i as int] == listed@[i as int]@);
            assert(keys.deep_view() =~= sofar.push(k@));
            assert(l.take(i + 1).map_values(key) =~= l.take(i as int).map_values(key).push(k@));
        }
        assert(l.take(total as int) =~= l);
        let counts = tallied(keys);
        let m: usize = counts.len();
        let ghost f = |e: (Seq<char>, int)| GroupModel { key: Some(e.0), title: self@.group_title(e.0, by), count: e.1 };
        let ghost entries = self@.counted(l, by);
        let mut groups: Vec<Group> = Vec::new();
        for i in 0..m
            invariant
                m == counts@.len(),
                entries == crate::strmap::as_ints(counts@),
                f == (|e: (Seq<char>, int)| GroupModel { key: Some(e.0), title: self@.group_title(e.0, by), count: e.1 }),
                groups.deep_view() == entries.take(i as int).map_values(f),
        {
            let key = counts.key_at(i);
            let count: usize = *counts.value_at(i);
            let ghost sofar = groups.deep_view();
            let g = Group { title: self.group_title(key, by), key: Some(key.to_owned()), count };
            groups.push(g);
            assert(entries[i as int] == (key@, count as int));
            assert(groups.deep_view() =~= sofar.push(g@));
            assert(entries.take(i + 1).map_values(f) =~= entries.take(i as int).map_values(f).push(g@));
        }
        assert(entries.take(m as int) =~= entries);
        let mut out = sort_groups(groups);
        let ghost rest = out.deep_view();
        out.insert(0, Group { key: None, title: "All".to_owned(), count: total });
        assert(out.deep_view() =~= seq![GroupModel { key: None, title: "All"@, count: total as int }] + rest);
        out
    }
}

/// Filtering one item more.
pub proof fn lemma_filter_step<T>(s: Seq<T>, keep: spec_fn(T) -> bool, i: int)
    requires
        0 <= i < s.len(),
    ensures
        s.take(i + 1).filter(keep) == if keep(s[i]) { s.take(i).filter(keep).push(s[i]) } else { s.take(i).filter(keep) },
{
    reveal(Seq::filter);
    assert(s.take(i + 1).drop_last() =~= s.take(i));
    assert(s.take(i + 1).last() == s[i]);
}

/// Filtering nothing.
pub proof fn lemma_filter_empty<T>(s: Seq<T>, keep: spec_fn(T) -> bool)
    ensures
        s.take(0).filter(keep) == Seq::<T>::empty(),
{
    reveal(Seq::filter);
    assert(s.take(0).filter(keep) =~= Seq::<T>::empty());
}

proof fn lemma_name_order()
    ensures
        crate::sort::weak_order(|a: EntityModel, b: EntityModel| name_before(a, b)),
{
    broadcast use crate::text::lemma_order_laws;

}

proof fn lemma_group_order()
    ensures
        crate::sort::weak_order(|a: GroupModel, b: GroupModel| group_before(a, b)),
{
    broadcast use crate::text::lemma_order_laws;

}

/// Whether one entry of a list to be sorted comes before another: by name, then by id.
pub open spec fn keyed_before(a: (String, &EntityState), b: (String, &EntityState)) -> bool {
    crate::text::lex_lt(a.0@, b.0@) || (a.0@ == b.0@ && crate::text::lex_lt(a.1@.entity_id, b.1@.entity_id))
}

proof fn lemma_keyed_order<'a>()
    ensures
        crate::sort::weak_order(|a: (String, &'a EntityState), b: (String, &'a EntityState)| keyed_before(a, b)),
{
    broadcast use crate::text::lemma_order_laws;

}

/// Entities by their names.
pub fn sort_by_name<'a>(v: Vec<&'a EntityState>) -> (r: Vec<&'a EntityState>)
    ensures
        r.deep_view() == by_name(v.deep_view()),
{
    let ghost l = v.deep_view();
    let n: usize = v.len();
    let mut keyed: Vec<(String, &'a EntityState)> = Vec::new();
    for i in 0..n
        invariant
            n == v@.len(),
            keyed@.len() == i,
            forall|j: int| 0 <= j < i ==> (#[trigger] keyed@[j]).1 == v@[j] && keyed@[j].0@ == crate::text::lowered(v@[j]@.name()),
    {
        keyed.push((lowercase(v[i].friendly_name()), v[i]));
    }
    let ghost lt = |a: (String, &'a EntityState), b: (String, &'a EntityState)| keyed_before(a, b);
    let ghost f = |a: (String, &'a EntityState)| a.1@;
    let ghost over = |a: EntityModel, b: EntityModel| name_before(a, b);
    proof {
        lemma_keyed_order();
    }
    let before = |a: &(String, &'a EntityState), b: &(String, &'a EntityState)| -> (y: bool)
        ensures
            y == keyed_before(*a, *b),
        {
            match order(a.0.as_str(), b.0.as_str()) {
                Rel::Before => true,
                Rel::Same => match order(a.1.entity_id.as_str(), b.1.entity_id.as_str()) {
                    Rel::Before => true,
                    _ => false,
                },
                Rel::After => false,
            }
        };
    let ghost ks = keyed@;
    let sorted = sort(keyed, before, Ghost(lt));
    proof {
        assert forall|a: (String, &'a EntityState), b: (String, &'a EntityState)| ks.contains(a) && ks.contains(b) implies #[trigger] lt(a, b) == over(f(a), f(b)) by {
            let i = choose|i: int| 0 <= i < ks.len() && ks[i] == a;
            let j = choose|j: int| 0 <= j < ks.len() && ks[j] == b;
            assert(ks[i].0@ == crate::text::lowered(a.1@.name()));
            assert(ks[j].0@ == crate::text::lowered(b.1@.name()));
        }
        crate::sort::lemma_sorted_map(ks, lt, f, over);
        assert(ks.map_values(f) =~= l);
    }
    let mut out: Vec<&'a EntityState> = Vec::new();
    let m: usize = sorted.len();
    for i in 0..m
        invariant
            m == sorted@.len(),
            out@.len() == i,
            forall|j: int| 0 <= j < i ==> #[trigger] out@[j] == sorted@[j].1,
    {
        out.push(sorted[i].1);
    }
    assert(out.deep_view() =~= sorted@.map_values(f));
    out
}

/// Groups by their titles, the unassigned last.
fn sort_groups(v: Vec<Group>) -> (r: Vec<Group>)
    ensures
        r.deep_view() == crate::sort::sorted(v.deep_view(), |a: GroupModel, b: GroupModel| group_before(a, b)),
{
    let ghost lt = |a: Group, b: Group| group_before(a@, b@);
    let ghost f = |a: Group| a@;
    let ghost over = |a: GroupModel, b: GroupModel| group_before(a, b);
    proof {
        lemma_group_order();
        assert(crate::sort::weak_order(lt)) by {
            broadcast use crate::text::lemma_order_laws;

        }
    }
    let before = |a: &Group, b: &Group| -> (y: bool)
        ensures
            y == group_before(a@, b@),
        {
            let a_un = is_unassigned(a);
            let b_un = is_unassigned(b);
            if a_un != b_un {
                b_un
            } else {
                let x = lowercase(a.title.as_str());
                let y = lowercase(b.title.as_str());
                match order(x.as_str(), y.as_str()) {
                    Rel::Before => true,
                    _ => false,
                }
            }
        };
    let r = sort(v, before, Ghost(lt));
    proof {
        crate::sort::lemma_sorted_map(v@, lt, f, over);
        assert(v@.map_values(f) =~= v.deep_view());
    }
    assert(r.deep_view() =~= r@.map_values(f));
    r
}

fn is_unassigned(g: &Group) -> (r: bool)
    ensures
        r == unassigned(g@),
{
    match &g.key {
        Some(k) => {
            let empty = k.as_str().is_empty();
            assert(empty ==> k@ =~= Seq::<char>::empty());
            empty
        },
        None => false,
    }
}

// ----- Laws ---------------------------------------------------------------------------

/// The last of `l` under the key `k`.
pub open spec fn last_under<T>(l: Seq<T>, key: spec_fn(T) -> Seq<char>, k: Seq<char>) -> Option<T>
    decreases l.len(),
{
    if l.len() == 0 {
        None
    } else if key(l.last()) == k {
        Some(l.last())
    } else {
        last_under(l.drop_last(), key, k)
    }
}

/// An index has its keys in order and holds, under each key, the last of the list that has it.
pub proof fn law_index_holds_the_last<T>(l: Seq<T>, key: spec_fn(T) -> Seq<char>, k: Seq<char>)
    ensures
        crate::strmap::ascending(indexed(l, key)),
        crate::strmap::lookup(indexed(l, key), k) == last_under(l, key, k),
    decreases l.len(),
{
    if l.len() > 0 {
        law_index_holds_the_last(l.drop_last(), key, k);
        crate::strmap::lemma_put(indexed(l.drop_last(), key), key(l.last()), l.last());
    }
}

/// Loading, replacing a registry and changing a state keep the keys in order.
pub proof fn law_stores_stay_in_order(s: StoreModel, snap: SnapshotModel, update: UpdateModel, id: Seq<char>, new: Option<EntityModel>)
    requires
        s.wf(),
    ensures
        StoreModel::empty().wf(),
        s.with_snapshot(snap).wf(),
        s.with_registry(update).wf(),
        s.with_change(id, new).wf(),
{
    law_index_holds_the_last(snap.states, |s: EntityModel| s.entity_id, id);
    law_index_holds_the_last(snap.areas, |a: AreaModel| a.area_id, id);
    law_index_holds_the_last(snap.devices, |d: DeviceModel| d.id, id);
    law_index_holds_the_last(snap.entities, |e: RegistrationModel| e.entity_id, id);
    match update {
        UpdateModel::Areas(l) => law_index_holds_the_last(l, |a: AreaModel| a.area_id, id),
        UpdateModel::Devices(l) => law_index_holds_the_last(l, |d: DeviceModel| d.id, id),
        UpdateModel::Entities(l) => law_index_holds_the_last(l, |e: RegistrationModel| e.entity_id, id),
    }
    match new {
        Some(e) => crate::strmap::lemma_put(s.entities, id, e),
        None => crate::strmap::lemma_del(s.entities, id),
    }
}

/// What is read after a change is what the change said, and no other entity is touched by it.
pub proof fn law_changes_are_read_back(s: StoreModel, id: Seq<char>, new: Option<EntityModel>, other: Seq<char>)
    requires
        s.wf(),
    ensures
        s.with_change(id, new).get(id) == new,
        other != id ==> s.with_change(id, new).get(other) == s.get(other),
{
    match new {
        Some(e) => crate::strmap::lemma_put(s.entities, id, e),
        None => crate::strmap::lemma_del(s.entities, id),
    }
}

/// After a snapshot is loaded, the state of an entity is the last that the snapshot has of it, and
/// nothing is left of what was there before.
pub proof fn law_snapshots_replace_everything(s: StoreModel, snap: SnapshotModel, id: Seq<char>)
    ensures
        s.with_snapshot(snap).get(id) == last_under(snap.states, |s: EntityModel| s.entity_id, id),
        s.with_snapshot(snap).loaded,
{
    law_index_holds_the_last(snap.states, |s: EntityModel| s.entity_id, id);
}

/// What is listed is listed in the order of the names, each entity that belongs there once and no
/// other.
pub proof fn law_lists_are_sorted_and_complete(s: StoreModel, by: GroupBy, group: Option<Seq<char>>, domains: Option<Seq<Seq<char>>>)
    ensures
        crate::sort::in_order(s.visible(by, group, domains), |a: EntityModel, b: EntityModel| name_before(a, b)),
        s.visible(by, group, domains).to_multiset() == s.listed(by, group, domains).to_multiset(),
        s.visible(by, group, domains).len() == s.listed(by, group, domains).len(),
{
    lemma_name_order();
    crate::sort::lemma_sorted(s.listed(by, group, domains), |a: EntityModel, b: EntityModel| name_before(a, b));
}

proof fn lemma_filter_all<T>(l: Seq<T>, keep: spec_fn(T) -> bool)
    requires
        forall|i: int| 0 <= i < l.len() ==> keep(#[trigger] l[i]),
    ensures
        l.filter(keep) == l,
    decreases l.len(),
{
    reveal(Seq::filter);
    if l.len() > 0 {
        let t = l.drop_last();
        assert forall|i: int| 0 <= i < t.len() implies keep(#[trigger] t[i]) by {
            assert(t[i] == l[i]);
        }
        lemma_filter_all(t, keep);
        assert(keep(l[l.len() - 1]));
        assert(t.push(l.last()) =~= l);
    }
    assert(l.filter(keep) =~= l);
}

/// Showing everything lists every entity.
pub proof fn law_showing_all_lists_everything(s: StoreModel, by: GroupBy)
    requires
        s.show_all,
    ensures
        s.visible(by, None, None).len() == s.entities.len(),
        s.visible(by, None, None).to_multiset() == crate::strmap::values(s.entities).to_multiset(),
{
    law_lists_are_sorted_and_complete(s, by, None, None);
    lemma_filter_all(crate::strmap::values(s.entities), |e: EntityModel| s.lists(by, None, None, e));
}

proof fn lemma_filter_twice<T>(l: Seq<T>, p: spec_fn(T) -> bool, q: spec_fn(T) -> bool, both: spec_fn(T) -> bool)
    requires
        forall|x: T| #[trigger] both(x) == (p(x) && q(x)),
    ensures
        l.filter(p).filter(q) == l.filter(both),
    decreases l.len(),
{
    reveal(Seq::filter);
    if l.len() > 0 {
        let t = l.drop_last();
        lemma_filter_twice(t, p, q, both);
        assert(both(l.last()) == (p(l.last()) && q(l.last())));
        if p(l.last()) {
            assert(t.filter(p).push(l.last()).drop_last() =~= t.filter(p));
        }
    }
    assert(l.filter(p).filter(q) =~= l.filter(both));
}

proof fn lemma_counted(s: StoreModel, l: Seq<EntityModel>, by: GroupBy, k: Seq<char>)
    ensures
        crate::strmap::ascending(s.counted(l, by)),
        ({
            let n = l.filter(|e: EntityModel| s.group_key(e, by) == k).len() as int;
            crate::strmap::lookup(s.counted(l, by), k) == if n > 0 { Some(n) } else { None }
        }),
{
    let key = |e: EntityModel| s.group_key(e, by);
    crate::strmap::lemma_tally(l.map_values(key), k);
    lemma_occurrences(l, key, k);
    assert((|x: EntityModel| key(x) == k) =~= (|e: EntityModel| s.group_key(e, by) == k));
}

proof fn lemma_occurrences<T>(l: Seq<T>, key: spec_fn(T) -> Seq<char>, k: Seq<char>)
    ensures
        crate::strmap::occurrences(l.map_values(key), k) == l.filter(|x: T| key(x) == k).len(),
    decreases l.len(),
{
    reveal(Seq::filter);
    if l.len() > 0 {
        assert(l.map_values(key).drop_last() =~= l.drop_last().map_values(key));
        lemma_occurrences(l.drop_last(), key, k);
    }
}

/// A group counts as many entities as choosing it lists, and "All" as many as are listed without a
/// choice.
pub proof fn law_groups_count_what_they_list(s: StoreModel, by: GroupBy, i: int)
    requires
        0 <= i < s.groups(by).len(),
    ensures
        s.groups(by)[i].count == s.visible(by, s.groups(by)[i].key, None).len(),
{
    let l = s.listed(by, None, None);
    let entries = s.counted(l, by);
    let f = |e: (Seq<char>, int)| GroupModel { key: Some(e.0), title: s.group_title(e.0, by), count: e.1 };
    let lt = |a: GroupModel, b: GroupModel| group_before(a, b);
    let made = entries.map_values(f);
    let g = s.groups(by)[i];
    law_lists_are_sorted_and_complete(s, by, g.key, None);
    if i > 0 {
        crate::sort::lemma_sorted_members(made, lt);
        assert(g == crate::sort::sorted(made, lt)[i - 1]);
        assert(made.contains(g));
        let j = choose|j: int| 0 <= j < made.len() && made[j] == g;
        let (k, n) = entries[j];
        assert(g == f(entries[j]));
        lemma_counted(s, l, by, k);
        crate::strmap::lemma_found(entries, j);
        let all = |e: EntityModel| s.lists(by, None, None, e);
        let mine = |e: EntityModel| s.group_key(e, by) == k;
        let both = |e: EntityModel| s.lists(by, Some(k), None, e);
        lemma_filter_twice(crate::strmap::values(s.entities), all, mine, both);
        assert(s.listed(by, Some(k), None) == l.filter(mine));
    }
}

/// "All" comes first; the rest go by title, and the entities without an area come last.
pub proof fn law_groups_are_in_order(s: StoreModel, by: GroupBy)
    ensures
        s.groups(by).len() > 0,
        s.groups(by)[0].key is None,
        forall|i: int, j: int| 0 < i < j < s.groups(by).len() ==> !group_before(#[trigger] s.groups(by)[j], #[trigger] s.groups(by)[i]),
        forall|i: int, j: int| 0 < i < j < s.groups(by).len() && unassigned(#[trigger] s.groups(by)[i]) ==> unassigned(#[trigger] s.groups(by)[j]),
{
    let made = s.counted(s.listed(by, None, None), by).map_values(
        |e: (Seq<char>, int)| GroupModel { key: Some(e.0), title: s.group_title(e.0, by), count: e.1 },
    );
    let lt = |a: GroupModel, b: GroupModel| group_before(a, b);
    lemma_group_order();
    crate::sort::lemma_sorted(made, lt);
    let t = crate::sort::sorted(made, lt);
    assert forall|i: int, j: int| 0 < i < j < s.groups(by).len() implies !group_before(#[trigger] s.groups(by)[j], #[trigger] s.groups(by)[i]) by {
        assert(s.groups(by)[i] == t[i - 1] && s.groups(by)[j] == t[j - 1]);
        assert(!lt(t[j - 1], t[i - 1]));
    }
}

/// How many entities the groups behind the first count together.
pub open spec fn counted_together(groups: Seq<GroupModel>) -> int {
    crate::sort::sum(groups.drop_first(), |g: GroupModel| g.count)
}

/// "All" comes first. The groups behind it have keys that differ, none is empty, and every listed
/// entity is in exactly one of them: together they count what "All" counts.
pub proof fn law_groups_part_the_entities(s: StoreModel, by: GroupBy)
    ensures
        s.groups(by).len() > 0,
        s.groups(by)[0].key is None,
        s.groups(by)[0].title == "All"@,
        forall|i: int| 0 < i < s.groups(by).len() ==> (#[trigger] s.groups(by)[i]).key is Some && s.groups(by)[i].count >= 1,
        forall|i: int, j: int| 0 < i < j < s.groups(by).len() ==> (#[trigger] s.groups(by)[i]).key != (#[trigger] s.groups(by)[j]).key,
        counted_together(s.groups(by)) == s.groups(by)[0].count,
{
    let l = s.listed(by, None, None);
    let keys = l.map_values(|e: EntityModel| s.group_key(e, by));
    let entries = s.counted(l, by);
    let f = |e: (Seq<char>, int)| GroupModel { key: Some(e.0), title: s.group_title(e.0, by), count: e.1 };
    let lt = |a: GroupModel, b: GroupModel| group_before(a, b);
    let made = entries.map_values(f);
    let t = crate::sort::sorted(made, lt);
    let groups = s.groups(by);
    let key = |g: GroupModel| g.key;
    let count = |g: GroupModel| g.count;
    assert(groups.drop_first() =~= t);
    crate::sort::lemma_sorted_members(made, lt);
    crate::strmap::lemma_tally(keys, Seq::empty());
    crate::strmap::lemma_tally_sum(keys);
    crate::sort::lemma_sum_map(entries, f, count);
    crate::sort::lemma_sorted_sum(made, lt, count);
    assert((|e: (Seq<char>, int)| count(f(e))) =~= (|e: (Seq<char>, int)| e.1));
    assert forall|i: int, j: int| 0 <= i < j < made.len() implies key(#[trigger] made[i]) != key(#[trigger] made[j]) by {
        crate::strmap::lemma_found(entries, i);
        crate::strmap::lemma_found(entries, j);
    }
    crate::sort::lemma_sorted_distinct(made, lt, key);
    assert forall|i: int| 0 < i < groups.len() implies (#[trigger] groups[i]).key is Some && groups[i].count >= 1 by {
        assert(groups[i] == t[i - 1]);
        assert(made.contains(t[i - 1]));
        let j = choose|j: int| 0 <= j < made.len() && made[j] == t[i - 1];
        assert(made[j] == f(entries[j]));
        lemma_counted(s, l, by, entries[j].0);
        crate::strmap::lemma_found(entries, j);
    }
    assert forall|i: int, j: int| 0 < i < j < groups.len() implies (#[trigger] groups[i]).key != (#[trigger] groups[j]).key by {
        assert(groups[i] == t[i - 1] && groups[j] == t[j - 1]);
        assert(key(t[i - 1]) != key(t[j - 1]));
    }
}

// ----- Where entities belong ------------------------------------------------------------------

/// An entity is in the area that its registration names, whatever its device says; where it names none it
/// is in its device's area. An entity that is not registered, and one of no known area, is in none.
pub proof fn law_own_area_comes_first(s: StoreModel, id: Seq<char>)
    ensures
        ({
            let reg = crate::strmap::lookup(s.registry, id);
            let device = if reg is Some && reg->0.device_id is Some { crate::strmap::lookup(s.devices, reg->0.device_id->0) } else { None };
            &&& reg is None ==> s.area_of(id) is None
            &&& reg is Some && reg->0.area_id is Some ==> s.area_of(id) == crate::strmap::lookup(s.areas, reg->0.area_id->0)
            &&& reg is Some && reg->0.area_id is None && device is Some && device->0.area_id is Some ==> s.area_of(id) == crate::strmap::lookup(
                s.areas,
                device->0.area_id->0,
            )
            &&& reg is Some && reg->0.area_id is None && (device is None || device->0.area_id is None) ==> s.area_of(id) is None
        }),
        s.area_name(id) == match s.area_of(id) {
            Some(a) => a.name,
            None => "Unassigned"@,
        },
{
}

/// What a device says does not matter to an entity with an area of its own.
pub proof fn law_devices_do_not_overrule(s: StoreModel, devices: Seq<(Seq<char>, DeviceModel)>, id: Seq<char>, a: AreaModel)
    requires
        crate::strmap::lookup(s.registry, id) matches Some(reg) && reg.area_id == Some(a.area_id) && crate::strmap::lookup(s.areas, a.area_id)
            == Some(a),
    ensures
        (StoreModel { devices, ..s }).area_of(id) == Some(a),
        (StoreModel { devices, ..s }).area_name(id) == a.name,
{
}

/// Unless everything is shown, an entity is left out for any one of these: its domain is one of the
/// system's, it is hidden or disabled, it is there for configuration or diagnosis, or it belongs to
/// backups. Nothing else leaves it out.
pub proof fn law_what_is_left_out(s: StoreModel, id: Seq<char>)
    ensures
        s.show_all ==> s.is_visible(id),
        ({
            let d = crate::ha::types::domain(id);
            let reg = crate::strmap::lookup(s.registry, id);
            let system = d == "ai_task"@ || d == "conversation"@ || d == "event"@ || d == "stt"@ || d == "tts"@ || d == "update"@ || d == "wake_word"@ || d
                == "zone"@;
            let housekeeping = reg is Some && (reg->0.hidden_by is Some || reg->0.disabled_by is Some || reg->0.entity_category is Some
                || reg->0.platform == Some("backup"@));
            !s.show_all ==> (s.is_visible(id) <==> !system && !housekeeping)
        }),
{
}

/// What is listed: the entities of the store that are visible and, where they are given, of one of the
/// domains and in the group. A group of areas is known by the area's id, that of the entities without one
/// by nothing; a group of domains by the domain.
pub proof fn law_what_is_listed(s: StoreModel, by: GroupBy, group: Option<Seq<char>>, domains: Option<Seq<Seq<char>>>, e: EntityModel)
    ensures
        s.visible(by, group, domains).contains(e) <==> {
            &&& crate::strmap::values(s.entities).contains(e)
            &&& s.is_visible(e.entity_id)
            &&& domains matches Some(d) ==> d.contains(crate::ha::types::domain(e.entity_id))
            &&& group matches Some(g) ==> match by {
                GroupBy::Domain => g == crate::ha::types::domain(e.entity_id),
                GroupBy::Area => match s.area_of(e.entity_id) {
                    Some(a) => g == a.area_id,
                    None => g.len() == 0,
                },
            }
        },
{
    broadcast use vstd::seq_lib::group_to_multiset_ensures;

    let all = crate::strmap::values(s.entities);
    let keep = |x: EntityModel| s.lists(by, group, domains, x);
    law_lists_are_sorted_and_complete(s, by, group, domains);
    let l = s.listed(by, group, domains);
    let v = s.visible(by, group, domains);
    assert(v.contains(e) <==> v.to_multiset().count(e) > 0);
    assert(l.contains(e) <==> l.to_multiset().count(e) > 0);
    if l.contains(e) {
        lemma_filter_has(all, keep, e);
    }
    if all.contains(e) && keep(e) {
        let i = choose|i: int| 0 <= i < all.len() && all[i] == e;
        all.lemma_filter_contains(keep, i);
    }
    if let Some(g) = group {
        if g.len() == 0 {
            assert(g =~= Seq::empty());
        }
    }
}

proof fn lemma_filter_has<T>(l: Seq<T>, keep: spec_fn(T) -> bool, x: T)
    requires
        l.filter(keep).contains(x),
    ensures
        l.contains(x) && keep(x),
    decreases l.len(),
{
    reveal(Seq::filter);
    if l.len() > 0 {
        if l.drop_last().filter(keep).contains(x) {
            lemma_filter_has(l.drop_last(), keep, x);
            let i = choose|i: int| 0 <= i < l.drop_last().len() && l.drop_last()[i] == x;
            assert(l[i] == x);
        } else {
            assert(l[l.len() - 1] == x);
        }
    }
}

/// Lists go by the name, capitals or not, and those of one name by the id.
pub proof fn law_lists_go_by_name(s: StoreModel, by: GroupBy, group: Option<Seq<char>>, domains: Option<Seq<Seq<char>>>, i: int, j: int)
    requires
        0 <= i < j < s.visible(by, group, domains).len(),
    ensures
        ({
            let a = s.visible(by, group, domains)[i];
            let b = s.visible(by, group, domains)[j];
            let x = crate::text::lowered(a.name());
            let y = crate::text::lowered(b.name());
            crate::text::lex_lt(x, y) || (x == y && (crate::text::lex_lt(a.entity_id, b.entity_id) || a.entity_id == b.entity_id))
        }),
{
    broadcast use crate::text::lemma_order_laws;

    law_lists_are_sorted_and_complete(s, by, group, domains);
    let lt = |a: EntityModel, b: EntityModel| name_before(a, b);
    let v = s.visible(by, group, domains);
    assert(!lt(v[j], v[i]));
}

/// A group of an area is titled with the area's name, one of entities without a known area with
/// "Unassigned", and one of a domain with the domain. "All" counts every listed entity.
pub proof fn law_groups_are_titled(s: StoreModel, by: GroupBy, i: int)
    requires
        0 <= i < s.groups(by).len(),
    ensures
        i == 0 ==> s.groups(by)[i].key is None && s.groups(by)[i].title == "All"@ && s.groups(by)[i].count == s.visible(by, None, None).len(),
        i > 0 ==> s.groups(by)[i].key is Some && match by {
            GroupBy::Domain => s.groups(by)[i].title == s.groups(by)[i].key->0,
            GroupBy::Area => s.groups(by)[i].title == match crate::strmap::lookup(s.areas, s.groups(by)[i].key->0) {
                Some(a) => a.name,
                None => "Unassigned"@,
            },
        },
{
    let made = s.counted(s.listed(by, None, None), by).map_values(
        |e: (Seq<char>, int)| GroupModel { key: Some(e.0), title: s.group_title(e.0, by), count: e.1 },
    );
    let lt = |a: GroupModel, b: GroupModel| group_before(a, b);
    law_groups_count_what_they_list(s, by, i);
    if i > 0 {
        crate::sort::lemma_sorted_members(made, lt);
        assert(s.groups(by)[i] == crate::sort::sorted(made, lt)[i - 1]);
        assert(made.contains(s.groups(by)[i]));
    }
}

/// The groups behind "All" go by title, capitals or not; the one of the entities without an area, known by
/// nothing, comes last.
pub proof fn law_groups_go_by_title(s: StoreModel, by: GroupBy, i: int, j: int)
    requires
        0 < i < j < s.groups(by).len(),
    ensures
        s.groups(by)[i].key != Some(Seq::<char>::empty()),
        s.groups(by)[j].key != Some(Seq::<char>::empty()) ==> !crate::text::lex_lt(
            crate::text::lowered(s.groups(by)[j].title),
            crate::text::lowered(s.groups(by)[i].title),
        ),
{
    law_groups_are_in_order(s, by);
    law_groups_part_the_entities(s, by);
    assert(!group_before(s.groups(by)[j], s.groups(by)[i]));
}

/// A snapshot fills the store: each of its lists can be looked up by its own ids, and the last of those
/// with one id counts. Whether everything is shown stays.
pub proof fn law_snapshots_fill_the_store(s: StoreModel, snap: SnapshotModel, k: Seq<char>)
    ensures
        ({
            let t = s.with_snapshot(snap);
            &&& crate::strmap::lookup(t.entities, k) == last_under(snap.states, |x: EntityModel| x.entity_id, k)
            &&& crate::strmap::lookup(t.areas, k) == last_under(snap.areas, |x: AreaModel| x.area_id, k)
            &&& crate::strmap::lookup(t.devices, k) == last_under(snap.devices, |x: DeviceModel| x.id, k)
            &&& crate::strmap::lookup(t.registry, k) == last_under(snap.entities, |x: RegistrationModel| x.entity_id, k)
            &&& t.loaded && t.show_all == s.show_all
        }),
{
    law_index_holds_the_last(snap.states, |x: EntityModel| x.entity_id, k);
    law_index_holds_the_last(snap.areas, |x: AreaModel| x.area_id, k);
    law_index_holds_the_last(snap.devices, |x: DeviceModel| x.id, k);
    law_index_holds_the_last(snap.entities, |x: RegistrationModel| x.entity_id, k);
}

/// A registry that was fetched again replaces that registry and nothing else.
pub proof fn law_registries_are_replaced(s: StoreModel, update: UpdateModel, k: Seq<char>)
    ensures
        ({
            let t = s.with_registry(update);
            &&& t.entities == s.entities && t.loaded == s.loaded && t.show_all == s.show_all
            &&& match update {
                UpdateModel::Areas(l) => crate::strmap::lookup(t.areas, k) == last_under(l, |x: AreaModel| x.area_id, k) && t.devices == s.devices
                    && t.registry == s.registry,
                UpdateModel::Devices(l) => crate::strmap::lookup(t.devices, k) == last_under(l, |x: DeviceModel| x.id, k) && t.areas == s.areas
                    && t.registry == s.registry,
                UpdateModel::Entities(l) => crate::strmap::lookup(t.registry, k) == last_under(l, |x: RegistrationModel| x.entity_id, k) && t.areas
                    == s.areas && t.devices == s.devices,
            }
        }),
{
    match update {
        UpdateModel::Areas(l) => law_index_holds_the_last(l, |x: AreaModel| x.area_id, k),
        UpdateModel::Devices(l) => law_index_holds_the_last(l, |x: DeviceModel| x.id, k),
        UpdateModel::Entities(l) => law_index_holds_the_last(l, |x: RegistrationModel| x.entity_id, k),
    }
}

/// A change of one entity's state touches nothing else, and grouping goes to and fro between the two.
pub proof fn law_changes_touch_states_alone(s: StoreModel, id: Seq<char>, new: Option<EntityModel>, by: GroupBy)
    ensures
        ({
            let t = s.with_change(id, new);
            t.areas == s.areas && t.devices == s.devices && t.registry == s.registry && t.loaded == s.loaded && t.show_all == s.show_all
        }),
        by.toggled() != by && by.toggled().toggled() == by,
        GroupBy::Area.labelled() == "Areas"@ && GroupBy::Domain.labelled() == "Domains"@,
{
}

} // verus!
