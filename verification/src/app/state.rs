//! What the application is, and what it becomes of keys and events.

use crate::ha::actions::Action;
use crate::ha::client::{CommandModel, ConnStatus, EventModel, HaCommand, StatusModel};
use crate::ha::types::{CallModel, EntityModel, HistoryPoint, LogModel, LogbookEntry, PointModel, ServiceCall};
use crate::search::Fuzzy;
use crate::store::{GroupBy, Store, StoreModel};
use crate::text;
use crate::time::{TimeModel, Timestamp};
use vstd::prelude::*;

verus! {

/// How long a toast is shown, in milliseconds.
pub const TOAST_TTL: u64 = 4_000;

/// How old the logbook may get before opening its tab fetches it again.
pub const LOGBOOK_STALE: u64 = 60_000;

pub const HISTORY_HOURS: u32 = 24;

pub const LOGBOOK_HOURS: u32 = 24;

/// How many items the palette lists at most.
pub const PALETTE_MAX: usize = 200;

/// The time: in milliseconds on a clock that never goes back, and as a date.
#[derive(Debug, Clone, Copy)]
pub struct Clock {
    pub ms: u64,
    pub date: Timestamp,
}

/// What a [`Clock`] stands for.
pub struct ClockModel {
    pub ms: u64,
    pub date: TimeModel,
}

impl View for Clock {
    type V = ClockModel;

    open spec fn view(&self) -> ClockModel {
        ClockModel { ms: self.ms, date: self.date@ }
    }
}

/// The milliseconds that passed between two readings of the clock.
pub open spec fn elapsed(since: u64, now: u64) -> int {
    if now >= since {
        now - since
    } else {
        0
    }
}

#[derive(Debug, Clone, Copy, PartialEq, Eq, Structural)]
pub enum KeyCode {
    Char(char),
    Enter,
    Esc,
    Tab,
    BackTab,
    Backspace,
    Up,
    Down,
    Left,
    Right,
    PageUp,
    PageDown,
    Home,
    End,
    /// Any other key.
    Other,
}

#[derive(Debug, Clone, Copy, PartialEq, Eq, Structural)]
pub struct KeyEvent {
    pub code: KeyCode,
    /// Whether Control is held.
    pub ctrl: bool,
}

/// What the terminal tells of.
#[derive(Debug, Clone, Copy, PartialEq, Eq, Structural)]
pub enum Event {
    /// A key was pressed or repeats.
    Key(KeyEvent),
    /// A key was released.
    Release(KeyEvent),
    Other,
}

#[derive(Debug, Clone, Copy, PartialEq, Eq, Structural)]
pub enum Tab {
    Entities,
    Scenes,
    Automations,
    Logbook,
}

#[derive(Debug, Clone, Copy, PartialEq, Eq, Structural)]
pub enum Focus {
    Groups,
    List,
}

#[derive(Debug, PartialEq)]
pub enum Mode {
    Normal,
    Filter,
    Palette,
    Confirm { call: ServiceCall, label: String },
    Help,
    History,
}

#[derive(Debug)]
pub struct Toast {
    pub text: String,
    pub error: bool,
    pub at: u64,
}

#[derive(Debug)]
pub struct HistoryView {
    pub entity_id: String,
    pub name: String,
    pub unit: Option<String>,
    pub points: Option<Vec<HistoryPoint>>,
    pub error: Option<String>,
}

#[derive(Debug)]
pub struct LogbookView {
    pub entries: Vec<LogbookEntry>,
    pub loading: bool,
    pub error: Option<String>,
    pub fetched_at: Option<u64>,
    /// Restrict to this entity (toggled with `f`).
    pub entity: Option<String>,
    /// The selected row.
    pub state: Option<usize>,
}

#[derive(Debug, PartialEq)]
pub enum PaletteAction {
    GoTo(String),
    Act(String, Action),
    Tab(Tab),
    ToggleGroupBy,
    Resync,
    Help,
    Quit,
}

#[derive(Debug, PartialEq)]
pub struct PaletteItem {
    pub label: String,
    pub hint: String,
    pub action: PaletteAction,
}

#[derive(Debug)]
pub struct Palette {
    pub input: String,
    pub items: Vec<PaletteItem>,
    /// The selected item.
    pub state: Option<usize>,
}

/// The selected row of each entity-list tab.
#[derive(Debug, Clone, Copy, PartialEq, Eq, Structural)]
pub struct ListStates {
    pub entities: Option<usize>,
    pub scenes: Option<usize>,
    pub automations: Option<usize>,
}

pub struct App {
    pub store: Store,
    pub status: ConnStatus,
    /// When `status` last changed (drives the reconnect countdown).
    pub status_since: u64,
    pub tab: Tab,
    pub focus: Focus,
    pub mode: Mode,
    pub group_by: GroupBy,
    /// The selected group.
    pub group_state: Option<usize>,
    pub list_states: ListStates,
    pub filter: String,
    pub palette: Palette,
    pub history: Option<HistoryView>,
    pub logbook: LogbookView,
    pub toast: Option<Toast>,
    pub should_quit: bool,
    pub fuzzy: Fuzzy,
    /// Commands for Home Assistant, the oldest first.
    pub cmds: Vec<HaCommand>,
}

/// What a [`Mode`] stands for.
pub enum ModeModel {
    Normal,
    Filter,
    Palette,
    Confirm { call: CallModel, label: Seq<char> },
    Help,
    History,
}

/// What a [`Toast`] stands for.
pub struct ToastModel {
    pub text: Seq<char>,
    pub error: bool,
    pub at: u64,
}

/// What a [`HistoryView`] stands for.
pub struct HistoryModel {
    pub entity_id: Seq<char>,
    pub name: Seq<char>,
    pub unit: Option<Seq<char>>,
    pub points: Option<Seq<PointModel>>,
    pub error: Option<Seq<char>>,
}

/// What a [`LogbookView`] stands for.
#[verifier::ext_equal]
pub struct LogbookModel {
    pub entries: Seq<LogModel>,
    pub loading: bool,
    pub error: Option<Seq<char>>,
    pub fetched_at: Option<u64>,
    pub entity: Option<Seq<char>>,
    pub state: Option<usize>,
}

/// What a [`PaletteAction`] stands for.
pub enum PaletteActionModel {
    GoTo(Seq<char>),
    Act(Seq<char>, Action),
    Tab(Tab),
    ToggleGroupBy,
    Resync,
    Help,
    Quit,
}

/// What a [`PaletteItem`] stands for.
pub struct ItemModel {
    pub label: Seq<char>,
    pub hint: Seq<char>,
    pub action: PaletteActionModel,
}

/// What a [`Palette`] stands for.
#[verifier::ext_equal]
pub struct PaletteModel {
    pub input: Seq<char>,
    pub items: Seq<ItemModel>,
    pub state: Option<usize>,
}

/// What an [`App`] stands for.
#[verifier::ext_equal]
pub struct AppModel {
    pub store: StoreModel,
    pub status: StatusModel,
    pub status_since: u64,
    pub tab: Tab,
    pub focus: Focus,
    pub mode: ModeModel,
    pub group_by: GroupBy,
    pub group_state: Option<usize>,
    pub list_states: ListStates,
    pub filter: Seq<char>,
    pub palette: PaletteModel,
    pub history: Option<HistoryModel>,
    pub logbook: LogbookModel,
    pub toast: Option<ToastModel>,
    pub should_quit: bool,
    pub cmds: Seq<CommandModel>,
}

impl View for Mode {
    type V = ModeModel;

    open spec fn view(&self) -> ModeModel {
        match self {
            Mode::Normal => ModeModel::Normal,
            Mode::Filter => ModeModel::Filter,
            Mode::Palette => ModeModel::Palette,
            Mode::Confirm { call, label } => ModeModel::Confirm { call: call@, label: label@ },
            Mode::Help => ModeModel::Help,
            Mode::History => ModeModel::History,
        }
    }
}

impl View for Toast {
    type V = ToastModel;

    open spec fn view(&self) -> ToastModel {
        ToastModel { text: self.text@, error: self.error, at: self.at }
    }
}

impl DeepView for Toast {
    type V = ToastModel;

    open spec fn deep_view(&self) -> ToastModel {
        self@
    }
}

impl View for HistoryView {
    type V = HistoryModel;

    open spec fn view(&self) -> HistoryModel {
        HistoryModel {
            entity_id: self.entity_id@,
            name: self.name@,
            unit: self.unit.deep_view(),
            points: self.points.deep_view(),
            error: self.error.deep_view(),
        }
    }
}

impl DeepView for HistoryView {
    type V = HistoryModel;

    open spec fn deep_view(&self) -> HistoryModel {
        self@
    }
}

impl View for LogbookView {
    type V = LogbookModel;

    open spec fn view(&self) -> LogbookModel {
        LogbookModel {
            entries: self.entries.deep_view(),
            loading: self.loading,
            error: self.error.deep_view(),
            fetched_at: self.fetched_at,
            entity: self.entity.deep_view(),
            state: self.state,
        }
    }
}

impl View for PaletteAction {
    type V = PaletteActionModel;

    open spec fn view(&self) -> PaletteActionModel {
        match self {
            PaletteAction::GoTo(id) => PaletteActionModel::GoTo(id@),
            PaletteAction::Act(id, a) => PaletteActionModel::Act(id@, *a),
            PaletteAction::Tab(t) => PaletteActionModel::Tab(*t),
            PaletteAction::ToggleGroupBy => PaletteActionModel::ToggleGroupBy,
            PaletteAction::Resync => PaletteActionModel::Resync,
            PaletteAction::Help => PaletteActionModel::Help,
            PaletteAction::Quit => PaletteActionModel::Quit,
        }
    }
}

impl View for PaletteItem {
    type V = ItemModel;

    open spec fn view(&self) -> ItemModel {
        ItemModel { label: self.label@, hint: self.hint@, action: self.action@ }
    }
}

impl DeepView for PaletteItem {
    type V = ItemModel;

    open spec fn deep_view(&self) -> ItemModel {
        self@
    }
}

impl View for Palette {
    type V = PaletteModel;

    open spec fn view(&self) -> PaletteModel {
        PaletteModel { input: self.input@, items: self.items.deep_view(), state: self.state }
    }
}

impl View for App {
    type V = AppModel;

    open spec fn view(&self) -> AppModel {
        AppModel {
            store: self.store@,
            status: self.status@,
            status_since: self.status_since,
            tab: self.tab,
            focus: self.focus,
            mode: self.mode@,
            group_by: self.group_by,
            group_state: self.group_state,
            list_states: self.list_states,
            filter: self.filter@,
            palette: self.palette@,
            history: self.history.deep_view(),
            logbook: self.logbook@,
            toast: self.toast.deep_view(),
            should_quit: self.should_quit,
            cmds: self.cmds.deep_view(),
        }
    }
}

impl Tab {
    pub open spec fn titled(self) -> Seq<char> {
        match self {
            Tab::Entities => "Entities"@,
            Tab::Scenes => "Scenes & Scripts"@,
            Tab::Automations => "Automations"@,
            Tab::Logbook => "Logbook"@,
        }
    }

    /// The tab to the right, going round.
    pub open spec fn right(self) -> Tab {
        match self {
            Tab::Entities => Tab::Scenes,
            Tab::Scenes => Tab::Automations,
            Tab::Automations => Tab::Logbook,
            Tab::Logbook => Tab::Entities,
        }
    }

    /// The tab to the left, going round.
    pub open spec fn left(self) -> Tab {
        match self {
            Tab::Entities => Tab::Logbook,
            Tab::Scenes => Tab::Entities,
            Tab::Automations => Tab::Scenes,
            Tab::Logbook => Tab::Automations,
        }
    }

    /// Domains listed by the entity-list tabs (`None` = everything).
    pub open spec fn listed(self) -> Option<Seq<Seq<char>>> {
        match self {
            Tab::Scenes => Some(seq!["scene"@, "script"@]),
            Tab::Automations => Some(seq!["automation"@]),
            _ => None,
        }
    }
}

/// Where a selection moves.
#[derive(Debug, Clone, Copy, PartialEq, Eq, Structural)]
pub enum Motion {
    Down(usize),
    Up(usize),
    First,
    Last,
}

/// The selection among `len` rows after a move; there is none where there are no rows.
pub open spec fn moved(selected: Option<usize>, len: int, motion: Motion) -> Option<usize> {
    if len == 0 {
        None
    } else {
        let cur = within(selected, len);
        let next = match motion {
            Motion::Down(n) => cur + n,
            Motion::Up(n) => cur - n,
            Motion::First => 0,
            Motion::Last => len - 1,
        };
        Some((if next < 0 { 0 } else if next > len - 1 { len - 1 } else { next }) as usize)
    }
}

/// The selected row, or the first, kept within `len` rows.
pub open spec fn within(selected: Option<usize>, len: int) -> int {
    let i = match selected {
        Some(i) => i as int,
        None => 0,
    };
    if i > len - 1 {
        len - 1
    } else {
        i
    }
}

/// The selection kept within `len` rows; there is none where there are no rows.
pub open spec fn synced(selected: Option<usize>, len: int) -> Option<usize> {
    if len == 0 {
        None
    } else {
        Some(within(selected, len) as usize)
    }
}

/// The action that a key means on an entity.
pub open spec fn action_of(code: KeyCode) -> Option<Action> {
    match code {
        KeyCode::Enter => Some(Action::Primary),
        KeyCode::Char(c) => if c == ' ' {
            Some(Action::Primary)
        } else if c == '+' || c == '=' {
            Some(Action::Increase)
        } else if c == '-' || c == '_' {
            Some(Action::Decrease)
        } else if c == ']' {
            Some(Action::SecondaryUp)
        } else if c == '[' {
            Some(Action::SecondaryDown)
        } else if c == 'm' {
            Some(Action::CycleMode)
        } else if c == 'o' {
            Some(Action::Open)
        } else if c == 'c' {
            Some(Action::Close)
        } else if c == 's' {
            Some(Action::Stop)
        } else if c == 'x' {
            Some(Action::Trigger)
        } else if c == 'n' {
            Some(Action::Next)
        } else if c == 'p' {
            Some(Action::Prev)
        } else {
            None
        },
        _ => None,
    }
}

/// The text an entity is found by.
pub open spec fn haystack(s: StoreModel, e: EntityModel) -> Seq<char> {
    e.name() + " "@ + e.entity_id + " "@ + s.area_name(e.entity_id)
}

/// What the palette offers to do to an entity at once.
pub open spec fn verb(e: EntityModel) -> Option<Seq<char>> {
    let d = crate::ha::types::domain(e.entity_id);
    if d == "scene"@ || d == "script"@ {
        Some("Run"@)
    } else if d == "button"@ || d == "input_button"@ {
        Some("Press"@)
    } else if d == "lock"@ {
        if e.state == "locked"@ { Some("Unlock"@) } else { Some("Lock"@) }
    } else if crate::ha::actions::service(e, Action::Primary) is Some {
        Some("Toggle"@)
    } else {
        None
    }
}

/// The palette's items for an entity.
pub open spec fn entity_items(e: EntityModel) -> Seq<ItemModel> {
    let act = match verb(e) {
        Some(v) => seq![
            ItemModel { label: v + " "@ + e.name(), hint: e.entity_id, action: PaletteActionModel::Act(e.entity_id, Action::Primary) },
        ],
        None => Seq::empty(),
    };
    let trigger = if crate::ha::types::domain(e.entity_id) == "automation"@ {
        seq![
            ItemModel { label: "Trigger "@ + e.name(), hint: e.entity_id, action: PaletteActionModel::Act(e.entity_id, Action::Trigger) },
        ]
    } else {
        Seq::empty()
    };
    act + trigger + seq![
        ItemModel { label: "Go to "@ + e.name(), hint: e.entity_id, action: PaletteActionModel::GoTo(e.entity_id) },
    ]
}

/// The palette's items for some entities.
pub open spec fn entities_items(l: Seq<EntityModel>) -> Seq<ItemModel>
    decreases l.len(),
{
    if l.len() == 0 {
        Seq::empty()
    } else {
        entities_items(l.drop_last()) + entity_items(l.last())
    }
}

/// An item with no hint.
pub open spec fn plain_item(label: Seq<char>, action: PaletteActionModel) -> ItemModel {
    ItemModel { label, hint: Seq::empty(), action }
}

/// The palette's items that are always there.
pub open spec fn fixed_items(group_by: GroupBy) -> Seq<ItemModel> {
    seq![
        plain_item("Tab: "@ + Tab::Entities.titled(), PaletteActionModel::Tab(Tab::Entities)),
        plain_item("Tab: "@ + Tab::Scenes.titled(), PaletteActionModel::Tab(Tab::Scenes)),
        plain_item("Tab: "@ + Tab::Automations.titled(), PaletteActionModel::Tab(Tab::Automations)),
        plain_item("Tab: "@ + Tab::Logbook.titled(), PaletteActionModel::Tab(Tab::Logbook)),
        plain_item("Group by "@ + text::lowered(group_by.toggled().labelled()), PaletteActionModel::ToggleGroupBy),
        plain_item("Resync with Home Assistant"@, PaletteActionModel::Resync),
        plain_item("Help"@, PaletteActionModel::Help),
        plain_item("Quit"@, PaletteActionModel::Quit),
    ]
}

/// Logbook entries, the newest first.
pub open spec fn newest_first(l: Seq<LogModel>) -> Seq<LogModel> {
    crate::sort::sorted(l, |a: LogModel, b: LogModel| crate::time::sooner(b.when, a.when))
}

/// An application at its start.
pub open spec fn fresh(now: ClockModel) -> AppModel {
    AppModel {
        store: StoreModel::empty(),
        status: StatusModel::Connecting,
        status_since: now.ms,
        tab: Tab::Entities,
        focus: Focus::List,
        mode: ModeModel::Normal,
        group_by: GroupBy::Area,
        group_state: Some(0),
        list_states: ListStates { entities: None, scenes: None, automations: None },
        filter: Seq::empty(),
        palette: PaletteModel { input: Seq::empty(), items: Seq::empty(), state: None },
        history: None,
        logbook: LogbookModel {
            entries: Seq::empty(),
            loading: false,
            error: None,
            fetched_at: None,
            entity: None,
            state: None,
        },
        toast: None,
        should_quit: false,
        cmds: Seq::empty(),
    }
}

impl AppModel {
    // ----- Derived views --------------------------------------------------

    /// The key of the selected group.
    pub open spec fn selected_group_key(self) -> Option<Seq<char>> {
        let groups = self.store.groups(self.group_by);
        groups[within(self.group_state, groups.len() as int)].key
    }

    /// The tab whose entities are listed.
    pub open spec fn list_tab(self) -> Tab {
        if self.tab == Tab::Logbook {
            Tab::Entities
        } else {
            self.tab
        }
    }

    /// The entities of the current entity-list tab before the filter. A filter searches everything in
    /// the tab, not just the selected group.
    pub open spec fn candidates(self) -> Seq<EntityModel> {
        let group = if self.list_tab() == Tab::Entities && text::trimmed(self.filter).len() == 0 {
            self.selected_group_key()
        } else {
            None
        };
        self.store.visible(self.group_by, group, self.list_tab().listed())
    }

    /// Entity ids shown in the current entity-list tab, in display order.
    pub open spec fn list_ids(self) -> Seq<Seq<char>> {
        let l = self.candidates();
        crate::search::ranked(
            self.filter,
            l.map_values(|e: EntityModel| e.entity_id),
            l.map_values(|e: EntityModel| haystack(self.store, e)),
        )
    }

    /// The selected row of the current entity-list tab.
    pub open spec fn list_state(self) -> Option<usize> {
        match self.tab {
            Tab::Scenes => self.list_states.scenes,
            Tab::Automations => self.list_states.automations,
            _ => self.list_states.entities,
        }
    }

    /// With that row selected in the current entity-list tab.
    pub open spec fn selecting(self, row: Option<usize>) -> AppModel {
        AppModel {
            list_states: match self.tab {
                Tab::Scenes => ListStates { scenes: row, ..self.list_states },
                Tab::Automations => ListStates { automations: row, ..self.list_states },
                _ => ListStates { entities: row, ..self.list_states },
            },
            ..self
        }
    }

    /// The id of the selected entity.
    pub open spec fn selected_id(self) -> Option<Seq<char>> {
        let ids = self.list_ids();
        if ids.len() == 0 {
            None
        } else {
            Some(ids[within(self.list_state(), ids.len() as int)])
        }
    }

    // ----- Commands ---------------------------------------------------------

    /// With a command for Home Assistant.
    pub open spec fn sending(self, cmd: CommandModel) -> AppModel {
        AppModel { cmds: self.cmds.push(cmd), ..self }
    }

    /// With a toast.
    pub open spec fn toasting(self, text: Seq<char>, error: bool, now: ClockModel) -> AppModel {
        AppModel { toast: Some(ToastModel { text, error, at: now.ms }), ..self }
    }

    /// Fetching the logbook.
    pub open spec fn fetching_logbook(self, now: ClockModel) -> AppModel {
        AppModel {
            logbook: LogbookModel { loading: true, fetched_at: Some(now.ms), ..self.logbook },
            ..self
        }.sending(
            CommandModel::Logbook {
                since: crate::time::hours_before(now.date, LOGBOOK_HOURS as int),
                entity_id: self.logbook.entity,
            },
        )
    }

    /// Showing a tab.
    pub open spec fn showing(self, tab: Tab, now: ClockModel) -> AppModel {
        let s = AppModel {
            tab,
            filter: Seq::empty(),
            mode: if self.mode is Filter { ModeModel::Normal } else { self.mode },
            ..self
        };
        let stale = match s.logbook.fetched_at {
            Some(t) => elapsed(t, now.ms) > LOGBOOK_STALE,
            None => true,
        };
        if tab == Tab::Logbook && !s.logbook.loading && stale {
            s.fetching_logbook(now)
        } else {
            s
        }
    }

    /// With the selection moved: in the logbook, among the groups, or among the entities.
    pub open spec fn moving(self, motion: Motion) -> AppModel {
        if self.tab == Tab::Logbook {
            AppModel {
                logbook: LogbookModel {
                    state: moved(self.logbook.state, self.logbook.entries.len() as int, motion),
                    ..self.logbook
                },
                ..self
            }
        } else if self.tab == Tab::Entities && self.focus == Focus::Groups {
            AppModel {
                group_state: moved(self.group_state, self.store.groups(self.group_by).len() as int, motion),
                ..self
            }.selecting(Some(0))
        } else {
            self.selecting(moved(self.list_state(), self.list_ids().len() as int, motion))
        }
    }

    /// With a service called on an entity, at once or once it is confirmed.
    pub open spec fn calling(self, e: EntityModel, call: CallModel, action: Action) -> AppModel {
        let label = e.name() + ": "@ + crate::ha::actions::described(call);
        if crate::ha::actions::risky(e, action) {
            AppModel { mode: ModeModel::Confirm { call, label }, ..self }
        } else {
            self.sending(CommandModel::CallService { call, label })
        }
    }

    /// Acting on the selected entity.
    pub open spec fn acting(self, action: Action, now: ClockModel) -> AppModel {
        match self.selected_id() {
            Some(id) => match self.store.get(id) {
                Some(e) => match crate::ha::actions::service(e, action) {
                    Some(call) => self.calling(e, call, action),
                    None => self.toasting(
                        "Nothing to do for "@ + crate::ha::types::domain(e.entity_id) + " with that key"@,
                        true,
                        now,
                    ),
                },
                None => self,
            },
            None => self,
        }
    }

    /// Showing the history of an entity.
    pub open spec fn opening_history(self, entity_id: Seq<char>, now: ClockModel) -> AppModel {
        let e = self.store.get(entity_id);
        AppModel {
            history: Some(
                HistoryModel {
                    entity_id,
                    name: match e {
                        Some(e) => e.name(),
                        None => entity_id,
                    },
                    unit: match e {
                        Some(e) => e.attr_str("unit_of_measurement"@),
                        None => None,
                    },
                    points: None,
                    error: None,
                },
            ),
            mode: ModeModel::History,
            ..self
        }.sending(
            CommandModel::History {
                entity_id,
                since: crate::time::hours_before(now.date, HISTORY_HOURS as int),
            },
        )
    }

    // ----- Palette ----------------------------------------------------------

    /// Everything the palette offers.
    pub open spec fn offers(self) -> Seq<ItemModel> {
        fixed_items(self.group_by) + entities_items(self.store.visible(self.group_by, None, None))
    }

    /// With the palette's items as its input asks for.
    pub open spec fn refreshing_palette(self) -> AppModel {
        let all = self.offers();
        let ranked = crate::search::ranked(
            self.palette.input,
            all,
            all.map_values(|i: ItemModel| i.label + " "@ + i.hint),
        );
        AppModel {
            palette: PaletteModel {
                items: if ranked.len() > PALETTE_MAX { ranked.take(PALETTE_MAX as int) } else { ranked },
                state: Some(0),
                ..self.palette
            },
            ..self
        }
    }

    /// Showing the palette.
    pub open spec fn opening_palette(self) -> AppModel {
        AppModel {
            palette: PaletteModel { input: Seq::empty(), ..self.palette },
            mode: ModeModel::Palette,
            ..self
        }.refreshing_palette()
    }

    /// Running one of the palette's items.
    pub open spec fn running(self, action: PaletteActionModel, now: ClockModel) -> AppModel {
        match action {
            PaletteActionModel::Tab(t) => self.showing(t, now),
            PaletteActionModel::ToggleGroupBy => AppModel {
                group_by: self.group_by.toggled(),
                group_state: Some(0),
                ..self
            },
            PaletteActionModel::Resync => self.sending(CommandModel::Resync),
            PaletteActionModel::Help => AppModel { mode: ModeModel::Help, ..self },
            PaletteActionModel::Quit => AppModel { should_quit: true, ..self },
            PaletteActionModel::GoTo(id) => self.going_to(id, now),
            PaletteActionModel::Act(id, action) => match self.store.get(id) {
                Some(e) => match crate::ha::actions::service(e, action) {
                    Some(call) => self.calling(e, call, action),
                    None => self,
                },
                None => self,
            },
        }
    }

    /// With `id` selected in the Entities tab's "All" group, or the first row where it is not there.
    pub open spec fn going_to(self, id: Seq<char>, now: ClockModel) -> AppModel {
        let s = AppModel { focus: Focus::List, group_state: Some(0), ..self.showing(Tab::Entities, now) };
        let ids = s.list_ids();
        let i = crate::ha::actions::position(ids, id);
        s.selecting(Some((if i < ids.len() { i } else { 0 }) as usize))
    }

    /// What something that happens at the terminal does.
    pub open spec fn on_terminal(self, ev: Event, now: ClockModel) -> AppModel {
        match ev {
            Event::Key(key) => self.on_key(key, now),
            _ => self,
        }
    }

    /// The commands for Home Assistant, and what is left once they are taken.
    pub open spec fn handing_out(self) -> (Seq<CommandModel>, AppModel) {
        (self.cmds, AppModel { cmds: Seq::empty(), ..self })
    }

    // ----- Keys ---------------------------------------------------------------

    /// What a key does.
    pub open spec fn on_key(self, key: KeyEvent, now: ClockModel) -> AppModel {
        if key.ctrl && key.code == KeyCode::Char('c') {
            AppModel { should_quit: true, ..self }
        } else {
            match self.mode {
                ModeModel::Normal => self.on_key_normal(key, now),
                ModeModel::Filter => self.on_key_filter(key),
                ModeModel::Palette => self.on_key_palette(key, now),
                ModeModel::Confirm { call, label } => self.on_key_confirm(call, label, key, now),
                ModeModel::Help => self.on_key_help(key),
                ModeModel::History => self.on_key_history(key, now),
            }
        }
    }

    /// What a key does while a call waits to be confirmed.
    pub open spec fn on_key_confirm(self, call: CallModel, label: Seq<char>, key: KeyEvent, now: ClockModel) -> AppModel {
        let s = AppModel { mode: ModeModel::Normal, ..self };
        if key.code == KeyCode::Char('y') || key.code == KeyCode::Char('Y') {
            s.sending(CommandModel::CallService { call, label })
        } else {
            s.toasting("Cancelled"@, false, now)
        }
    }

    /// What a key does while the help is shown.
    pub open spec fn on_key_help(self, key: KeyEvent) -> AppModel {
        if key.code == KeyCode::Esc || key.code == KeyCode::Char('q') || key.code == KeyCode::Char('?') || key.code == KeyCode::Enter {
            AppModel { mode: ModeModel::Normal, ..self }
        } else {
            self
        }
    }

    /// What a key does while a history is shown.
    pub open spec fn on_key_history(self, key: KeyEvent, now: ClockModel) -> AppModel {
        if key.code == KeyCode::Esc || key.code == KeyCode::Char('q') || key.code == KeyCode::Char('H') || key.code == KeyCode::Enter {
            AppModel { mode: ModeModel::Normal, history: None, ..self }
        } else if key.code == KeyCode::Char('r') && self.history is Some {
            self.opening_history(self.history->0.entity_id, now)
        } else {
            self
        }
    }

    /// What a key does while entities are shown.
    pub open spec fn on_key_normal(self, key: KeyEvent, now: ClockModel) -> AppModel {
        let at_entities = self.tab == Tab::Entities;
        let at_logbook = self.tab == Tab::Logbook;
        match key.code {
            KeyCode::Esc => if self.filter.len() > 0 {
                AppModel { filter: Seq::empty(), ..self }.selecting(Some(0))
            } else {
                self
            },
            KeyCode::Tab => self.showing(self.tab.right(), now),
            KeyCode::BackTab => self.showing(self.tab.left(), now),
            KeyCode::Left => if at_entities { AppModel { focus: Focus::Groups, ..self } } else { self },
            KeyCode::Right => if at_entities { AppModel { focus: Focus::List, ..self } } else { self },
            KeyCode::Down => self.moving(Motion::Down(1)),
            KeyCode::Up => self.moving(Motion::Up(1)),
            KeyCode::PageDown => self.moving(Motion::Down(10)),
            KeyCode::PageUp => self.moving(Motion::Up(10)),
            KeyCode::Home => self.moving(Motion::First),
            KeyCode::End => self.moving(Motion::Last),
            KeyCode::Enter => if at_entities && self.focus == Focus::Groups {
                AppModel { focus: Focus::List, ..self }
            } else if !at_logbook {
                self.acting(Action::Primary, now)
            } else {
                self
            },
            KeyCode::Backspace | KeyCode::Other => self,
            KeyCode::Char(c) => if c == 'q' {
                AppModel { should_quit: true, ..self }
            } else if c == '?' {
                AppModel { mode: ModeModel::Help, ..self }
            } else if (c == 'p' && key.ctrl) || c == ':' {
                self.opening_palette()
            } else if c == '/' && !at_logbook {
                AppModel { mode: ModeModel::Filter, focus: Focus::List, ..self }
            } else if c == '1' {
                self.showing(Tab::Entities, now)
            } else if c == '2' {
                self.showing(Tab::Scenes, now)
            } else if c == '3' {
                self.showing(Tab::Automations, now)
            } else if c == '4' {
                self.showing(Tab::Logbook, now)
            } else if c == 'r' {
                if at_logbook {
                    self.fetching_logbook(now)
                } else {
                    self.sending(CommandModel::Resync).toasting("Resyncing…"@, false, now)
                }
            } else if c == 'f' && at_logbook {
                AppModel {
                    logbook: LogbookModel {
                        entity: if self.logbook.entity is Some {
                            None
                        } else {
                            AppModel { tab: Tab::Entities, ..self }.selected_id()
                        },
                        ..self.logbook
                    },
                    ..self
                }.fetching_logbook(now)
            } else if c == 'a' {
                AppModel {
                    store: StoreModel { show_all: !self.store.show_all, ..self.store },
                    group_state: Some(0),
                    ..self
                }.selecting(Some(0)).toasting(
                    if self.store.show_all {
                        "Hiding hidden & system entities"@
                    } else {
                        "Showing all entities (incl. hidden & system)"@
                    },
                    false,
                    now,
                )
            } else if c == 'g' && at_entities {
                AppModel { group_by: self.group_by.toggled(), group_state: Some(0), ..self }.selecting(Some(0))
            } else if c == 'h' && at_entities {
                AppModel { focus: Focus::Groups, ..self }
            } else if c == 'l' && at_entities {
                AppModel { focus: Focus::List, ..self }
            } else if c == 'j' {
                self.moving(Motion::Down(1))
            } else if c == 'k' {
                self.moving(Motion::Up(1))
            } else if c == 'H' && !at_logbook {
                match self.selected_id() {
                    Some(id) => self.opening_history(id, now),
                    None => self,
                }
            } else if c == ' ' && at_entities && self.focus == Focus::Groups {
                AppModel { focus: Focus::List, ..self }
            } else if !at_logbook {
                match action_of(key.code) {
                    Some(a) => self.acting(a, now),
                    None => self,
                }
            } else {
                self
            },
        }
    }

    /// What a key does while the filter is typed.
    pub open spec fn on_key_filter(self, key: KeyEvent) -> AppModel {
        match key.code {
            KeyCode::Esc => AppModel { filter: Seq::empty(), mode: ModeModel::Normal, ..self },
            KeyCode::Enter => AppModel { mode: ModeModel::Normal, ..self },
            KeyCode::Backspace => AppModel {
                filter: if self.filter.len() > 0 { self.filter.drop_last() } else { self.filter },
                ..self
            }.selecting(Some(0)),
            KeyCode::Down => self.moving(Motion::Down(1)),
            KeyCode::Up => self.moving(Motion::Up(1)),
            KeyCode::Char(c) => if key.ctrl {
                self
            } else {
                AppModel { filter: self.filter.push(c), ..self }.selecting(Some(0))
            },
            _ => self,
        }
    }

    /// The palette with the next item selected.
    pub open spec fn palette_down(self) -> AppModel {
        AppModel {
            palette: PaletteModel {
                state: Some(
                    if self.palette_row() + 1 < self.palette.items.len() {
                        (self.palette_row() + 1) as usize
                    } else if self.palette.items.len() > 0 {
                        (self.palette.items.len() - 1) as usize
                    } else {
                        0
                    },
                ),
                ..self.palette
            },
            ..self
        }
    }

    /// The selected row of the palette, or the first.
    pub open spec fn palette_row(self) -> usize {
        match self.palette.state {
            Some(i) => i,
            None => 0,
        }
    }

    /// The palette with the item before selected.
    pub open spec fn palette_up(self) -> AppModel {
        let row = self.palette_row();
        AppModel {
            palette: PaletteModel { state: Some(if row > 0 { (row - 1) as usize } else { 0 }), ..self.palette },
            ..self
        }
    }

    /// What a key does while the palette is open.
    pub open spec fn on_key_palette(self, key: KeyEvent, now: ClockModel) -> AppModel {
        match key.code {
            KeyCode::Esc => AppModel { mode: ModeModel::Normal, ..self },
            KeyCode::Enter => {
                let s = AppModel { mode: ModeModel::Normal, ..self };
                if self.palette_row() < self.palette.items.len() {
                    s.running(self.palette.items[self.palette_row() as int].action, now)
                } else {
                    s
                }
            },
            KeyCode::Down | KeyCode::Tab => self.palette_down(),
            KeyCode::Up | KeyCode::BackTab => self.palette_up(),
            KeyCode::Backspace => AppModel {
                palette: PaletteModel {
                    input: if self.palette.input.len() > 0 { self.palette.input.drop_last() } else { self.palette.input },
                    ..self.palette
                },
                ..self
            }.refreshing_palette(),
            KeyCode::Char(c) => if key.ctrl {
                if c == 'n' {
                    self.palette_down()
                } else if c == 'p' {
                    self.palette_up()
                } else {
                    self
                }
            } else {
                AppModel {
                    palette: PaletteModel { input: self.palette.input.push(c), ..self.palette },
                    ..self
                }.refreshing_palette()
            },
            _ => self,
        }
    }

    // ----- Events ---------------------------------------------------------------

    /// The shown history with a change of state appended, where it is of that entity and differs from
    /// the last point.
    pub open spec fn history_after(self, entity_id: Seq<char>, new: Option<EntityModel>, now: ClockModel) -> Option<HistoryModel> {
        match (self.history, new) {
            (Some(h), Some(ns)) => match h.points {
                Some(points) => if h.entity_id == entity_id && (points.len() == 0 || points.last().state != ns.state) {
                    Some(
                        HistoryModel {
                            points: Some(
                                points.push(
                                    PointModel {
                                        when: match ns.last_changed {
                                            Some(t) => t,
                                            None => now.date,
                                        },
                                        state: ns.state,
                                    },
                                ),
                            ),
                            ..h
                        },
                    )
                } else {
                    self.history
                },
                None => self.history,
            },
            _ => self.history,
        }
    }

    /// What an event does.
    pub open spec fn on_ha_event(self, ev: EventModel, now: ClockModel) -> AppModel {
        match ev {
            EventModel::Status(status) => AppModel { status, status_since: now.ms, ..self },
            EventModel::Snapshot(snap) => {
                let s = AppModel { store: self.store.with_snapshot(snap), ..self };
                if s.tab == Tab::Logbook {
                    s.fetching_logbook(now)
                } else {
                    s
                }
            },
            EventModel::Registry(update) => AppModel { store: self.store.with_registry(update), ..self },
            EventModel::StateChanged { entity_id, new_state } => AppModel {
                history: self.history_after(entity_id, new_state, now),
                store: self.store.with_change(entity_id, new_state),
                ..self
            },
            EventModel::ServiceResult { label, error } => match error {
                None => self.toasting("✓ "@ + label, false, now),
                Some(e) => self.toasting("✗ "@ + label + ": "@ + e, true, now),
            },
            EventModel::History { entity_id, points } => match self.history {
                Some(h) => if h.entity_id == entity_id {
                    AppModel { history: Some(HistoryModel { points: Some(points), error: None, ..h }), ..self }
                } else {
                    self
                },
                None => self,
            },
            EventModel::HistoryFailed { entity_id, error } => match self.history {
                Some(h) => if h.entity_id == entity_id {
                    AppModel { history: Some(HistoryModel { error: Some(error), ..h }), ..self }
                } else {
                    self
                },
                None => self,
            },
            EventModel::Logbook { entity_id: _, result } => AppModel {
                logbook: match result {
                    Ok(entries) => LogbookModel {
                        loading: false,
                        entries: newest_first(entries),
                        error: None,
                        state: Some(0),
                        ..self.logbook
                    },
                    Err(e) => LogbookModel { loading: false, error: Some(e), ..self.logbook },
                },
                ..self
            },
        }
    }

    /// What the passing of time does: a toast goes away.
    pub open spec fn on_tick(self, now: ClockModel) -> AppModel {
        match self.toast {
            Some(t) => if elapsed(t.at, now.ms) > TOAST_TTL {
                AppModel { toast: None, ..self }
            } else {
                self
            },
            None => self,
        }
    }
}

} // verus!
