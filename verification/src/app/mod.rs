//! Application state and input handling. What is shown lives in `ui`.

pub mod keys;
pub mod laws;
pub mod offers;
pub mod state;

use crate::ha::actions;
use crate::ha::actions::Action;
use crate::ha::client::{ConnStatus, HaCommand, HaEvent};
use crate::ha::types::{EntityModel, EntityState, HistoryPoint, LogModel, LogbookEntry, ServiceCall};
use crate::search::Fuzzy;
use crate::sort::sort;
use crate::store::{Group, GroupBy, Store, StoreModel};
use crate::text;
use crate::text::{lowercase, same};
use vstd::prelude::*;

pub use state::{App, Clock, Event, Focus, HistoryView, KeyCode, KeyEvent, ListStates, LogbookView, Mode, Motion, Palette, PaletteAction, PaletteItem, Tab, Toast};
pub use state::{AppModel, ClockModel, HistoryModel, ItemModel, LogbookModel, ModeModel, PaletteActionModel, PaletteModel, ToastModel};
use state::{HISTORY_HOURS, LOGBOOK_HOURS, LOGBOOK_STALE, PALETTE_MAX, TOAST_TTL};

verus! {

impl Tab {
    pub fn title(self) -> (r: &'static str)
        ensures
            r@ == self.titled(),
    {
        match self {
            Tab::Entities => "Entities",
            Tab::Scenes => "Scenes & Scripts",
            Tab::Automations => "Automations",
            Tab::Logbook => "Logbook",
        }
    }

    /// The tab to the right, going round.
    pub fn next(self) -> (r: Tab)
        ensures
            r == self.right(),
    {
        match self {
            Tab::Entities => Tab::Scenes,
            Tab::Scenes => Tab::Automations,
            Tab::Automations => Tab::Logbook,
            Tab::Logbook => Tab::Entities,
        }
    }

    /// The tab to the left, going round.
    pub fn previous(self) -> (r: Tab)
        ensures
            r == self.left(),
    {
        match self {
            Tab::Entities => Tab::Logbook,
            Tab::Scenes => Tab::Entities,
            Tab::Automations => Tab::Scenes,
            Tab::Logbook => Tab::Automations,
        }
    }

    /// Domains listed by the entity-list tabs (`None` = everything).
    pub fn domains(self) -> (r: Option<&'static [&'static str]>)
        ensures
            r.deep_view() == self.listed(),
    {
        match self {
            Tab::Scenes => {
                let d: &'static [&'static str] = &["scene", "script"];
                assert(d.deep_view() =~= seq!["scene"@, "script"@]);
                Some(d)
            },
            Tab::Automations => {
                let d: &'static [&'static str] = &["automation"];
                assert(d.deep_view() =~= seq!["automation"@]);
                Some(d)
            },
            _ => None,
        }
    }
}

/// The milliseconds that passed between two readings of the clock.
pub fn elapsed(since: u64, now: u64) -> (r: u64)
    ensures
        r == state::elapsed(since, now),
{
    if now >= since {
        now - since
    } else {
        0
    }
}

/// The selected row, or the first, kept within `len` rows.
pub fn within(selected: Option<usize>, len: usize) -> (r: usize)
    requires
        len > 0,
    ensures
        r == state::within(selected, len as int),
        r < len,
{
    let i: usize = match selected {
        Some(i) => i,
        None => 0,
    };
    if i > len - 1 {
        len - 1
    } else {
        i
    }
}

/// The selection among `len` rows after a move.
pub fn moved(selected: Option<usize>, len: usize, motion: Motion) -> (r: Option<usize>)
    ensures
        r == state::moved(selected, len as int, motion),
{
    if len == 0 {
        return None;
    }
    let cur: usize = within(selected, len);
    let next: usize = match motion {
        Motion::Down(n) => if n > len - 1 - cur {
            len - 1
        } else {
            cur + n
        },
        Motion::Up(n) => if n > cur {
            0
        } else {
            cur - n
        },
        Motion::First => 0,
        Motion::Last => len - 1,
    };
    Some(next)
}

/// The action that a key means on an entity.
pub fn key_action(code: KeyCode) -> (r: Option<Action>)
    ensures
        r == state::action_of(code),
{
    match code {
        KeyCode::Enter => Some(Action::Primary),
        KeyCode::Char(c) => if c == ' ' {
            Some(Action::Primary)
        } else if c == '+' || c == '=' {
            Some(Action::Increase)
        } else if c == '-' || c == '_' {
            Some(Action::Decrease)
        } else if c == ']' {
            Some(Action::SecondaryUp)
        } else if c == '[' {
            Some(Action::SecondaryDown)
        } else if c == 'm' {
            Some(Action::CycleMode)
        } else if c == 'o' {
            Some(Action::Open)
        } else if c == 'c' {
            Some(Action::Close)
        } else if c == 's' {
            Some(Action::Stop)
        } else if c == 'x' {
            Some(Action::Trigger)
        } else if c == 'n' {
            Some(Action::Next)
        } else if c == 'p' {
            Some(Action::Prev)
        } else {
            None
        },
        _ => None,
    }
}

/// The text in an option, once more.
fn copied(s: &Option<String>) -> (r: Option<String>)
    ensures
        r.deep_view() == s.deep_view(),
{
    match s {
        Some(s) => Some(s.clone()),
        None => None,
    }
}

/// What acting on an entity comes to.
enum Plan {
    /// There is no such entity.
    Gone,
    /// The entity's domain has no service for it.
    Nothing(String),
    Call { call: ServiceCall, label: String, confirm: bool },
}

impl App {
    pub fn new(now: &Clock) -> (r: Self)
        ensures
            r@ == state::fresh(now@),
    {
        let r = App {
            store: Store::default(),
            status: ConnStatus::Connecting,
            status_since: now.ms,
            tab: Tab::Entities,
            focus: Focus::List,
            mode: Mode::Normal,
            group_by: GroupBy::default(),
            group_state: Some(0),
            list_states: ListStates { entities: None, scenes: None, automations: None },
            filter: String::new(),
            palette: Palette { input: String::new(), items: Vec::new(), state: None },
            history: None,
            logbook: LogbookView {
                entries: Vec::new(),
                loading: false,
                error: None,
                fetched_at: None,
                entity: None,
                state: None,
            },
            toast: None,
            should_quit: false,
            fuzzy: Fuzzy::default(),
            cmds: Vec::new(),
        };
        assert(r@ =~= state::fresh(now@));
        r
    }

    // ----- Derived views --------------------------------------------------

    /// Entity ids shown in the current entity-list tab, in display order.
    pub fn list_ids(&mut self) -> (r: Vec<String>)
        ensures
            final(self)@ == old(self)@,
            r.deep_view() == old(self)@.list_ids(),
    {
        let ghost m = self@;
        let items = self.candidates();
        let ghost l = m.candidates();
        let ghost raw = items@;
        let ghost hays = l.map_values(|e: EntityModel| state::haystack(m.store, e));
        let filter = self.filter.clone();
        let hay = |x: &(String, String)| -> (h: String)
            ensures
                h@ == x.1@,
            { x.1.clone() };
        let ranked = self.fuzzy.rank(filter.as_str(), items, hay);
        let ghost f = |x: (String, String)| x.0@;
        proof {
            if text::trimmed(filter@).len() > 0 {
                let h = choose|h: Seq<Seq<char>>| crate::search::gives(hay, raw, h) && ranked@ == #[trigger] crate::search::ranked(filter@, raw, h);
                assert forall|i: int| 0 <= i < raw.len() implies h[i] == hays[i] by {
                    assert(crate::search::may_give(hay, raw[i], h[i]));
                }
                assert(h =~= hays);
            }
            assert(ranked@ == crate::search::ranked(filter@, raw, hays));
            crate::search::lemma_ranked_map(filter@, raw, hays, f);
            assert(raw.map_values(f) =~= l.map_values(|e: EntityModel| e.entity_id));
        }
        let ghost rs = ranked@;
        let mut out: Vec<String> = Vec::new();
        for x in it: ranked
            invariant
                it.seq() == rs,
                out@.len() == it.index(),
                forall|j: int| 0 <= j < out@.len() ==> #[trigger] out@[j]@ == rs[j].0@,
        {
            out.push(x.0);
        }
        assert(out.deep_view() =~= rs.map_values(f));
        out
    }

    /// The ids of the entities of the current entity-list tab before the filter, and the texts they
    /// are found by.
    fn candidates(&self) -> (r: Vec<(String, String)>)
        ensures
            r@.len() == self@.candidates().len(),
            forall|i: int| 0 <= i < r@.len() ==> {
                &&& (#[trigger] r@[i]).0@ == self@.candidates()[i].entity_id
                &&& r@[i].1@ == state::haystack(self@.store, self@.candidates()[i])
            },
    {
        let tab = if self.tab == Tab::Logbook {
            Tab::Entities
        } else {
            self.tab
        };
        let filtering = !text::trim(self.filter.as_str()).is_empty();
        // A filter searches everything in the tab, not just the selected group.
        let group = if tab == Tab::Entities && !filtering {
            self.selected_group_key()
        } else {
            None
        };
        let group = match &group {
            Some(g) => Some(g.as_str()),
            None => None,
        };
        let visible = self.store.visible(self.group_by, group, tab.domains());
        let ghost l = visible.deep_view();
        let n: usize = visible.len();
        let mut items: Vec<(String, String)> = Vec::new();
        for i in 0..n
            invariant
                n == visible@.len(),
                l == visible.deep_view(),
                items@.len() == i,
                forall|j: int| 0 <= j < i ==> (#[trigger] items@[j]).0@ == l[j].entity_id && items@[j].1@ == state::haystack(self@.store, l[j]),
        {
            let e = visible[i];
            assert(l[i as int] == e@);
            let area = self.store.area_name(e.entity_id.as_str());
            let hay = text::cat5(e.friendly_name(), " ", e.entity_id.as_str(), " ", area);
            items.push((e.entity_id.clone(), hay));
        }
        items
    }

    fn selected_group_key(&self) -> (r: Option<String>)
        ensures
            r.deep_view() == self@.selected_group_key(),
    {
        let groups = self.store.groups(self.group_by);
        let ghost all = groups.deep_view();
        assert(all.len() > 0);
        let i: usize = within(self.group_state, groups.len());
        assert(all[i as int] == groups@[i as int]@);
        copied(&groups[i].key)
    }

    /// The selected row of the current entity-list tab.
    pub fn list_state(&self) -> (r: Option<usize>)
        ensures
            r == self@.list_state(),
    {
        match self.tab {
            Tab::Scenes => self.list_states.scenes,
            Tab::Automations => self.list_states.automations,
            _ => self.list_states.entities,
        }
    }

    /// Select a row of the current entity-list tab.
    pub fn select(&mut self, row: Option<usize>)
        ensures
            final(self)@ == old(self)@.selecting(row),
    {
        match self.tab {
            Tab::Scenes => {
                self.list_states.scenes = row;
            },
            Tab::Automations => {
                self.list_states.automations = row;
            },
            _ => {
                self.list_states.entities = row;
            },
        }
    }

    pub fn selected_id(&mut self) -> (r: Option<String>)
        ensures
            final(self)@ == old(self)@,
            r.deep_view() == old(self)@.selected_id(),
    {
        let ids = self.list_ids();
        if ids.len() == 0 {
            return None;
        }
        let i: usize = within(self.list_state(), ids.len());
        assert(ids.deep_view()[i as int] == ids@[i as int]@);
        Some(ids[i].clone())
    }

    /// Keep the selected group among the groups.
    pub fn sync_groups(&mut self, groups: &Vec<Group>)
        ensures
            final(self)@ == (AppModel { group_state: state::synced(old(self)@.group_state, groups@.len() as int), ..old(self)@ }),
    {
        self.group_state = if groups.len() == 0 { None } else { Some(within(self.group_state, groups.len())) };
    }

    /// Keep the selected row among the listed entities, and return it.
    pub fn sync_list(&mut self, ids: &Vec<String>) -> (r: Option<usize>)
        ensures
            r == state::synced(old(self)@.list_state(), ids@.len() as int),
            final(self)@ == old(self)@.selecting(r),
            r matches Some(i) ==> i < ids@.len(),
    {
        let row = if ids.len() == 0 { None } else { Some(within(self.list_state(), ids.len())) };
        self.select(row);
        row
    }

    // ----- Events -----------------------------------------------------------

    pub fn on_tick(&mut self, now: &Clock)
        ensures
            final(self)@ == old(self)@.on_tick(now@),
    {
        let old_toast = match &self.toast {
            Some(t) => elapsed(t.at, now.ms) > TOAST_TTL,
            None => false,
        };
        if old_toast {
            self.toast = None;
        }
    }

    pub fn on_ha_event(&mut self, ev: HaEvent, now: &Clock)
        ensures
            final(self)@ == old(self)@.on_ha_event(ev@, now@),
    {
        let ghost m = self@;
        match ev {
            HaEvent::Status(s) => {
                self.status = s;
                self.status_since = now.ms;
            },
            HaEvent::Snapshot(snap) => {
                self.store.load(snap);
                if self.tab == Tab::Logbook {
                    self.fetch_logbook(now);
                }
            },
            HaEvent::Registry(update) => self.store.apply_registry(update),
            HaEvent::StateChanged { entity_id, new_state } => {
                let shown = self.history.take();
                let shown = match shown {
                    Some(h) => Some(extend(h, entity_id.as_str(), &new_state, now)),
                    None => None,
                };
                self.history = shown;
                self.store.apply_change(entity_id.as_str(), new_state);
            },
            HaEvent::ServiceResult { label, result } => match result {
                Ok(_) => self.toast(text::cat2("✓ ", label.as_str()), false, now),
                Err(e) => {
                    let head = text::cat3("✗ ", label.as_str(), ": ");
                    self.toast(text::cat2(head.as_str(), e.as_str()), true, now)
                },
            },
            HaEvent::History { entity_id, points } => {
                let shown = self.history.take();
                self.history = match shown {
                    Some(h) => if same(h.entity_id.as_str(), entity_id.as_str()) {
                        Some(HistoryView { entity_id: h.entity_id, name: h.name, unit: h.unit, points: Some(points), error: None })
                    } else {
                        Some(h)
                    },
                    None => None,
                };
            },
            HaEvent::HistoryFailed { entity_id, error } => {
                let shown = self.history.take();
                self.history = match shown {
                    Some(h) => if same(h.entity_id.as_str(), entity_id.as_str()) {
                        Some(HistoryView { entity_id: h.entity_id, name: h.name, unit: h.unit, points: h.points, error: Some(error) })
                    } else {
                        Some(h)
                    },
                    None => None,
                };
            },
            HaEvent::Logbook { entity_id: _, result } => {
                self.logbook.loading = false;
                match result {
                    Ok(entries) => {
                        self.logbook.entries = sort_newest_first(entries);
                        self.logbook.error = None;
                        self.logbook.state = Some(0);
                    },
                    Err(e) => {
                        self.logbook.error = Some(e);
                    },
                }
            },
        }
        assert(self@ =~= m.on_ha_event(ev@, now@));
    }

    pub fn on_terminal_event(&mut self, ev: Event, now: &Clock)
        ensures
            final(self)@ == (match ev {
                Event::Key(key) => old(self)@.on_key(key, now@),
                _ => old(self)@,
            }),
            final(self)@ == old(self)@.on_terminal(ev, now@),
    {
        if let Event::Key(key) = ev {
            self.on_key(key, now);
        }
    }

    #[verifier::spinoff_prover]
    pub fn on_key(&mut self, key: KeyEvent, now: &Clock)
        ensures
            final(self)@ == old(self)@.on_key(key, now@),
    {
        if key.ctrl && key.code == KeyCode::Char('c') {
            self.should_quit = true;
            return;
        }
        match self.mode {
            Mode::Normal => self.on_key_normal(key, now),
            Mode::Filter => self.on_key_filter(key),
            Mode::Palette => self.on_key_palette(key, now),
            Mode::Confirm { .. } => self.on_key_confirm(key, now),
            Mode::Help => self.on_key_help(key),
            Mode::History => self.on_key_history(key, now),
        }
    }

    fn on_key_confirm(&mut self, key: KeyEvent, now: &Clock)
        requires
            old(self)@.mode is Confirm,
        ensures
            final(self)@ == old(self)@.on_key_confirm(old(self)@.mode->call, old(self)@.mode->label, key, now@),
    {
        let mut mode = Mode::Normal;
        std::mem::swap(&mut mode, &mut self.mode);
        if let Mode::Confirm { call, label } = mode {
            if key.code == KeyCode::Char('y') || key.code == KeyCode::Char('Y') {
                self.send_call(call, label);
            } else {
                self.toast("Cancelled".to_owned(), false, now);
            }
        }
    }

    fn on_key_help(&mut self, key: KeyEvent)
        ensures
            final(self)@ == old(self)@.on_key_help(key),
    {
        if key.code == KeyCode::Esc || key.code == KeyCode::Char('q') || key.code == KeyCode::Char('?') || key.code == KeyCode::Enter {
            self.mode = Mode::Normal;
        }
    }

    fn on_key_history(&mut self, key: KeyEvent, now: &Clock)
        ensures
            final(self)@ == old(self)@.on_key_history(key, now@),
    {
        if key.code == KeyCode::Esc || key.code == KeyCode::Char('q') || key.code == KeyCode::Char('H') || key.code == KeyCode::Enter {
            self.mode = Mode::Normal;
            self.history = None;
        } else if key.code == KeyCode::Char('r') {
            let id = match &self.history {
                Some(h) => Some(h.entity_id.clone()),
                None => None,
            };
            if let Some(id) = id {
                self.open_history(id, now);
            }
        }
    }

    fn on_key_normal(&mut self, key: KeyEvent, now: &Clock)
        ensures
            final(self)@ == old(self)@.on_key_normal(key, now@),
    {
        let ghost m = self@;
        let at_entities = self.tab == Tab::Entities;
        let at_logbook = self.tab == Tab::Logbook;
        match key.code {
            KeyCode::Esc => if !self.filter.as_str().is_empty() {
                self.clear_filter();
                self.select(Some(0));
            },
            KeyCode::Tab => self.set_tab(self.tab.next(), now),
            KeyCode::BackTab => self.set_tab(self.tab.previous(), now),
            KeyCode::Left => if at_entities {
                self.focus = Focus::Groups;
            },
            KeyCode::Right => if at_entities {
                self.focus = Focus::List;
            },
            KeyCode::Down => self.move_selection(Motion::Down(1)),
            KeyCode::Up => self.move_selection(Motion::Up(1)),
            KeyCode::PageDown => self.move_selection(Motion::Down(10)),
            KeyCode::PageUp => self.move_selection(Motion::Up(10)),
            KeyCode::Home => self.move_selection(Motion::First),
            KeyCode::End => self.move_selection(Motion::Last),
            KeyCode::Enter => if at_entities && self.focus == Focus::Groups {
                self.focus = Focus::List;
            } else if !at_logbook {
                self.act(Action::Primary, now);
            },
            KeyCode::Backspace | KeyCode::Other => {},
            KeyCode::Char(c) => if c == 'q' {
                self.should_quit = true;
            } else if c == '?' {
                self.mode = Mode::Help;
            } else if (c == 'p' && key.ctrl) || c == ':' {
                self.open_palette();
            } else if c == '/' && !at_logbook {
                self.mode = Mode::Filter;
                self.focus = Focus::List;
            } else if c == '1' {
                self.set_tab(Tab::Entities, now);
            } else if c == '2' {
                self.set_tab(Tab::Scenes, now);
            } else if c == '3' {
                self.set_tab(Tab::Automations, now);
            } else if c == '4' {
                self.set_tab(Tab::Logbook, now);
            } else if c == 'r' {
                if at_logbook {
                    self.fetch_logbook(now);
                } else {
                    self.send(HaCommand::Resync);
                    self.toast("Resyncing…".to_owned(), false, now);
                }
            } else if c == 'f' && at_logbook {
                self.toggle_logbook_entity(now);
            } else if c == 'a' {
                self.store.show_all = !self.store.show_all;
                self.group_state = Some(0);
                self.select(Some(0));
                let msg = if self.store.show_all {
                    "Showing all entities (incl. hidden & system)"
                } else {
                    "Hiding hidden & system entities"
                };
                self.toast(msg.to_owned(), false, now);
            } else if c == 'g' && at_entities {
                self.group_by = self.group_by.toggle();
                self.group_state = Some(0);
                self.select(Some(0));
            } else if c == 'h' && at_entities {
                self.focus = Focus::Groups;
            } else if c == 'l' && at_entities {
                self.focus = Focus::List;
            } else if c == 'j' {
                self.move_selection(Motion::Down(1));
            } else if c == 'k' {
                self.move_selection(Motion::Up(1));
            } else if c == 'H' && !at_logbook {
                if let Some(id) = self.selected_id() {
                    self.open_history(id, now);
                }
            } else if c == ' ' && at_entities && self.focus == Focus::Groups {
                self.focus = Focus::List;
            } else if !at_logbook {
                if let Some(action) = key_action(key.code) {
                    self.act(action, now);
                }
            },
        }
        assert(self@ =~= m.on_key_normal(key, now@));
    }

    fn on_key_filter(&mut self, key: KeyEvent)
        ensures
            final(self)@ == old(self)@.on_key_filter(key),
    {
        let ghost m = self@;
        match key.code {
            KeyCode::Esc => {
                self.clear_filter();
                self.mode = Mode::Normal;
            },
            KeyCode::Enter => {
                self.mode = Mode::Normal;
            },
            KeyCode::Backspace => {
                self.filter.pop();
                self.select(Some(0));
            },
            KeyCode::Down => self.move_selection(Motion::Down(1)),
            KeyCode::Up => self.move_selection(Motion::Up(1)),
            KeyCode::Char(c) => if !key.ctrl {
                self.filter.push(c);
                self.select(Some(0));
            },
            _ => {},
        }
        assert(self@ =~= m.on_key_filter(key));
    }

    fn on_key_palette(&mut self, key: KeyEvent, now: &Clock)
        ensures
            final(self)@ == old(self)@.on_key_palette(key, now@),
    {
        let ghost m = self@;
        match key.code {
            KeyCode::Esc => {
                self.mode = Mode::Normal;
            },
            KeyCode::Enter => {
                self.mode = Mode::Normal;
                let sel: usize = self.palette_row();
                if sel < self.palette.items.len() {
                    let action = copied_action(&self.palette.items[sel].action);
                    assert(self.palette.items.deep_view()[sel as int] == self.palette.items@[sel as int]@);
                    self.run_palette(action, now);
                }
            },
            KeyCode::Down | KeyCode::Tab => self.palette_down(),
            KeyCode::Up | KeyCode::BackTab => self.palette_up(),
            KeyCode::Backspace => {
                self.palette.input.pop();
                self.refresh_palette();
            },
            KeyCode::Char(c) => if key.ctrl {
                if c == 'n' {
                    self.palette_down();
                } else if c == 'p' {
                    self.palette_up();
                }
            } else {
                self.palette.input.push(c);
                self.refresh_palette();
            },
            _ => {},
        }
        assert(self@ =~= m.on_key_palette(key, now@));
    }

    fn palette_row(&self) -> (r: usize)
        ensures
            r == self@.palette_row(),
    {
        match self.palette.state {
            Some(i) => i,
            None => 0,
        }
    }

    fn palette_down(&mut self)
        ensures
            final(self)@ == old(self)@.palette_down(),
    {
        let n: usize = self.palette.items.len();
        let sel: usize = self.palette_row();
        self.palette.state = Some(if n > 0 && sel < n - 1 { sel + 1 } else if n > 0 { n - 1 } else { 0 });
    }

    fn palette_up(&mut self)
        ensures
            final(self)@ == old(self)@.palette_up(),
    {
        let sel: usize = self.palette_row();
        self.palette.state = Some(if sel > 0 { sel - 1 } else { 0 });
    }

    // ----- Commands ---------------------------------------------------------

    fn clear_filter(&mut self)
        ensures
            final(self)@ == (AppModel { filter: Seq::empty(), ..old(self)@ }),
    {
        self.filter = String::new();
        assert(self.filter@ =~= Seq::empty());
    }

    fn send(&mut self, cmd: HaCommand)
        ensures
            final(self)@ == old(self)@.sending(cmd@),
    {
        let ghost m = self@;
        self.cmds.push(cmd);
        assert(self@ =~= m.sending(cmd@));
    }

    /// Take the commands for Home Assistant.
    pub fn take_commands(&mut self) -> (r: Vec<HaCommand>)
        ensures
            r.deep_view() == old(self)@.cmds,
            final(self)@ == (AppModel { cmds: Seq::empty(), ..old(self)@ }),
            (r.deep_view(), final(self)@) == old(self)@.handing_out(),
    {
        let mut cmds: Vec<HaCommand> = Vec::new();
        assert(cmds.deep_view() =~= Seq::empty());
        std::mem::swap(&mut cmds, &mut self.cmds);
        cmds
    }

    fn set_tab(&mut self, tab: Tab, now: &Clock)
        ensures
            final(self)@ == old(self)@.showing(tab, now@),
    {
        self.tab = tab;
        self.clear_filter();
        let filtering = match self.mode {
            Mode::Filter => true,
            _ => false,
        };
        if filtering {
            self.mode = Mode::Normal;
        }
        let stale = match self.logbook.fetched_at {
            Some(t) => elapsed(t, now.ms) > LOGBOOK_STALE,
            None => true,
        };
        if tab == Tab::Logbook && !self.logbook.loading && stale {
            self.fetch_logbook(now);
        }
    }

    fn move_selection(&mut self, motion: Motion)
        ensures
            final(self)@ == old(self)@.moving(motion),
    {
        let ghost m = self@;
        if self.tab == Tab::Logbook {
            self.logbook.state = moved(self.logbook.state, self.logbook.entries.len(), motion);
        } else if self.tab == Tab::Entities && self.focus == Focus::Groups {
            let groups = self.store.groups(self.group_by);
            self.group_state = moved(self.group_state, groups.len(), motion);
            self.select(Some(0));
        } else {
            let ids = self.list_ids();
            let row = moved(self.list_state(), ids.len(), motion);
            self.select(row);
        }
        assert(self@ =~= m.moving(motion));
    }

    /// What acting on the entity `id` comes to.
    fn plan(&self, id: &str, action: Action) -> (r: Plan)
        ensures
            match r {
                Plan::Gone => self@.store.get(id@) is None,
                Plan::Nothing(domain) => {
                    &&& self@.store.get(id@) matches Some(e)
                    &&& actions::service(e, action) is None
                    &&& domain@ == crate::ha::types::domain(e.entity_id)
                },
                Plan::Call { call, label, confirm } => {
                    &&& self@.store.get(id@) matches Some(e)
                    &&& actions::service(e, action) == Some(call@)
                    &&& label@ == e.name() + ": "@ + actions::described(call@)
                    &&& confirm == actions::risky(e, action)
                },
            },
    {
        match self.store.get(id) {
            None => Plan::Gone,
            Some(e) => match actions::service_for(e, action) {
                None => Plan::Nothing(e.domain().to_owned()),
                Some(call) => {
                    let what = actions::describe(&call);
                    let label = text::cat3(e.friendly_name(), ": ", what.as_str());
                    Plan::Call { call, label, confirm: actions::needs_confirm(e, action) }
                },
            },
        }
    }

    /// Call a service, at once or once it is confirmed.
    fn call(&mut self, call: ServiceCall, label: String, confirm: bool)
        ensures
            final(self)@ == (if confirm {
                AppModel { mode: ModeModel::Confirm { call: call@, label: label@ }, ..old(self)@ }
            } else {
                old(self)@.sending(crate::ha::client::CommandModel::CallService { call: call@, label: label@ })
            }),
    {
        if confirm {
            self.mode = Mode::Confirm { call, label };
        } else {
            self.send_call(call, label);
        }
    }

    fn act(&mut self, action: Action, now: &Clock)
        ensures
            final(self)@ == old(self)@.acting(action, now@),
    {
        let id = match self.selected_id() {
            Some(id) => id,
            None => return,
        };
        match self.plan(id.as_str(), action) {
            Plan::Gone => {},
            Plan::Nothing(domain) => {
                let msg = text::cat3("Nothing to do for ", domain.as_str(), " with that key");
                self.toast(msg, true, now);
            },
            Plan::Call { call, label, confirm } => self.call(call, label, confirm),
        }
    }

    fn send_call(&mut self, call: ServiceCall, label: String)
        ensures
            final(self)@ == old(self)@.sending(crate::ha::client::CommandModel::CallService { call: call@, label: label@ }),
    {
        self.send(HaCommand::CallService { call, label });
    }

    fn open_history(&mut self, entity_id: String, now: &Clock)
        ensures
            final(self)@ == old(self)@.opening_history(entity_id@, now@),
    {
        let (name, unit) = match self.store.get(entity_id.as_str()) {
            Some(e) => (e.friendly_name().to_owned(), crate::ha::types::owned(e.unit())),
            None => (entity_id.clone(), None),
        };
        self.history = Some(HistoryView { entity_id: entity_id.clone(), name, unit, points: None, error: None });
        self.mode = Mode::History;
        let since = now.date.earlier(HISTORY_HOURS);
        self.send(HaCommand::History { entity_id, since });
    }

    fn fetch_logbook(&mut self, now: &Clock)
        ensures
            final(self)@ == old(self)@.fetching_logbook(now@),
    {
        self.logbook.loading = true;
        self.logbook.fetched_at = Some(now.ms);
        let since = now.date.earlier(LOGBOOK_HOURS);
        let entity_id = copied(&self.logbook.entity);
        self.send(HaCommand::Logbook { since, entity_id });
    }

    /// Restrict the logbook to the entity selected in the Entities tab, or stop doing so.
    fn toggle_logbook_entity(&mut self, now: &Clock)
        requires
            old(self)@.tab == Tab::Logbook,
        ensures
            final(self)@ == (AppModel {
                logbook: LogbookModel {
                    entity: if old(self)@.logbook.entity is Some {
                        None
                    } else {
                        (AppModel { tab: Tab::Entities, ..old(self)@ }).selected_id()
                    },
                    ..old(self)@.logbook
                },
                ..old(self)@
            }).fetching_logbook(now@),
    {
        if self.logbook.entity.is_some() {
            self.logbook.entity = None;
        } else {
            let saved = self.tab;
            self.tab = Tab::Entities;
            let id = self.selected_id();
            self.tab = saved;
            self.logbook.entity = id;
        }
        self.fetch_logbook(now);
    }

    fn toast(&mut self, text: String, error: bool, now: &Clock)
        ensures
            final(self)@ == old(self)@.toasting(text@, error, now@),
    {
        self.toast = Some(Toast { text, error, at: now.ms });
    }

    // ----- Palette ----------------------------------------------------------

    fn open_palette(&mut self)
        ensures
            final(self)@ == old(self)@.opening_palette(),
    {
        self.palette.input = String::new();
        assert(self.palette.input@ =~= Seq::empty());
        self.mode = Mode::Palette;
        self.refresh_palette();
    }

    /// Everything the palette offers.
    fn offers(&self) -> (r: Vec<PaletteItem>)
        ensures
            r.deep_view() == self@.offers(),
    {
        let mut items: Vec<PaletteItem> = Vec::new();
        items.push(tab_item(Tab::Entities));
        items.push(tab_item(Tab::Scenes));
        items.push(tab_item(Tab::Automations));
        items.push(tab_item(Tab::Logbook));
        let by = lowercase(self.group_by.toggle().label());
        let label = text::cat2("Group by ", by.as_str());
        items.push(plain_item(label.as_str(), PaletteAction::ToggleGroupBy));
        items.push(plain_item("Resync with Home Assistant", PaletteAction::Resync));
        items.push(plain_item("Help", PaletteAction::Help));
        items.push(plain_item("Quit", PaletteAction::Quit));
        let ghost fixed = state::fixed_items(self.group_by);
        assert(items.deep_view() =~= fixed);
        let visible = self.store.visible(self.group_by, None, None);
        let ghost l = visible.deep_view();
        let n: usize = visible.len();
        assert(items.deep_view() =~= fixed + state::entities_items(l.take(0)));
        for i in 0..n
            invariant
                n == visible@.len(),
                l == visible.deep_view(),
                items.deep_view() == fixed + state::entities_items(l.take(i as int)),
        {
            assert(l.take(i + 1).drop_last() =~= l.take(i as int));
            assert(l.take(i + 1).last() == visible@[i as int]@);
            push_items(&mut items, visible[i]);
            assert(items.deep_view() =~= fixed + state::entities_items(l.take(i + 1)));
        }
        assert(l.take(n as int) =~= l);
        items
    }

    fn refresh_palette(&mut self)
        ensures
            final(self)@ == old(self)@.refreshing_palette(),
    {
        let ghost m = self@;
        let items = self.offers();
        let ghost raw = items@;
        let ghost all = items.deep_view();
        let ghost hays = all.map_values(|i: ItemModel| i.label + " "@ + i.hint);
        let query = self.palette.input.clone();
        let hay = |i: &PaletteItem| -> (h: String)
            ensures
                h@ == i.label@ + " "@ + i.hint@,
            { text::cat3(i.label.as_str(), " ", i.hint.as_str()) };
        let mut ranked = self.fuzzy.rank(query.as_str(), items, hay);
        let ghost f = |i: PaletteItem| i@;
        proof {
            if text::trimmed(query@).len() > 0 {
                let h = choose|h: Seq<Seq<char>>| crate::search::gives(hay, raw, h) && ranked@ == #[trigger] crate::search::ranked(query@, raw, h);
                assert forall|i: int| 0 <= i < raw.len() implies h[i] == hays[i] by {
                    assert(crate::search::may_give(hay, raw[i], h[i]));
                }
                assert(h =~= hays);
            }
            assert(ranked@ == crate::search::ranked(query@, raw, hays));
            crate::search::lemma_ranked_map(query@, raw, hays, f);
            assert(raw.map_values(f) =~= all);
        }
        let ghost rs = ranked.deep_view();
        assert(rs =~= ranked@.map_values(f));
        if ranked.len() > PALETTE_MAX {
            ranked.truncate(PALETTE_MAX);
            assert(ranked.deep_view() =~= rs.take(PALETTE_MAX as int));
        }
        self.palette.items = ranked;
        self.palette.state = Some(0);
        assert(self@ =~= m.refreshing_palette());
    }

    fn run_palette(&mut self, action: PaletteAction, now: &Clock)
        ensures
            final(self)@ == old(self)@.running(action@, now@),
    {
        match action {
            PaletteAction::Tab(t) => self.set_tab(t, now),
            PaletteAction::ToggleGroupBy => {
                self.group_by = self.group_by.toggle();
                self.group_state = Some(0);
            },
            PaletteAction::Resync => self.send(HaCommand::Resync),
            PaletteAction::Help => {
                self.mode = Mode::Help;
            },
            PaletteAction::Quit => {
                self.should_quit = true;
            },
            PaletteAction::GoTo(id) => self.go_to(id.as_str(), now),
            PaletteAction::Act(id, action) => match self.plan(id.as_str(), action) {
                Plan::Call { call, label, confirm } => self.call(call, label, confirm),
                _ => {},
            },
        }
    }

    /// Select `id` in the Entities tab's "All" group.
    pub fn go_to(&mut self, id: &str, now: &Clock)
        ensures
            final(self)@ == old(self)@.going_to(id@, now@),
    {
        self.set_tab(Tab::Entities, now);
        self.focus = Focus::List;
        self.group_state = Some(0);
        let ids = self.list_ids();
        let ghost all = ids.deep_view();
        let n: usize = ids.len();
        let mut i: usize = 0;
        assert(all.skip(0) =~= all);
        while i < n && !same(ids[i].as_str(), id)
            invariant
                n == ids@.len(),
                all == ids.deep_view(),
                0 <= i <= n,
                actions::position(all, id@) == i + actions::position(all.skip(i as int), id@),
            decreases n - i,
        {
            assert(all.skip(i as int)[0] == ids@[i as int]@);
            assert(all.skip(i as int).drop_first() =~= all.skip(i + 1));
            i = i + 1;
        }
        if i < n {
            assert(all.skip(i as int)[0] == ids@[i as int]@);
        }
        self.select(Some(if i < n { i } else { 0 }));
    }
}

/// A palette item with no hint.
fn plain_item(label: &str, action: PaletteAction) -> (r: PaletteItem)
    ensures
        r@ == state::plain_item(label@, action@),
{
    let hint = String::new();
    assert(hint@ =~= Seq::empty());
    PaletteItem { label: label.to_owned(), hint, action }
}

fn tab_item(tab: Tab) -> (r: PaletteItem)
    ensures
        r@ == state::plain_item("Tab: "@ + tab.titled(), PaletteActionModel::Tab(tab)),
{
    let label = text::cat2("Tab: ", tab.title());
    plain_item(label.as_str(), PaletteAction::Tab(tab))
}

/// What the palette offers to do to an entity at once.
fn verb(e: &EntityState) -> (r: Option<&'static str>)
    ensures
        r.deep_view() == state::verb(e@),
{
    let d = e.domain();
    if same(d, "scene") || same(d, "script") {
        Some("Run")
    } else if same(d, "button") || same(d, "input_button") {
        Some("Press")
    } else if same(d, "lock") {
        if same(e.state.as_str(), "locked") {
            Some("Unlock")
        } else {
            Some("Lock")
        }
    } else if actions::service_for(e, Action::Primary).is_some() {
        Some("Toggle")
    } else {
        None
    }
}

/// Put the palette's items for an entity behind `items`.
fn push_items(items: &mut Vec<PaletteItem>, e: &EntityState)
    ensures
        final(items).deep_view() == old(items).deep_view() + state::entity_items(e@),
{
    let ghost before = items.deep_view();
    let name = e.friendly_name();
    if let Some(v) = verb(e) {
        items.push(
            PaletteItem {
                label: text::cat3(v, " ", name),
                hint: e.entity_id.clone(),
                action: PaletteAction::Act(e.entity_id.clone(), Action::Primary),
            },
        );
    }
    if same(e.domain(), "automation") {
        items.push(
            PaletteItem {
                label: text::cat2("Trigger ", name),
                hint: e.entity_id.clone(),
                action: PaletteAction::Act(e.entity_id.clone(), Action::Trigger),
            },
        );
    }
    items.push(
        PaletteItem {
            label: text::cat2("Go to ", name),
            hint: e.entity_id.clone(),
            action: PaletteAction::GoTo(e.entity_id.clone()),
        },
    );
    assert(items.deep_view() =~= before + state::entity_items(e@));
}

fn copied_action(a: &PaletteAction) -> (r: PaletteAction)
    ensures
        r@ == a@,
{
    match a {
        PaletteAction::GoTo(id) => PaletteAction::GoTo(id.clone()),
        PaletteAction::Act(id, a) => PaletteAction::Act(id.clone(), *a),
        PaletteAction::Tab(t) => PaletteAction::Tab(*t),
        PaletteAction::ToggleGroupBy => PaletteAction::ToggleGroupBy,
        PaletteAction::Resync => PaletteAction::Resync,
        PaletteAction::Help => PaletteAction::Help,
        PaletteAction::Quit => PaletteAction::Quit,
    }
}

/// The history with a change of state appended, where it is of that entity and differs from the last
/// point.
fn extend(h: HistoryView, entity_id: &str, new: &Option<EntityState>, now: &Clock) -> (r: HistoryView)
    ensures
        forall|m: AppModel| m.history == Some(h@) ==> Some(r@) == #[trigger] m.history_after(entity_id@, new.deep_view(), now@),
{
    let ns = match new {
        Some(ns) => ns,
        None => return h,
    };
    if !same(h.entity_id.as_str(), entity_id) {
        return h;
    }
    match h.points {
        Some(points) => {
            let mut points = points;
            let ghost before = points.deep_view();
            let n: usize = points.len();
            if n > 0 {
                assert(before.last() == points@[n - 1]@);
            }
            if n == 0 || !same(points[n - 1].state.as_str(), ns.state.as_str()) {
                let when = match ns.last_changed {
                    Some(t) => t,
                    None => now.date,
                };
                let p = HistoryPoint { when, state: ns.state.clone() };
                points.push(p);
                assert(points.deep_view() =~= before.push(p@));
            }
            HistoryView { entity_id: h.entity_id, name: h.name, unit: h.unit, points: Some(points), error: h.error }
        },
        None => h,
    }
}

/// Logbook entries, the newest first.
fn sort_newest_first(v: Vec<LogbookEntry>) -> (r: Vec<LogbookEntry>)
    ensures
        r.deep_view() == state::newest_first(v.deep_view()),
{
    let ghost lt = |a: LogbookEntry, b: LogbookEntry| crate::time::sooner(b.when@, a.when@);
    let ghost f = |a: LogbookEntry| a@;
    let ghost over = |a: LogModel, b: LogModel| crate::time::sooner(b.when, a.when);
    let before = |a: &LogbookEntry, b: &LogbookEntry| -> (y: bool)
        ensures
            y == crate::time::sooner(b.when@, a.when@),
        { b.when.before(&a.when) };
    let r = sort(v, before, Ghost(lt));
    proof {
        crate::sort::lemma_sorted_map(v@, lt, f, over);
        assert(v@.map_values(f) =~= v.deep_view());
    }
    assert(r.deep_view() =~= r@.map_values(f));
    r
}

} // verus!
