//! Entities / Scenes & Scripts / Automations tabs: optional group sidebar, entity table, detail pane.

use super::theme;
use super::theme::{Line, LineModel, Piece, PieceModel, Span, SpanModel, Style};
use crate::app::{App, AppModel, Focus, Tab};
use crate::ha::actions;
use crate::ha::types::{EntityModel, EntityState};
use crate::json::{Json, JsonModel};
use crate::store::{Group, GroupModel, Store, StoreModel};
use crate::strmap::{tallied, StrMap};
use crate::text;
use crate::text::same;
use crate::time::{TimeModel, Timestamp};
use vstd::prelude::*;

verus! {

pub const SIDEBAR_W: u16 = 24;

pub const DETAIL_W: u16 = 44;

pub const DETAIL_MIN_TOTAL: u16 = 110;

/// How wide something is.
#[derive(Debug, Clone, Copy, PartialEq, Eq, Structural)]
pub enum Width {
    /// So many cells.
    Length(u16),
    /// A share of what is left.
    Fill(u16),
}

/// How wide the panes beside the table are.
#[derive(Debug, Clone, Copy, PartialEq, Eq, Structural)]
pub struct Panes {
    pub sidebar: u16,
    pub detail: u16,
}

/// How wide the panes beside the table are; 0 where they are not shown.
pub fn panes(tab: Tab, width: u16) -> (r: Panes)
    ensures
        r.sidebar == if tab == Tab::Entities { SIDEBAR_W } else { 0 },
        r.detail == if width >= DETAIL_MIN_TOTAL { DETAIL_W } else { 0 },
{
    Panes {
        sidebar: if tab == Tab::Entities { SIDEBAR_W } else { 0 },
        detail: if width >= DETAIL_MIN_TOTAL { DETAIL_W } else { 0 },
    }
}

/// `s` cut to `max` characters, the last of them an ellipsis where something was cut.
pub open spec fn cut(s: Seq<char>, max: nat) -> Seq<char> {
    if s.len() <= max {
        s
    } else {
        s.take(if max > 0 { max - 1 } else { 0 }).push('…')
    }
}

pub fn truncate(s: &str, max: usize) -> (r: String)
    ensures
        r@ == cut(s@, max as nat),
{
    if s.unicode_len() <= max {
        return s.to_owned();
    }
    let keep: usize = if max > 0 { max - 1 } else { 0 };
    let mut out = s.substring_char(0, keep).to_owned();
    assert(out@ =~= s@.take(keep as int));
    out.push('…');
    out
}

/// A text is cut to the width asked for, and left alone where it fits.
pub proof fn law_cuts_fit(s: Seq<char>, max: nat)
    ensures
        max > 0 ==> cut(s, max).len() <= max,
        s.len() <= max ==> cut(s, max) == s,
        s.len() > max && max > 0 ==> cut(s, max).len() == max && cut(s, max).last() == '…',
{
}

// ----- Groups -------------------------------------------------------------------------

/// A group's line in the sidebar: its title and, to the right, its count.
pub open spec fn group_text(g: GroupModel, width: u16) -> LineModel {
    let count = text::right_in(text::decimal(g.count as nat), 4);
    let room = width - (count.len() + 4);
    let name_w = (if room > 0 { room } else { 0 }) as nat;
    let gap = (if g.title.len() < name_w { name_w - g.title.len() } else { 0 }) as nat;
    seq![
        theme::styled(cut(g.title, name_w), theme::raw_style()),
        theme::styled(text::blanks(gap), theme::raw_style()),
        theme::styled(count, theme::in_color(theme::DIM)),
    ]
}

pub fn group_line(g: &Group, width: u16) -> (r: Line)
    ensures
        r@ == group_text(g@, width),
{
    let count = text::pad_left(text::decimal_text(g.count as u64).as_str(), 4);
    let used: usize = count.as_str().unicode_len();
    let name_w: usize = if used <= width as usize && width as usize - used >= 4 { width as usize - used - 4 } else { 0 };
    let len: usize = g.title.as_str().unicode_len();
    let gap: usize = if len < name_w { name_w - len } else { 0 };
    let r = Line::new().with(Span::styled(truncate(g.title.as_str(), name_w), theme::raw())).with(
        Span::styled(text::spaces(gap), theme::raw()),
    ).with(Span::styled(count, theme::dim()));
    assert(r@ =~= group_text(g@, width));
    r
}

/// The sidebar.
#[derive(Debug)]
pub struct GroupsView {
    pub lines: Vec<Line>,
    pub title: &'static str,
    pub focused: bool,
    pub dimmed: bool,
}

/// The sidebar's lines.
pub open spec fn group_texts(groups: Seq<GroupModel>, width: u16) -> Seq<LineModel> {
    groups.map_values(|g: GroupModel| group_text(g, width))
}

/// Lay out the sidebar, and keep the selected group among the groups.
pub fn groups_view(app: &mut App, width: u16) -> (r: GroupsView)
    ensures
        ({
            let groups = old(app)@.store.groups(old(app)@.group_by);
            &&& r.lines.deep_view() == group_texts(groups, width)
            &&& r.title@ == if old(app)@.filter.len() > 0 { "Search (all)"@ } else { old(app)@.group_by.labelled() }
            &&& r.title@ == groups_subject(old(app)@)
            &&& r.focused == (old(app)@.focus == Focus::Groups)
            &&& r.dimmed == (old(app)@.filter.len() > 0)
            &&& final(app)@ == (AppModel {
                group_state: crate::app::state::synced(old(app)@.group_state, groups.len() as int),
                ..old(app)@
            })
        }),
{
    let groups = app.store.groups(app.group_by);
    let ghost all = groups.deep_view();
    let filtering = !app.filter.as_str().is_empty();
    let n: usize = groups.len();
    let mut lines: Vec<Line> = Vec::new();
    for i in 0..n
        invariant
            n == groups@.len(),
            all == groups.deep_view(),
            lines.deep_view() == group_texts(all.take(i as int), width),
    {
        let ghost sofar = lines.deep_view();
        let line = group_line(&groups[i], width);
        lines.push(line);
        assert(all[i as int] == groups@[i as int]@);
        assert(lines.deep_view() =~= sofar.push(line@));
        assert(group_texts(all.take(i + 1), width) =~= group_texts(all.take(i as int), width).push(line@));
    }
    assert(all.take(n as int) =~= all);
    let title = if filtering { "Search (all)" } else { app.group_by.label() };
    let focused = app.focus == Focus::Groups;
    app.sync_groups(&groups);
    GroupsView { lines, title, focused, dimmed: filtering }
}

// ----- Table --------------------------------------------------------------------------

/// The entities with the given ids.
pub open spec fn present(s: StoreModel, ids: Seq<Seq<char>>) -> Seq<EntityModel>
    decreases ids.len(),
{
    if ids.len() == 0 {
        Seq::empty()
    } else {
        match s.get(ids.last()) {
            Some(e) => present(s, ids.drop_last()).push(e),
            None => present(s, ids.drop_last()),
        }
    }
}

fn entities_of<'a>(s: &'a Store, ids: &Vec<String>) -> (r: Vec<&'a EntityState>)
    ensures
        r.deep_view() == present(s@, ids.deep_view()),
{
    let ghost all = ids.deep_view();
    let n: usize = ids.len();
    let mut out: Vec<&'a EntityState> = Vec::new();
    assert(out.deep_view() =~= Seq::empty());
    for i in 0..n
        invariant
            n == ids@.len(),
            all == ids.deep_view(),
            out.deep_view() == present(s@, all.take(i as int)),
    {
        assert(all.take(i + 1).drop_last() =~= all.take(i as int));
        assert(all.take(i + 1).last() == ids@[i as int]@);
        let ghost sofar = out.deep_view();
        if let Some(e) = s.get(ids[i].as_str()) {
            out.push(e);
            assert(out.deep_view() =~= sofar.push(e@));
        }
    }
    assert(all.take(n as int) =~= all);
    out
}

/// The length of the longest area name among the entities.
pub open spec fn longest_area(s: StoreModel, l: Seq<EntityModel>) -> nat
    decreases l.len(),
{
    if l.len() == 0 {
        0
    } else {
        let rest = longest_area(s, l.drop_last());
        let n = s.area_name(l.last().entity_id).len();
        if n > rest {
            n
        } else {
            rest
        }
    }
}

/// How wide the area column is: as wide as its longest name, within limits.
pub open spec fn area_width(s: StoreModel, l: Seq<EntityModel>) -> u16 {
    let n = longest_area(s, l);
    if n < 4 {
        4
    } else if n > 18 {
        18
    } else {
        n as u16
    }
}

fn area_column(s: &Store, l: &Vec<&EntityState>) -> (r: u16)
    ensures
        r == area_width(s@, l.deep_view()),
{
    let ghost all = l.deep_view();
    let n: usize = l.len();
    let mut most: usize = 0;
    for i in 0..n
        invariant
            n == l@.len(),
            all == l.deep_view(),
            most == longest_area(s@, all.take(i as int)),
    {
        assert(all.take(i + 1).drop_last() =~= all.take(i as int));
        assert(all.take(i + 1).last() == l@[i as int]@);
        let len: usize = s.area_name(l[i].entity_id.as_str()).unicode_len();
        if len > most {
            most = len;
        }
    }
    assert(all.take(n as int) =~= all);
    if most < 4 {
        4
    } else if most > 18 {
        18
    } else {
        most as u16
    }
}

/// The table's column heads.
pub open spec fn header_of(tab: Tab) -> Seq<Seq<char>> {
    match tab {
        Tab::Scenes => seq![""@, "Name"@, "Type"@, "Last run / state"@],
        Tab::Automations => seq![""@, "Name"@, "Enabled"@, "Last triggered"@, "Mode"@],
        _ => seq![""@, "Name"@, "State"@, "Area"@, "Changed"@],
    }
}

/// How wide the table's columns are.
pub open spec fn widths_of(tab: Tab, area: u16) -> Seq<Width> {
    match tab {
        Tab::Scenes => seq![Width::Length(1), Width::Fill(2), Width::Length(7), Width::Fill(1)],
        Tab::Automations => seq![Width::Length(1), Width::Fill(2), Width::Length(8), Width::Length(15), Width::Length(9)],
        _ => seq![Width::Length(1), Width::Fill(3), Width::Fill(2), Width::Length(area), Width::Length(7)],
    }
}

fn header(tab: Tab) -> (r: Vec<&'static str>)
    ensures
        r.deep_view() == header_of(tab),
{
    let mut v: Vec<&'static str> = Vec::new();
    v.push("");
    v.push("Name");
    match tab {
        Tab::Scenes => {
            v.push("Type");
            v.push("Last run / state");
        },
        Tab::Automations => {
            v.push("Enabled");
            v.push("Last triggered");
            v.push("Mode");
        },
        _ => {
            v.push("State");
            v.push("Area");
            v.push("Changed");
        },
    }
    assert(v.deep_view() =~= header_of(tab));
    v
}

fn widths(tab: Tab, area: u16) -> (r: Vec<Width>)
    ensures
        r@ == widths_of(tab, area),
{
    let mut v: Vec<Width> = Vec::new();
    v.push(Width::Length(1));
    match tab {
        Tab::Scenes => {
            v.push(Width::Fill(2));
            v.push(Width::Length(7));
            v.push(Width::Fill(1));
        },
        Tab::Automations => {
            v.push(Width::Fill(2));
            v.push(Width::Length(8));
            v.push(Width::Length(15));
            v.push(Width::Length(9));
        },
        _ => {
            v.push(Width::Fill(3));
            v.push(Width::Fill(2));
            v.push(Width::Length(area));
            v.push(Width::Length(7));
        },
    }
    assert(v@ =~= widths_of(tab, area));
    v
}

/// The names of the entities.
pub open spec fn names(l: Seq<EntityModel>) -> Seq<Seq<char>> {
    l.map_values(|e: EntityModel| e.name())
}

/// How many of the entities have that name.
pub open spec fn namesakes(l: Seq<EntityModel>, name: Seq<char>) -> int {
    crate::strmap::occurrences(names(l), name)
}

fn count_names(l: &Vec<&EntityState>) -> (r: StrMap<usize>)
    ensures
        crate::strmap::as_ints(r@) == crate::strmap::tally(names(l.deep_view())),
{
    let ghost all = l.deep_view();
    let n: usize = l.len();
    let mut keys: Vec<String> = Vec::new();
    for i in 0..n
        invariant
            n == l@.len(),
            all == l.deep_view(),
            keys.deep_view() == names(all.take(i as int)),
    {
        let ghost sofar = keys.deep_view();
        let name = l[i].friendly_name().to_owned();
        keys.push(name);
        assert(all[i as int] == l@[i as int]@);
        assert(keys.deep_view() =~= sofar.push(name@));
        assert(names(all.take(i + 1)) =~= names(all.take(i as int)).push(name@));
    }
    assert(all.take(n as int) =~= all);
    tallied(keys)
}

/// An entity's name; where others have the same, with its domain to tell them apart.
pub open spec fn name_line(e: EntityModel, shared: bool) -> LineModel {
    let name = theme::styled(e.name(), theme::raw_style());
    if shared {
        seq![name, theme::styled(" · "@ + crate::ha::types::domain(e.entity_id), theme::in_color(theme::DIM))]
    } else {
        seq![name]
    }
}

/// An entity's row in the table.
pub open spec fn row_of(s: StoreModel, tab: Tab, shared: bool, e: EntityModel, now: TimeModel) -> Seq<LineModel> {
    let dot = seq![theme::styled("●"@, theme::in_color(theme::color_of(e.state)))];
    let name = name_line(e, shared);
    match tab {
        Tab::Scenes => seq![
            dot,
            name,
            seq![theme::styled(crate::ha::types::domain(e.entity_id), theme::in_color(theme::DIM))],
            seq![SpanModel { pieces: theme::summary(e, now), style: theme::raw_style() }],
        ],
        Tab::Automations => seq![
            dot,
            name,
            seq![theme::styled(e.state, theme::in_color(theme::color_of(e.state)))],
            seq![theme::styled(theme::last_trigger(e, now), theme::raw_style())],
            seq![
                theme::styled(
                    match e.attr_str("mode"@) {
                        Some(m) => m,
                        None => ""@,
                    },
                    theme::in_color(theme::DIM),
                ),
            ],
        ],
        _ => seq![
            dot,
            name,
            seq![SpanModel { pieces: theme::summary(e, now), style: theme::in_color(theme::color_of(e.state)) }],
            seq![theme::styled(s.area_name(e.entity_id), theme::in_color(theme::DIM))],
            seq![
                theme::styled(
                    match e.last_changed {
                        Some(t) => theme::age_of(t, now),
                        None => Seq::empty(),
                    },
                    theme::in_color(theme::DIM),
                ),
            ],
        ],
    }
}

/// A line of one text made of pieces.
fn pieces_line(pieces: Vec<Piece>, style: Style) -> (r: Line)
    ensures
        r@ == seq![SpanModel { pieces: pieces.deep_view(), style }],
{
    let r = Line::new().with(Span { pieces, style });
    assert(r@ =~= seq![SpanModel { pieces: pieces.deep_view(), style }]);
    r
}

fn row(s: &Store, tab: Tab, shared: bool, e: &EntityState, now: &Timestamp) -> (r: Vec<Line>)
    ensures
        r.deep_view() == row_of(s@, tab, shared, e@, now@),
{
    let color = theme::state_color(e.state.as_str());
    let mut cells: Vec<Line> = Vec::new();
    cells.push(Line::of("●", theme::fg(color)));
    let mut name = Line::of(e.friendly_name(), theme::raw());
    if shared {
        name = name.with(Span::styled(text::cat2(" · ", e.domain()), theme::dim()));
    }
    assert(name@ =~= name_line(e@, shared));
    cells.push(name);
    match tab {
        Tab::Scenes => {
            cells.push(Line::of(e.domain(), theme::dim()));
            cells.push(pieces_line(theme::format_state(e, now), theme::raw()));
        },
        Tab::Automations => {
            cells.push(Line::of(e.state.as_str(), theme::fg(color)));
            cells.push(Line::of(theme::last_triggered(e, now).as_str(), theme::raw()));
            let mode = match e.attr_str("mode") {
                Some(m) => m,
                None => "",
            };
            cells.push(Line::of(mode, theme::dim()));
        },
        _ => {
            cells.push(pieces_line(theme::format_state(e, now), theme::fg(color)));
            cells.push(Line::of(s.area_name(e.entity_id.as_str()), theme::dim()));
            let changed = match &e.last_changed {
                Some(t) => theme::ago(t, now),
                None => {
                    let none = String::new();
                    assert(none@ =~= Seq::empty());
                    none
                },
            };
            cells.push(Line::of(changed.as_str(), theme::dim()));
        },
    }
    assert(cells.deep_view() =~= row_of(s@, tab, shared, e@, now@));
    cells
}

/// The rows of the first `n` of the entities.
pub open spec fn rows_of(s: StoreModel, tab: Tab, l: Seq<EntityModel>, now: TimeModel, n: nat) -> Seq<Seq<LineModel>> {
    Seq::new(n, |i: int| row_of(s, tab, namesakes(l, l[i].name()) > 1, l[i], now))
}

fn rows(s: &Store, tab: Tab, l: &Vec<&EntityState>, now: &Timestamp) -> (r: Vec<Vec<Line>>)
    ensures
        r.deep_view() == rows_of(s@, tab, l.deep_view(), now@, l@.len()),
{
    let ghost all = l.deep_view();
    let counts = count_names(l);
    let n: usize = l.len();
    let mut out: Vec<Vec<Line>> = Vec::new();
    for i in 0..n
        invariant
            n == l@.len(),
            all == l.deep_view(),
            crate::strmap::as_ints(counts@) == crate::strmap::tally(names(all)),
            out.deep_view() == rows_of(s@, tab, all, now@, i as nat),
    {
        let e = l[i];
        assert(all[i as int] == e@);
        let shared = match counts.get(e.friendly_name()) {
            Some(k) => *k > 1,
            None => false,
        };
        proof {
            crate::strmap::lemma_tally(names(all), e@.name());
            crate::strmap::lemma_mapped(counts@, crate::strmap::as_ints(counts@), e@.name());
            crate::strmap::lemma_place(counts@, e@.name());
        }
        let ghost sofar = out.deep_view();
        let cells = row(s, tab, shared, e, now);
        out.push(cells);
        assert(out.deep_view() =~= sofar.push(cells.deep_view()));
        assert(out.deep_view() =~= rows_of(s@, tab, all, now@, (i + 1) as nat));
    }
    out
}

/// The entity table.
#[derive(Debug)]
pub struct TableView {
    pub header: Vec<&'static str>,
    pub widths: Vec<Width>,
    pub rows: Vec<Vec<Line>>,
    pub title: String,
    pub focused: bool,
    /// What is said in place of rows.
    pub message: Option<&'static str>,
    /// The selected row, and the id of the entity in it.
    pub selected: Option<(usize, String)>,
}

/// What the table is of.
pub open spec fn table_subject(m: AppModel) -> Seq<char> {
    match m.tab {
        Tab::Entities => if m.filter.len() == 0 {
            let groups = m.store.groups(m.group_by);
            groups[crate::app::state::within(m.group_state, groups.len() as int)].title
        } else {
            "Search results"@
        },
        t => t.titled(),
    }
}

/// What the groups are titled.
pub open spec fn groups_subject(m: AppModel) -> Seq<char> {
    if m.filter.len() > 0 {
        "Search (all)"@
    } else {
        m.group_by.labelled()
    }
}

/// What the table of `n` entities is titled.
pub open spec fn table_title(m: AppModel, n: nat) -> Seq<char> {
    table_subject(m) + " ("@ + text::decimal(n) + ")"@
}

/// What is said in place of a table of `n` entities.
pub open spec fn nothing_listed(m: AppModel, n: nat) -> Option<Seq<char>> {
    if n > 0 {
        None
    } else if m.filter.len() == 0 {
        Some("Nothing here"@)
    } else {
        Some("No matches"@)
    }
}

/// The details of the entity `id`, in a pane `pane` cells wide.
pub open spec fn detailed(s: StoreModel, id: Option<Seq<char>>, now: TimeModel, pane: u16) -> Option<Seq<LineModel>> {
    match id {
        Some(id) => match s.get(id) {
            Some(e) => Some(details(s, e, now, (if pane > 4 { pane - 4 } else { 0 }) as nat)),
            None => None,
        },
        None => None,
    }
}

/// Lay out the entity table, and keep the selected row among the entities.
pub fn table(app: &mut App, now: &Timestamp) -> (r: TableView)
    ensures
        ({
            let m = old(app)@;
            let ids = m.list_ids();
            let l = present(m.store, ids);
            let row = crate::app::state::synced(m.list_state(), ids.len() as int);
            &&& r.header.deep_view() == header_of(m.tab)
            &&& r.widths@ == widths_of(m.tab, area_width(m.store, l))
            &&& r.rows.deep_view() == rows_of(m.store, m.tab, l, now@, l.len())
            &&& r.title@ == table_subject(m) + " ("@ + text::decimal(l.len()) + ")"@
            &&& r.title@ == table_title(m, l.len())
            &&& r.message.deep_view() == nothing_listed(m, l.len())
            &&& r.focused == (m.focus == Focus::List || m.tab != Tab::Entities)
            &&& r.message.deep_view() == if l.len() > 0 {
                None
            } else if m.filter.len() == 0 {
                Some("Nothing here"@)
            } else {
                Some("No matches"@)
            }
            &&& match r.selected {
                Some((i, id)) => row == Some(i) && id@ == ids[i as int],
                None => row is None,
            }
            &&& final(app)@ == m.selecting(row)
        }),
{
    let ids = app.list_ids();
    let tab = app.tab;
    let ghost m = app@;
    let entities = entities_of(&app.store, &ids);
    let area = area_column(&app.store, &entities);
    let rows = rows(&app.store, tab, &entities, now);
    let unfiltered = app.filter.as_str().is_empty();
    let subject = match tab {
        Tab::Entities => if unfiltered {
            let groups = app.store.groups(app.group_by);
            let ghost all = groups.deep_view();
            assert(all.len() > 0);
            let i: usize = crate::app::within(app.group_state, groups.len());
            assert(all[i as int] == groups@[i as int]@);
            groups[i].title.clone()
        } else {
            "Search results".to_owned()
        },
        t => t.title().to_owned(),
    };
    let n: usize = entities.len();
    let count = text::decimal_text(n as u64);
    let head = text::cat3(subject.as_str(), " (", count.as_str());
    let title = text::cat2(head.as_str(), ")");
    let focused = app.focus == Focus::List || tab != Tab::Entities;
    let message = if n > 0 {
        None
    } else if unfiltered {
        Some("Nothing here")
    } else {
        Some("No matches")
    };
    let selected = match app.sync_list(&ids) {
        Some(i) => {
            assert(ids.deep_view()[i as int] == ids@[i as int]@);
            Some((i, ids[i].clone()))
        },
        None => None,
    };
    TableView { header: header(tab), widths: widths(tab, area), rows, title, focused, message, selected }
}

// ----- Details ------------------------------------------------------------------------

/// The label of a detail.
pub open spec fn label_of(s: Seq<char>) -> SpanModel {
    theme::styled(text::left_in(s, 9), theme::in_color(theme::DIM))
}

/// The hint for a key.
pub open spec fn key_line(key: Seq<char>, what: Seq<char>) -> LineModel {
    seq![
        theme::styled(" "@ + text::left_in(key, 6), theme::in_color(theme::ACCENT)),
        theme::styled(what, theme::raw_style()),
    ]
}

/// Whether an attribute is not shown.
pub open spec fn unshown(key: Seq<char>) -> bool {
    key == "friendly_name"@ || key == "icon"@ || key == "entity_picture"@ || key == "supported_features"@
}

/// The items of a list, with commas between them.
pub open spec fn joined(l: Seq<JsonModel>) -> Seq<char>
    decreases l.len(),
{
    if l.len() == 0 {
        Seq::empty()
    } else if l.len() == 1 {
        actions::shown(l[0])
    } else {
        joined(l.drop_last()) + ", "@ + actions::shown(l.last())
    }
}

/// An attribute's value as it is shown.
pub open spec fn value_text(v: JsonModel) -> Seq<char> {
    match v {
        JsonModel::List(l) => joined(l),
        _ => actions::shown(v),
    }
}

/// An attribute's line.
pub open spec fn attr_line(k: Seq<char>, v: JsonModel, width: nat) -> LineModel {
    let key = text::swapped(k, '_', ' ');
    let room = width - (key.len() + 2);
    seq![
        theme::styled(key + ": "@, theme::in_color(theme::DIM)),
        theme::styled(cut(value_text(v), (if room > 0 { room } else { 0 }) as nat), theme::raw_style()),
    ]
}

/// The lines of the attributes that are shown.
pub open spec fn attr_lines(attrs: Seq<(Seq<char>, JsonModel)>, width: nat) -> Seq<LineModel>
    decreases attrs.len(),
{
    if attrs.len() == 0 {
        Seq::empty()
    } else {
        let rest = attr_lines(attrs.drop_last(), width);
        let (k, v) = attrs.last();
        if unshown(k) {
            rest
        } else {
            rest.push(attr_line(k, v, width))
        }
    }
}

/// The first lines of the details: the name, the id, the state, the area and when it changed.
pub open spec fn head_lines(s: StoreModel, e: EntityModel, now: TimeModel) -> Seq<LineModel> {
    let top = seq![
        seq![theme::styled(e.name(), Style { fg: None, bold: true })],
        seq![theme::styled(e.entity_id, theme::in_color(theme::DIM))],
        seq![theme::styled(""@, theme::raw_style())],
        seq![
            label_of("State"@),
            SpanModel { pieces: theme::summary(e, now), style: theme::bold_in(theme::color_of(e.state)) },
        ],
        seq![label_of("Area"@), theme::styled(s.area_name(e.entity_id), theme::raw_style())],
    ];
    match e.last_changed {
        Some(t) => top.push(
            seq![
                label_of("Changed"@),
                theme::styled(theme::age_of(t, now) + " ago"@, theme::raw_style()),
                SpanModel {
                    pieces: seq![PieceModel::Text("  "@), PieceModel::Clock { at: t, width: 0 }],
                    style: theme::in_color(theme::DIM),
                },
            ],
        ),
        None => top,
    }
}

/// The lines that tell what can be done with the entity.
pub open spec fn control_lines(e: EntityModel) -> Seq<LineModel> {
    let hints = actions::hints(e, actions::hint_keys());
    seq![
        seq![theme::styled(""@, theme::raw_style())],
        seq![theme::styled("Controls"@, theme::bold_in(theme::ACCENT))],
    ] + (if hints.len() == 0 {
        seq![seq![theme::styled("read-only"@, theme::in_color(theme::DIM))]]
    } else {
        hints.map_values(|h: (Seq<char>, Seq<char>)| key_line(h.0, h.1))
    }) + seq![key_line("H"@, "history (24h)"@)]
}

/// The lines of the detail pane, `width` cells wide inside.
pub open spec fn details(s: StoreModel, e: EntityModel, now: TimeModel, width: nat) -> Seq<LineModel> {
    head_lines(s, e, now) + control_lines(e) + seq![
        seq![theme::styled(""@, theme::raw_style())],
        seq![theme::styled("Attributes"@, theme::bold_in(theme::ACCENT))],
    ] + attr_lines(e.attributes, width)
}

fn label(s: &str) -> (r: Span)
    ensures
        r@ == label_of(s@),
{
    Span::styled(text::pad_right(s, 9), theme::dim())
}

fn key_hint(key: &str, what: &str) -> (r: Line)
    ensures
        r@ == key_line(key@, what@),
{
    let padded = text::pad_right(key, 6);
    let r = Line::new().with(Span::styled(text::cat2(" ", padded.as_str()), theme::fg(theme::ACCENT))).with(
        Span::of(what, theme::raw()),
    );
    assert(r@ =~= key_line(key@, what@));
    r
}

/// A value as it is shown: a text as it is, anything else as JSON.
fn shown(v: &Json) -> (r: String)
    ensures
        r@ == actions::shown(v@),
{
    match v.as_str() {
        Some(s) => s.to_owned(),
        None => v.to_text(),
    }
}

fn shown_value(v: &Json) -> (r: String)
    ensures
        r@ == value_text(v@),
{
    match v.as_array() {
        Some(l) => {
            let ghost all = l.deep_view();
            let n: usize = l.len();
            let mut out = String::new();
            assert(out@ =~= Seq::empty());
            for i in 0..n
                invariant
                    n == l@.len(),
                    all == l.deep_view(),
                    out@ == joined(all.take(i as int)),
            {
                assert(all.take(i + 1).drop_last() =~= all.take(i as int));
                assert(all.take(i + 1).last() == l@[i as int]@);
                let item = shown(&l[i]);
                if i > 0 {
                    out.append(", ");
                    out.append(item.as_str());
                } else {
                    out = item;
                }
                assert(out@ =~= joined(all.take(i + 1)));
            }
            assert(all.take(n as int) =~= all);
            out
        },
        None => shown(v),
    }
}

fn attr(k: &str, v: &Json, width: usize) -> (r: Line)
    ensures
        r@ == attr_line(k@, v@, width as nat),
{
    let key = text::replace(k, '_', ' ');
    let len: usize = key.as_str().unicode_len();
    let room: usize = if len <= width && width - len >= 2 { width - len - 2 } else { 0 };
    let value = shown_value(v);
    let r = Line::new().with(Span::styled(text::cat2(key.as_str(), ": "), theme::dim())).with(
        Span::styled(truncate(value.as_str(), room), theme::raw()),
    );
    assert(r@ =~= attr_line(k@, v@, width as nat));
    r
}

fn is_unshown(k: &str) -> (r: bool)
    ensures
        r == unshown(k@),
{
    same(k, "friendly_name") || same(k, "icon") || same(k, "entity_picture") || same(k, "supported_features")
}

fn head(s: &Store, e: &EntityState, now: &Timestamp) -> (r: Vec<Line>)
    ensures
        r.deep_view() == head_lines(s@, e@, now@),
{
    let mut lines: Vec<Line> = Vec::new();
    lines.push(Line::of(e.friendly_name(), theme::bold()));
    lines.push(Line::of(e.entity_id.as_str(), theme::dim()));
    lines.push(Line::of("", theme::raw()));
    let color = theme::state_color(e.state.as_str());
    let state = Line::new().with(label("State")).with(
        Span { pieces: theme::format_state(e, now), style: theme::bold_fg(color) },
    );
    lines.push(state);
    let area = Line::new().with(label("Area")).with(Span::of(s.area_name(e.entity_id.as_str()), theme::raw()));
    lines.push(area);
    assert(state@ =~= seq![
        label_of("State"@),
        SpanModel { pieces: theme::summary(e@, now@), style: theme::bold_in(theme::color_of(e@.state)) },
    ]);
    assert(area@ =~= seq![label_of("Area"@), theme::styled(s@.area_name(e@.entity_id), theme::raw_style())]);
    if let Some(t) = &e.last_changed {
        let mut pieces: Vec<Piece> = Vec::new();
        pieces.push(Piece::Text("  ".to_owned()));
        pieces.push(Piece::Clock { at: *t, width: 0 });
        assert(pieces.deep_view() =~= seq![PieceModel::Text("  "@), PieceModel::Clock { at: t@, width: 0 }]);
        let since = text::cat2(theme::ago(t, now).as_str(), " ago");
        let changed = Line::new().with(label("Changed")).with(Span::styled(since, theme::raw())).with(
            Span { pieces, style: theme::dim() },
        );
        assert(changed@ =~= seq![
            label_of("Changed"@),
            theme::styled(theme::age_of(t@, now@) + " ago"@, theme::raw_style()),
            SpanModel {
                pieces: seq![PieceModel::Text("  "@), PieceModel::Clock { at: t@, width: 0 }],
                style: theme::in_color(theme::DIM),
            },
        ]);
        lines.push(changed);
    }
    assert(lines.deep_view() =~= head_lines(s@, e@, now@));
    lines
}

fn controls(e: &EntityState) -> (r: Vec<Line>)
    ensures
        r.deep_view() == control_lines(e@),
{
    let hints = actions::available(e);
    let ghost all = hints.deep_view();
    let n: usize = hints.len();
    let mut lines: Vec<Line> = Vec::new();
    lines.push(Line::of("", theme::raw()));
    lines.push(Line::of("Controls", theme::title()));
    let ghost top = seq![
        seq![theme::styled(""@, theme::raw_style())],
        seq![theme::styled("Controls"@, theme::bold_in(theme::ACCENT))],
    ];
    assert(lines.deep_view() =~= top);
    if n == 0 {
        lines.push(Line::of("read-only", theme::dim()));
    }
    let ghost f = |h: (Seq<char>, Seq<char>)| key_line(h.0, h.1);
    let ghost begun = lines.deep_view();
    assert(begun =~= begun + all.take(0).map_values(f));
    for i in 0..n
        invariant
            n == hints@.len(),
            all == hints.deep_view(),
            f == (|h: (Seq<char>, Seq<char>)| key_line(h.0, h.1)),
            lines.deep_view() == begun + all.take(i as int).map_values(f),
    {
        let ghost sofar = lines.deep_view();
        let line = key_hint(hints[i].0, hints[i].1.as_str());
        lines.push(line);
        assert(all[i as int] == (hints@[i as int].0@, hints@[i as int].1@));
        assert(lines.deep_view() =~= sofar.push(line@));
        assert(all.take(i + 1).map_values(f) =~= all.take(i as int).map_values(f).push(line@));
        assert(lines.deep_view() =~= begun + all.take(i + 1).map_values(f));
    }
    assert(all.take(n as int) =~= all);
    let ghost body = lines.deep_view();
    let last = key_hint("H", "history (24h)");
    lines.push(last);
    proof {
        if n == 0 {
            assert(begun =~= top + seq![seq![theme::styled("read-only"@, theme::in_color(theme::DIM))]]);
            assert(body =~= begun);
        } else {
            assert(begun =~= top);
        }
        assert(lines.deep_view() =~= body.push(last@));
    }
    assert(lines.deep_view() =~= control_lines(e@));
    lines
}

/// The lines of the detail pane for the entity `id`, in a pane `pane` cells wide.
pub fn detail(s: &Store, id: Option<&str>, now: &Timestamp, pane: u16) -> (r: Option<Vec<Line>>)
    ensures
        r.deep_view() == detailed(s@, id.deep_view(), now@, pane),
        r.deep_view() == (match id {
            Some(id) => match s@.get(id@) {
                Some(e) => Some(details(s@, e, now@, (if pane > 4 { pane - 4 } else { 0 }) as nat)),
                None => None,
            },
            None => None,
        }),
{
    let e = match id {
        Some(id) => match s.get(id) {
            Some(e) => e,
            None => return None,
        },
        None => return None,
    };
    let width: usize = if pane > 4 { pane as usize - 4 } else { 0 };
    let mut lines = head(s, e, now);
    let mut more = controls(e);
    lines.append(&mut more);
    lines.push(Line::of("", theme::raw()));
    lines.push(Line::of("Attributes", theme::title()));
    let ghost attrs = e@.attributes;
    let ghost begun = head_lines(s@, e@, now@) + control_lines(e@) + seq![
        seq![theme::styled(""@, theme::raw_style())],
        seq![theme::styled("Attributes"@, theme::bold_in(theme::ACCENT))],
    ];
    assert(lines.deep_view() =~= begun + attr_lines(attrs.take(0), width as nat));
    let n: usize = e.attributes.len();
    for i in 0..n
        invariant
            n == e.attributes@.len(),
            attrs == e.attributes.deep_view(),
            lines.deep_view() == begun + attr_lines(attrs.take(i as int), width as nat),
    {
        let k = e.attributes.key_at(i);
        let v = e.attributes.value_at(i);
        assert(attrs.take(i + 1).drop_last() =~= attrs.take(i as int));
        assert(attrs.take(i + 1).last() == (k@, v@));
        let ghost sofar = lines.deep_view();
        if !is_unshown(k) {
            let line = attr(k, v, width);
            lines.push(line);
            assert(lines.deep_view() =~= sofar.push(line@));
        }
        assert(lines.deep_view() =~= begun + attr_lines(attrs.take(i + 1), width as nat));
    }
    assert(attrs.take(n as int) =~= attrs);
    Some(lines)
}

} // verus!
