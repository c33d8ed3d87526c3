//! Logbook tab: recent events, newest first.

use super::theme;
use super::theme::{Line, LineModel, Piece, PieceModel, Span, SpanModel};
use crate::app::{App, AppModel};
use crate::ha::types::{LogModel, LogbookEntry};
use crate::store::{Store, StoreModel};
use crate::text;
use crate::time::TimeModel;
use vstd::prelude::*;

verus! {

/// What the logbook is of.
pub open spec fn scope(m: AppModel) -> Seq<char> {
    match m.logbook.entity {
        Some(id) => match m.store.get(id) {
            Some(e) => e.name(),
            None => id,
        },
        None => "all entities"@,
    }
}

/// The logbook's title.
pub open spec fn logbook_title(m: AppModel) -> Seq<char> {
    " Logbook · "@ + scope(m) + " · last 24h ("@ + text::decimal(m.logbook.entries.len()) + ")"@ + (if m.logbook.loading {
        " · loading…"@
    } else {
        ""@
    }) + " "@
}

/// The name that a logbook entry is shown under: its own, else that of its entity, else the entity's id.
pub open spec fn entry_name(s: StoreModel, l: LogModel) -> Seq<char> {
    match l.name {
        Some(n) => n,
        None => match l.entity_id {
            Some(id) => match s.get(id) {
                Some(e) => e.name(),
                None => id,
            },
            None => Seq::empty(),
        },
    }
}

/// An entry's row: when it was, what it is about and what happened.
pub open spec fn entry_row(s: StoreModel, l: LogModel) -> Seq<LineModel> {
    let color = match l.state {
        Some(st) => theme::color_of(st),
        None => theme::Color::White,
    };
    seq![
        seq![
            SpanModel {
                pieces: seq![PieceModel::Clock { at: l.when, width: 0 }],
                style: theme::in_color(theme::DIM),
            },
        ],
        seq![theme::styled(entry_name(s, l), theme::raw_style())],
        seq![theme::styled(crate::ha::types::happening(l), theme::in_color(color))],
    ]
}

/// The logbook.
#[derive(Debug)]
pub struct LogbookScreen {
    pub title: String,
    /// What is said in place of rows.
    pub error: Option<Span>,
    pub rows: Vec<Vec<Line>>,
}

fn name_of(s: &Store, l: &LogbookEntry) -> (r: String)
    ensures
        r@ == entry_name(s@, l@),
{
    match &l.name {
        Some(n) => n.clone(),
        None => match &l.entity_id {
            Some(id) => match s.get(id.as_str()) {
                Some(e) => e.friendly_name().to_owned(),
                None => id.clone(),
            },
            None => {
                let none = String::new();
                assert(none@ =~= Seq::empty());
                none
            },
        },
    }
}

fn row(s: &Store, l: &LogbookEntry) -> (r: Vec<Line>)
    ensures
        r.deep_view() == entry_row(s@, l@),
{
    let color = match &l.state {
        Some(st) => theme::state_color(st.as_str()),
        None => theme::Color::White,
    };
    let mut pieces: Vec<Piece> = Vec::new();
    pieces.push(Piece::Clock { at: l.when, width: 0 });
    assert(pieces.deep_view() =~= seq![PieceModel::Clock { at: l.when@, width: 0 }]);
    let when = Line::new().with(Span { pieces, style: theme::dim() });
    assert(when@ =~= seq![SpanModel { pieces: pieces.deep_view(), style: theme::in_color(theme::DIM) }]);
    let mut cells: Vec<Line> = Vec::new();
    cells.push(when);
    cells.push(Line::of(name_of(s, l).as_str(), theme::raw()));
    cells.push(Line::of(l.describe().as_str(), theme::fg(color)));
    assert(cells.deep_view() =~= entry_row(s@, l@));
    cells
}

/// What is said of a logbook that could not be loaded.
pub open spec fn trouble(m: AppModel) -> Option<SpanModel> {
    match m.logbook.error {
        Some(e) => Some(theme::styled("Could not load logbook: "@ + e, theme::in_color(theme::ERROR))),
        None => None,
    }
}

/// The rows of the logbook, one for each entry.
pub open spec fn entry_rows(m: AppModel) -> Seq<Seq<LineModel>> {
    m.logbook.entries.map_values(|l: LogModel| entry_row(m.store, l))
}

/// Lay out the logbook.
pub fn screen(app: &App) -> (r: LogbookScreen)
    ensures
        r.error.deep_view() == trouble(app@),
        r.rows.deep_view() == entry_rows(app@),
        r.title@ == logbook_title(app@),
        r.error.deep_view() == (match app@.logbook.error {
            Some(e) => Some(theme::styled("Could not load logbook: "@ + e, theme::in_color(theme::ERROR))),
            None => None,
        }),
        r.rows.deep_view() == app@.logbook.entries.map_values(|l: LogModel| entry_row(app@.store, l)),
{
    let lb = &app.logbook;
    let scope = match &lb.entity {
        Some(id) => match app.store.get(id.as_str()) {
            Some(e) => e.friendly_name().to_owned(),
            None => id.clone(),
        },
        None => "all entities".to_owned(),
    };
    let n: usize = lb.entries.len();
    let status = if lb.loading { " · loading…" } else { "" };
    let count = text::decimal_text(n as u64);
    let head = text::cat5(" Logbook · ", scope.as_str(), " · last 24h (", count.as_str(), ")");
    let title = text::cat3(head.as_str(), status, " ");
    let error = match &lb.error {
        Some(e) => Some(Span::styled(text::cat2("Could not load logbook: ", e.as_str()), theme::fg(theme::ERROR))),
        None => None,
    };
    let ghost all = lb.entries.deep_view();
    let ghost f = |l: LogModel| entry_row(app@.store, l);
    let mut rows: Vec<Vec<Line>> = Vec::new();
    for i in 0..n
        invariant
            n == lb.entries@.len(),
            all == lb.entries.deep_view(),
            f == (|l: LogModel| entry_row(app@.store, l)),
            rows.deep_view() == all.take(i as int).map_values(f),
    {
        let ghost sofar = rows.deep_view();
        let cells = row(&app.store, &lb.entries[i]);
        rows.push(cells);
        assert(all[i as int] == lb.entries@[i as int]@);
        assert(rows.deep_view() =~= sofar.push(cells.deep_view()));
        assert(all.take(i + 1).map_values(f) =~= all.take(i as int).map_values(f).push(cells.deep_view()));
    }
    assert(all.take(n as int) =~= all);
    LogbookScreen { title, error, rows }
}

} // verus!
