//! What is shown: the texts, colors and places of everything on the screen.

pub mod entities;
pub mod history;
pub mod logbook;
pub mod popups;
pub mod shown;
pub mod theme;

use crate::app::{App, AppModel, Clock, ClockModel, Mode, ModeModel, Tab};
use crate::ha::client::{ConnStatus, StatusModel};
use crate::text;
use theme::{Line, LineModel, Span, SpanModel};
use vstd::prelude::*;

verus! {

/// A rectangle of cells.
#[derive(Debug, Clone, Copy, PartialEq, Eq, Structural)]
pub struct Rect {
    pub x: u16,
    pub y: u16,
    pub width: u16,
    pub height: u16,
}

impl Rect {
    /// Whether its cells can be numbered.
    pub open spec fn on_screen(self) -> bool {
        self.x + self.width <= u16::MAX && self.y + self.height <= u16::MAX
    }

    /// Whether all of it is within another.
    pub open spec fn inside(self, outer: Rect) -> bool {
        &&& outer.x <= self.x && self.x + self.width <= outer.x + outer.width
        &&& outer.y <= self.y && self.y + self.height <= outer.y + outer.height
    }
}

/// The part of `total` that `pct` percent of it is, but at least `min`, and no more than all of it.
pub open spec fn portion(total: int, pct: int, min: int) -> int {
    let share = total * pct / 100;
    let wanted = if share < min { min } else { share };
    if wanted > total {
        total
    } else {
        wanted
    }
}

/// A rectangle in the middle of another.
pub open spec fn middle(area: Rect, pct_w: u16, pct_h: u16, min_w: u16, min_h: u16) -> Rect {
    let w = portion(area.width as int, pct_w as int, min_w as int);
    let h = portion(area.height as int, pct_h as int, min_h as int);
    Rect {
        x: (area.x + (area.width - w) / 2) as u16,
        y: (area.y + (area.height - h) / 2) as u16,
        width: w as u16,
        height: h as u16,
    }
}

fn portion_of(total: u16, pct: u16, min: u16) -> (r: u16)
    ensures
        r == portion(total as int, pct as int, min as int),
        r <= total,
{
    proof {
        assert(0 <= total * pct <= u16::MAX * u16::MAX) by (nonlinear_arith)
            requires
                0 <= total <= u16::MAX,
                0 <= pct <= u16::MAX,
        ;
    }
    let share: u32 = total as u32 * pct as u32 / 100;
    let wanted: u32 = if share < min as u32 { min as u32 } else { share };
    if wanted > total as u32 {
        total
    } else {
        wanted as u16
    }
}

/// A centered rectangle of the given percentage of `area`, at least `min` cells.
pub fn centered(area: Rect, pct_w: u16, pct_h: u16, min_w: u16, min_h: u16) -> (r: Rect)
    requires
        area.on_screen(),
    ensures
        r == middle(area, pct_w, pct_h, min_w, min_h),
        r.inside(area),
{
    let w: u16 = portion_of(area.width, pct_w, min_w);
    let h: u16 = portion_of(area.height, pct_h, min_h);
    Rect { x: area.x + (area.width - w) / 2, y: area.y + (area.height - h) / 2, width: w, height: h }
}

/// The titles of the tabs, with the keys that show them.
pub open spec fn tab_titles_of() -> Seq<Seq<char>> {
    seq![
        "1 "@ + Tab::Entities.titled(),
        "2 "@ + Tab::Scenes.titled(),
        "3 "@ + Tab::Automations.titled(),
        "4 "@ + Tab::Logbook.titled(),
    ]
}

pub fn tab_titles() -> (r: Vec<String>)
    ensures
        r.deep_view() == tab_titles_of(),
{
    let mut v: Vec<String> = Vec::new();
    v.push(text::cat2("1 ", Tab::Entities.title()));
    v.push(text::cat2("2 ", Tab::Scenes.title()));
    v.push(text::cat2("3 ", Tab::Automations.title()));
    v.push(text::cat2("4 ", Tab::Logbook.title()));
    assert(v.deep_view() =~= tab_titles_of());
    v
}

/// Where a tab stands among the tabs.
pub open spec fn place_of(tab: Tab) -> int {
    match tab {
        Tab::Entities => 0,
        Tab::Scenes => 1,
        Tab::Automations => 2,
        Tab::Logbook => 3,
    }
}

/// Where a tab stands among the tabs.
pub fn tab_index(tab: Tab) -> (r: usize)
    ensures
        r == (match tab {
            Tab::Entities => 0,
            Tab::Scenes => 1,
            Tab::Automations => 2,
            Tab::Logbook => 3int,
        }),
        r == place_of(tab),
{
    match tab {
        Tab::Entities => 0,
        Tab::Scenes => 1,
        Tab::Automations => 2,
        Tab::Logbook => 3,
    }
}

/// How many entities there are, for the top right corner.
pub open spec fn entity_count(m: AppModel) -> Seq<char> {
    " "@ + text::decimal(m.store.entities.len()) + " entities "@
}

/// The text in the top right corner, and how wide it is. It yields to the tab titles on narrow
/// terminals.
pub fn branding(app: &App, width: u16) -> (r: (Line, usize))
    ensures
        r.0@ == seq![
            theme::styled(entity_count(app@), theme::in_color(theme::DIM)),
            theme::styled("homeassistant-tui "@, theme::bold_in(theme::ACCENT)),
        ],
        r.1 == if width >= 100 { entity_count(app@).len() + 10 } else { 0 },
{
    let n: usize = app.store.entities.len();
    let count = text::decimal_text(n as u64);
    let right = text::cat3(" ", count.as_str(), " entities ");
    proof {
        assert(n < text::tens(20)) by {
            reveal_with_fuel(text::tens, 21);
        }
        text::lemma_decimal_len(n as nat, 20);
        reveal_strlit(" ");
        reveal_strlit(" entities ");
    }
    let w: usize = if width >= 100 { right.as_str().unicode_len() + 10 } else { 0 };
    let line = Line::new().with(Span::styled(right, theme::dim())).with(
        Span::of("homeassistant-tui ", theme::title()),
    );
    assert(line@ =~= seq![
        theme::styled(entity_count(app@), theme::in_color(theme::DIM)),
        theme::styled("homeassistant-tui "@, theme::bold_in(theme::ACCENT)),
    ]);
    (line, w)
}

/// The seconds left of `total` milliseconds that began at `since`.
pub open spec fn countdown(total: u64, since: u64, now: u64) -> int {
    let left = total - crate::app::state::elapsed(since, now);
    if left > 0 {
        left / 1000
    } else {
        0
    }
}

fn seconds_left(total: u64, since: u64, now: u64) -> (r: u64)
    ensures
        r == countdown(total, since, now),
{
    let gone: u64 = crate::app::elapsed(since, now);
    if gone < total {
        (total - gone) / 1000
    } else {
        0
    }
}

/// What is shown until the first states are loaded.
pub open spec fn splash_text(m: AppModel, now: ClockModel) -> Seq<LineModel> {
    match m.status {
        StatusModel::AuthFailed(why) => seq![
            seq![theme::styled("Authentication failed"@, theme::bold_in(theme::ERROR))],
            seq![theme::styled(why, theme::raw_style())],
            seq![theme::styled(""@, theme::raw_style())],
            seq![
                theme::styled(
                    "Check your long-lived access token (HA → Profile → Security)."@,
                    theme::in_color(theme::DIM),
                ),
            ],
        ],
        StatusModel::Disconnected { error, retry_in } => seq![
            seq![theme::styled("Cannot reach Home Assistant"@, theme::bold_in(theme::ERROR))],
            seq![theme::styled(error, theme::raw_style())],
            seq![
                theme::styled(
                    "retrying in "@ + text::decimal(countdown(retry_in, m.status_since, now.ms) as nat) + "s… (r to retry now)"@,
                    theme::in_color(theme::DIM),
                ),
            ],
        ],
        _ => seq![seq![theme::styled("Connecting to Home Assistant…"@, theme::in_color(theme::ACCENT))]],
    }
}

pub fn splash(app: &App, now: &Clock) -> (r: Vec<Line>)
    ensures
        r.deep_view() == splash_text(app@, now@),
{
    let mut v: Vec<Line> = Vec::new();
    match &app.status {
        ConnStatus::AuthFailed(why) => {
            v.push(Line::of("Authentication failed", theme::bold_fg(theme::ERROR)));
            v.push(Line::of(why.as_str(), theme::raw()));
            v.push(Line::of("", theme::raw()));
            v.push(Line::of("Check your long-lived access token (HA → Profile → Security).", theme::dim()));
        },
        ConnStatus::Disconnected { error, retry_in } => {
            v.push(Line::of("Cannot reach Home Assistant", theme::bold_fg(theme::ERROR)));
            v.push(Line::of(error.as_str(), theme::raw()));
            let left = text::decimal_text(seconds_left(*retry_in, app.status_since, now.ms));
            let retry = text::cat3("retrying in ", left.as_str(), "s… (r to retry now)");
            v.push(Line::of(retry.as_str(), theme::dim()));
        },
        _ => {
            v.push(Line::of("Connecting to Home Assistant…", theme::fg(theme::ACCENT)));
        },
    }
    assert(v.deep_view() =~= splash_text(app@, now@));
    v
}

/// The state of the connection, for the status line.
pub open spec fn connection(m: AppModel, now: ClockModel) -> SpanModel {
    match m.status {
        StatusModel::Connecting => theme::styled(" ● connecting "@, theme::in_color(theme::WARN)),
        StatusModel::Connected { version } => theme::styled(" ● HA "@ + version + " "@, theme::in_color(theme::OK)),
        StatusModel::Disconnected { retry_in, .. } => theme::styled(
            " ● offline, retry in "@ + text::decimal(countdown(retry_in, m.status_since, now.ms) as nat) + "s "@,
            theme::in_color(theme::ERROR),
        ),
        StatusModel::AuthFailed(_) => theme::styled(" ● auth failed "@, theme::in_color(theme::ERROR)),
    }
}

/// The left part of the status line: the connection, and the filter if there is one.
pub open spec fn status_left_text(m: AppModel, now: ClockModel) -> LineModel {
    if m.mode is Filter || m.filter.len() > 0 {
        seq![
            connection(m, now),
            theme::styled(
                " /"@ + m.filter + (if m.mode is Filter { "▏"@ } else { ""@ }) + " "@,
                theme::bold_in(theme::ACCENT),
            ),
        ]
    } else {
        seq![connection(m, now)]
    }
}

pub fn status_left(app: &App, now: &Clock) -> (r: Line)
    ensures
        r@ == status_left_text(app@, now@),
{
    let conn = match &app.status {
        ConnStatus::Connecting => Span::of(" ● connecting ", theme::fg(theme::WARN)),
        ConnStatus::Connected { version } => Span::styled(
            text::cat3(" ● HA ", version.as_str(), " "),
            theme::fg(theme::OK),
        ),
        ConnStatus::Disconnected { retry_in, .. } => {
            let left = text::decimal_text(seconds_left(*retry_in, app.status_since, now.ms));
            Span::styled(text::cat3(" ● offline, retry in ", left.as_str(), "s "), theme::fg(theme::ERROR))
        },
        ConnStatus::AuthFailed(_) => Span::of(" ● auth failed ", theme::fg(theme::ERROR)),
    };
    let typing = match app.mode {
        Mode::Filter => true,
        _ => false,
    };
    let mut line = Line::new().with(conn);
    if typing || !app.filter.as_str().is_empty() {
        let cursor = if typing { "▏" } else { "" };
        let head = text::cat3(" /", app.filter.as_str(), cursor);
        line = line.with(Span::styled(text::cat2(head.as_str(), " "), theme::title()));
    }
    assert(line@ =~= status_left_text(app@, now@));
    line
}

/// The keys that are of use now.
pub open spec fn hint_text(m: AppModel) -> Seq<char> {
    (if m.mode is Filter {
        "type to filter · ↑↓ move · Enter keep · Esc clear"@
    } else {
        match m.tab {
            Tab::Logbook => "j/k scroll · f filter to entity · r refresh · ? help · q quit"@,
            Tab::Entities => "Enter toggle · +/- adjust · H history · / filter · : palette · g group · ? help"@,
            Tab::Scenes => "Enter run · s stop script · H history · / filter · ? help"@,
            Tab::Automations => "Enter enable/disable · x trigger · H history · / filter · ? help"@,
        }
    }) + " "@
}

pub fn hints(app: &App) -> (r: String)
    ensures
        r@ == hint_text(app@),
{
    let typing = match app.mode {
        Mode::Filter => true,
        _ => false,
    };
    let s = if typing {
        "type to filter · ↑↓ move · Enter keep · Esc clear"
    } else {
        match app.tab {
            Tab::Logbook => "j/k scroll · f filter to entity · r refresh · ? help · q quit",
            Tab::Entities => "Enter toggle · +/- adjust · H history · / filter · : palette · g group · ? help",
            Tab::Scenes => "Enter run · s stop script · H history · / filter · ? help",
            Tab::Automations => "Enter enable/disable · x trigger · H history · / filter · ? help",
        }
    };
    text::cat2(s, " ")
}

/// The right part of the status line: the toast, or else the hints.
pub open spec fn status_right_text(m: AppModel) -> SpanModel {
    match m.toast {
        Some(t) => theme::styled(
            " "@ + t.text + " "@,
            theme::in_color(if t.error { theme::ERROR } else { theme::OK }),
        ),
        None => theme::styled(hint_text(m), theme::in_color(theme::DIM)),
    }
}

pub fn status_right(app: &App) -> (r: Span)
    ensures
        r@ == status_right_text(app@),
{
    match &app.toast {
        Some(t) => Span::styled(
            text::cat3(" ", t.text.as_str(), " "),
            theme::fg(if t.error { theme::ERROR } else { theme::OK }),
        ),
        None => Span::styled(hints(app), theme::dim()),
    }
}

/// What the right part of the status line is cut down to: long hints would be clipped on the left, so
/// they fall back to the essentials. A toast stays.
pub fn fit_status(app: &App, right: Span, width: usize, room: usize) -> (r: Span)
    ensures
        r@ == if app@.toast is None && width > room {
            theme::styled("? help · q quit "@, theme::in_color(theme::DIM))
        } else {
            right@
        },
{
    if app.toast.is_none() && width > room {
        Span::of("? help · q quit ", theme::dim())
    } else {
        right
    }
}

} // verus!
