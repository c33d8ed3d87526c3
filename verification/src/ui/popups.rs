//! Overlays: command palette, help, confirmation.

use super::theme;
use super::theme::{Line, LineModel, Span};
use super::Rect;
use crate::app::{ItemModel, PaletteItem};
use crate::text;
use vstd::prelude::*;

verus! {

/// Where the palette is on a screen.
pub open spec fn palette_place(full: Rect) -> Rect {
    let least = if full.width < 40 { full.width as int } else { 40 };
    let share = full.width * 60 / 100;
    let w = if share < least { least } else if share > 90 { 90 } else { share };
    let tall = full.height * 60 / 100;
    let h = if tall < 8 { 8 } else { tall };
    let room = full.height - full.height / 6;
    Rect {
        x: (full.x + (full.width - w) / 2) as u16,
        y: (full.y + full.height / 6) as u16,
        width: w as u16,
        height: (if h < room { h } else { room }) as u16,
    }
}

pub fn palette_area(full: Rect) -> (r: Rect)
    requires
        full.on_screen(),
    ensures
        r == palette_place(full),
        r.inside(full),
{
    let width: u32 = full.width as u32;
    let height: u32 = full.height as u32;
    let least: u32 = if width < 40 { width } else { 40 };
    let share: u32 = width * 60 / 100;
    let w: u32 = if share < least { least } else if share > 90 { 90 } else { share };
    let tall: u32 = height * 60 / 100;
    let h: u32 = if tall < 8 { 8 } else { tall };
    let room: u32 = height - height / 6;
    Rect {
        x: (full.x as u32 + (width - w) / 2) as u16,
        y: (full.y as u32 + height / 6) as u16,
        width: w as u16,
        height: (if h < room { h } else { room }) as u16,
    }
}

/// The palette's input line: a prompt, what was typed and a cursor.
pub fn palette_input(input: &str) -> (r: Line)
    ensures
        r@ == seq![
            theme::styled("› "@, theme::bold_in(theme::ACCENT)),
            theme::styled(input@, theme::raw_style()),
            theme::styled("▏"@, theme::in_color(theme::ACCENT)),
        ],
{
    let r = Line::new().with(Span::of("› ", theme::bold_fg(theme::ACCENT))).with(Span::of(input, theme::raw())).with(
        Span::of("▏", theme::fg(theme::ACCENT)),
    );
    assert(r@ =~= seq![
        theme::styled("› "@, theme::bold_in(theme::ACCENT)),
        theme::styled(input@, theme::raw_style()),
        theme::styled("▏"@, theme::in_color(theme::ACCENT)),
    ]);
    r
}

/// An item's line in the palette.
pub open spec fn item_line(i: ItemModel) -> LineModel {
    let label = theme::styled(i.label, theme::raw_style());
    if i.hint.len() == 0 {
        seq![label]
    } else {
        seq![label, theme::styled("  "@ + i.hint, theme::in_color(theme::DIM))]
    }
}

/// The palette's lines; there are none where nothing matches.
pub fn palette_lines(items: &Vec<PaletteItem>) -> (r: Vec<Line>)
    ensures
        r.deep_view() == items.deep_view().map_values(|i: ItemModel| item_line(i)),
{
    let ghost all = items.deep_view();
    let ghost f = |i: ItemModel| item_line(i);
    let n: usize = items.len();
    let mut lines: Vec<Line> = Vec::new();
    for k in 0..n
        invariant
            n == items@.len(),
            all == items.deep_view(),
            f == (|i: ItemModel| item_line(i)),
            lines.deep_view() == all.take(k as int).map_values(f),
    {
        let i = &items[k];
        let ghost sofar = lines.deep_view();
        let mut line = Line::of(i.label.as_str(), theme::raw());
        if !i.hint.as_str().is_empty() {
            line = line.with(Span::styled(text::cat2("  ", i.hint.as_str()), theme::dim()));
        }
        assert(line@ =~= item_line(i@));
        lines.push(line);
        assert(all[k as int] == i@);
        assert(lines.deep_view() =~= sofar.push(line@));
        assert(all.take(k + 1).map_values(f) =~= all.take(k as int).map_values(f).push(line@));
    }
    assert(all.take(n as int) =~= all);
    lines
}

/// A section's title in the help.
pub open spec fn help_section(s: Seq<char>) -> LineModel {
    seq![theme::styled(s, theme::bold_in(theme::ACCENT))]
}

/// A key's line in the help.
pub open spec fn help_key(k: Seq<char>, d: Seq<char>) -> LineModel {
    seq![
        theme::styled("  "@ + text::left_in(k, 20), theme::in_color(theme::ACCENT)),
        theme::styled(d, theme::raw_style()),
    ]
}

/// An empty line.
pub open spec fn gap() -> LineModel {
    seq![theme::styled(""@, theme::raw_style())]
}

/// The help.
pub open spec fn help_text() -> Seq<LineModel> {
    seq![
        help_section("Navigation"@),
        help_key("1-4 / Tab"@, "switch tab"@),
        help_key("j k ↑ ↓"@, "move selection"@),
        help_key("h l ← →"@, "focus groups / entities"@),
        help_key("PgUp PgDn Home End"@, "jump"@),
        help_key("g"@, "group by area ↔ domain"@),
        help_key("a"@, "show / hide system & hidden entities"@),
        help_key("/"@, "filter (fuzzy, all entities)"@),
        help_key(": or Ctrl-p"@, "command palette"@),
        help_key("Esc"@, "clear filter / close"@),
        gap(),
        help_section("Control"@),
        help_key("Enter / Space"@, "toggle · run · press"@),
        help_key("+ -"@, "brightness · temperature · volume · position"@),
        help_key("[ ]"@, "color temperature · fan speed"@),
        help_key("m"@, "cycle HVAC mode · option · source"@),
        help_key("o c s"@, "open · close · stop"@),
        help_key("x"@, "trigger automation"@),
        help_key("n p"@, "next · previous track"@),
        help_key("H"@, "history (24h)"@),
        gap(),
        help_section("Other"@),
        help_key("f (Logbook)"@, "only the entity selected in Entities"@),
        help_key("r"@, "resync · refresh logbook"@),
        help_key("?"@, "this help"@),
        help_key("q / Ctrl-c"@, "quit"@),
        gap(),
        seq![theme::styled("Locks and garage doors ask for confirmation first."@, theme::in_color(theme::DIM))],
    ]
}

fn key_line(k: &str, d: &str) -> (r: Line)
    ensures
        r@ == help_key(k@, d@),
{
    let padded = text::pad_right(k, 20);
    let r = Line::new().with(Span::styled(text::cat2("  ", padded.as_str()), theme::fg(theme::ACCENT))).with(
        Span::of(d, theme::raw()),
    );
    assert(r@ =~= help_key(k@, d@));
    r
}

pub fn help_lines() -> (r: Vec<Line>)
    ensures
        r.deep_view() == help_text(),
{
    let mut v: Vec<Line> = Vec::new();
    v.push(Line::of("Navigation", theme::title()));
    v.push(key_line("1-4 / Tab", "switch tab"));
    v.push(key_line("j k ↑ ↓", "move selection"));
    v.push(key_line("h l ← →", "focus groups / entities"));
    v.push(key_line("PgUp PgDn Home End", "jump"));
    v.push(key_line("g", "group by area ↔ domain"));
    v.push(key_line("a", "show / hide system & hidden entities"));
    v.push(key_line("/", "filter (fuzzy, all entities)"));
    v.push(key_line(": or Ctrl-p", "command palette"));
    v.push(key_line("Esc", "clear filter / close"));
    v.push(Line::of("", theme::raw()));
    v.push(Line::of("Control", theme::title()));
    v.push(key_line("Enter / Space", "toggle · run · press"));
    v.push(key_line("+ -", "brightness · temperature · volume · position"));
    v.push(key_line("[ ]", "color temperature · fan speed"));
    v.push(key_line("m", "cycle HVAC mode · option · source"));
    v.push(key_line("o c s", "open · close · stop"));
    v.push(key_line("x", "trigger automation"));
    v.push(key_line("n p", "next · previous track"));
    v.push(key_line("H", "history (24h)"));
    v.push(Line::of("", theme::raw()));
    v.push(Line::of("Other", theme::title()));
    v.push(key_line("f (Logbook)", "only the entity selected in Entities"));
    v.push(key_line("r", "resync · refresh logbook"));
    v.push(key_line("?", "this help"));
    v.push(key_line("q / Ctrl-c", "quit"));
    v.push(Line::of("", theme::raw()));
    v.push(Line::of("Locks and garage doors ask for confirmation first.", theme::dim()));
    assert(v.deep_view() =~= help_text());
    v
}

/// The question whether to go ahead.
pub open spec fn confirm_text(label: Seq<char>) -> Seq<LineModel> {
    seq![
        seq![theme::styled(label, theme::Style { fg: None, bold: true })],
        seq![
            theme::styled("y"@, theme::bold_in(theme::OK)),
            theme::styled(" confirm   "@, theme::raw_style()),
            theme::styled("any other key"@, theme::in_color(theme::DIM)),
            theme::styled(" cancel"@, theme::raw_style()),
        ],
    ]
}

pub fn confirm_lines(label: &str) -> (r: Vec<Line>)
    ensures
        r.deep_view() == confirm_text(label@),
{
    let mut v: Vec<Line> = Vec::new();
    v.push(Line::of(label, theme::bold()));
    let keys = Line::of("y", theme::bold_fg(theme::OK)).with(Span::of(" confirm   ", theme::raw())).with(
        Span::of("any other key", theme::dim()),
    ).with(Span::of(" cancel", theme::raw()));
    assert(keys@ =~= confirm_text(label@)[1]);
    v.push(keys);
    assert(v.deep_view() =~= confirm_text(label@));
    v
}

} // verus!
