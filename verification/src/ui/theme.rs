//! Colors and value formatting shared by all views.

use crate::ha::types::{EntityModel, EntityState};
use crate::json::{Number, NumberModel};
use crate::text;
use crate::text::{decimal_text, same};
use crate::time::{TimeModel, Timestamp};
use vstd::prelude::*;

verus! {

#[derive(Debug, Clone, Copy, PartialEq, Eq, Structural)]
pub enum Color {
    Blue,
    Cyan,
    DarkGray,
    Gray,
    Green,
    LightGreen,
    LightMagenta,
    LightRed,
    LightYellow,
    Magenta,
    Red,
    White,
    Yellow,
}

pub const ACCENT: Color = Color::Cyan;

pub const DIM: Color = Color::DarkGray;

pub const ERROR: Color = Color::LightRed;

pub const OK: Color = Color::Green;

pub const WARN: Color = Color::Yellow;

/// How a text is shown.
#[derive(Debug, Clone, Copy, PartialEq, Eq, Structural)]
pub struct Style {
    pub fg: Option<Color>,
    pub bold: bool,
}

/// A text as any other.
pub open spec fn raw_style() -> Style {
    Style { fg: None, bold: false }
}

/// A text in a color.
pub open spec fn in_color(c: Color) -> Style {
    Style { fg: Some(c), bold: false }
}

/// A bold text in a color.
pub open spec fn bold_in(c: Color) -> Style {
    Style { fg: Some(c), bold: true }
}

pub fn raw() -> (r: Style)
    ensures
        r == raw_style(),
{
    Style { fg: None, bold: false }
}

pub fn bold() -> (r: Style)
    ensures
        r == (Style { fg: None, bold: true }),
{
    Style { fg: None, bold: true }
}

pub fn fg(c: Color) -> (r: Style)
    ensures
        r == in_color(c),
{
    Style { fg: Some(c), bold: false }
}

pub fn bold_fg(c: Color) -> (r: Style)
    ensures
        r == bold_in(c),
{
    Style { fg: Some(c), bold: true }
}

pub fn title() -> (r: Style)
    ensures
        r == bold_in(ACCENT),
{
    bold_fg(ACCENT)
}

pub fn dim() -> (r: Style)
    ensures
        r == in_color(DIM),
{
    fg(DIM)
}

/// A piece of a shown text.
#[derive(Debug, PartialEq)]
pub enum Piece {
    Text(String),
    /// A number, rounded to a whole one.
    Rounded(Number),
    /// A brightness out of 255, as a whole percentage.
    Brightness(Number),
    /// A number with one decimal, or none where it is whole.
    Trimmed(Number),
    /// A reading of a sensor by its rank, with one decimal, or none where it is whole.
    Reading(i64),
    /// Local clock time, with the weekday if it isn't today, behind the blanks it needs to be `width`
    /// wide.
    Clock { at: Timestamp, width: usize },
}

/// What a [`Piece`] stands for.
pub enum PieceModel {
    Text(Seq<char>),
    Rounded(NumberModel),
    Brightness(NumberModel),
    Trimmed(NumberModel),
    Reading(i64),
    Clock { at: TimeModel, width: usize },
}

/// A text in one style.
#[derive(Debug, PartialEq)]
pub struct Span {
    pub pieces: Vec<Piece>,
    pub style: Style,
}

/// What a [`Span`] stands for.
#[verifier::ext_equal]
pub struct SpanModel {
    pub pieces: Seq<PieceModel>,
    pub style: Style,
}

/// A line of text.
#[derive(Debug, PartialEq)]
pub struct Line {
    pub spans: Vec<Span>,
}

/// What a [`Line`] stands for.
pub type LineModel = Seq<SpanModel>;

impl View for Piece {
    type V = PieceModel;

    open spec fn view(&self) -> PieceModel {
        match self {
            Piece::Text(s) => PieceModel::Text(s@),
            Piece::Rounded(n) => PieceModel::Rounded(n@),
            Piece::Brightness(n) => PieceModel::Brightness(n@),
            Piece::Trimmed(n) => PieceModel::Trimmed(n@),
            Piece::Reading(v) => PieceModel::Reading(*v),
            Piece::Clock { at, width } => PieceModel::Clock { at: at@, width: *width },
        }
    }
}

impl DeepView for Piece {
    type V = PieceModel;

    open spec fn deep_view(&self) -> PieceModel {
        self@
    }
}

impl View for Span {
    type V = SpanModel;

    open spec fn view(&self) -> SpanModel {
        SpanModel { pieces: self.pieces.deep_view(), style: self.style }
    }
}

impl DeepView for Span {
    type V = SpanModel;

    open spec fn deep_view(&self) -> SpanModel {
        self@
    }
}

impl View for Line {
    type V = LineModel;

    open spec fn view(&self) -> LineModel {
        self.spans.deep_view()
    }
}

impl DeepView for Line {
    type V = LineModel;

    open spec fn deep_view(&self) -> LineModel {
        self@
    }
}

/// A plain text in one style.
pub open spec fn styled(s: Seq<char>, style: Style) -> SpanModel {
    SpanModel { pieces: seq![PieceModel::Text(s)], style }
}

impl Span {
    /// A plain text in one style.
    pub fn styled(s: String, style: Style) -> (r: Span)
        ensures
            r@ == styled(s@, style),
    {
        let mut pieces: Vec<Piece> = Vec::new();
        pieces.push(Piece::Text(s));
        let r = Span { pieces, style };
        assert(r@ =~= styled(s@, style));
        r
    }

    /// A plain text in one style.
    pub fn of(s: &str, style: Style) -> (r: Span)
        ensures
            r@ == styled(s@, style),
    {
        Span::styled(s.to_owned(), style)
    }
}

impl Line {
    pub fn new() -> (r: Line)
        ensures
            r@ == Seq::<SpanModel>::empty(),
    {
        let r = Line { spans: Vec::new() };
        assert(r@ =~= Seq::empty());
        r
    }

    /// With one more text.
    pub fn with(self, span: Span) -> (r: Line)
        ensures
            r@ == self@.push(span@),
    {
        let mut spans = self.spans;
        let ghost before = spans.deep_view();
        spans.push(span);
        assert(spans.deep_view() =~= before.push(span@));
        Line { spans }
    }

    /// A line of one plain text.
    pub fn of(s: &str, style: Style) -> (r: Line)
        ensures
            r@ == seq![styled(s@, style)],
    {
        let r = Line::new().with(Span::of(s, style));
        assert(r@ =~= seq![styled(s@, style)]);
        r
    }
}

/// The color of a state.
pub open spec fn color_of(s: Seq<char>) -> Color {
    if s == "on"@ || s == "open"@ || s == "opening"@ || s == "playing"@ || s == "home"@ || s == "cleaning"@ || s == "heat"@ || s == "cool"@ || s == "heat_cool"@ || s == "auto"@ || s == "dry"@ || s == "fan_only"@ || s == "active"@ || s == "above_horizon"@ {
        Color::Yellow
    } else if s == "locked"@ {
        Color::Green
    } else if s == "unlocked"@ || s == "jammed"@ || s == "problem"@ || s == "triggered"@ {
        ERROR
    } else if s == "off"@ || s == "closed"@ || s == "closing"@ || s == "idle"@ || s == "paused"@ || s == "standby"@ || s == "not_home"@ || s == "docked"@ || s == "below_horizon"@ {
        Color::Gray
    } else if s == "unavailable"@ || s == "unknown"@ {
        Color::Red
    } else {
        Color::White
    }
}

pub fn state_color(s: &str) -> (r: Color)
    ensures
        r == color_of(s@),
{
    if same(s, "on") || same(s, "open") || same(s, "opening") || same(s, "playing") || same(s, "home") || same(s, "cleaning")
        || same(s, "heat") || same(s, "cool") || same(s, "heat_cool") || same(s, "auto") || same(s, "dry")
        || same(s, "fan_only") || same(s, "active") || same(s, "above_horizon") {
        Color::Yellow
    } else if same(s, "locked") {
        Color::Green
    } else if same(s, "unlocked") || same(s, "jammed") || same(s, "problem") || same(s, "triggered") {
        ERROR
    } else if same(s, "off") || same(s, "closed") || same(s, "closing") || same(s, "idle") || same(s, "paused")
        || same(s, "standby") || same(s, "not_home") || same(s, "docked") || same(s, "below_horizon") {
        Color::Gray
    } else if same(s, "unavailable") || same(s, "unknown") {
        Color::Red
    } else {
        Color::White
    }
}

/// A number that stands for some bytes.
pub open spec fn hash(bytes: Seq<u8>) -> usize
    decreases bytes.len(),
{
    if bytes.len() == 0 {
        0
    } else {
        hash(bytes.drop_last()).wrapping_mul(31).wrapping_add(bytes.last() as usize)
    }
}

/// One of the colors for states that have none of their own.
pub open spec fn spare_color(n: usize) -> Color {
    if n == 0 {
        Color::Cyan
    } else if n == 1 {
        Color::Magenta
    } else if n == 2 {
        Color::Blue
    } else if n == 3 {
        Color::LightGreen
    } else if n == 4 {
        Color::LightYellow
    } else {
        Color::LightMagenta
    }
}

/// The color of a state on history timelines.
pub open spec fn timeline_color_of(s: Seq<char>) -> Color {
    match color_of(s) {
        Color::White => spare_color(hash(vstd::utf8::encode_utf8(s)) % 6),
        Color::Gray => Color::DarkGray,
        c => c,
    }
}

/// Stable color for arbitrary (non-standard) states on history timelines.
pub fn timeline_color(state: &str) -> (r: Color)
    ensures
        r == timeline_color_of(state@),
{
    match state_color(state) {
        Color::White => {
            let bytes = state.as_bytes();
            let n: usize = bytes.len();
            let mut h: usize = 0;
            for i in 0..n
                invariant
                    n == bytes@.len(),
                    h == hash(bytes@.take(i as int)),
            {
                assert(bytes@.take(i + 1).drop_last() =~= bytes@.take(i as int));
                assert(bytes@.take(i + 1).last() == bytes@[i as int]);
                h = h.wrapping_mul(31).wrapping_add(bytes[i] as usize);
            }
            assert(bytes@.take(n as int) =~= bytes@);
            let k: usize = h % 6;
            if k == 0 {
                Color::Cyan
            } else if k == 1 {
                Color::Magenta
            } else if k == 2 {
                Color::Blue
            } else if k == 3 {
                Color::LightGreen
            } else if k == 4 {
                Color::LightYellow
            } else {
                Color::LightMagenta
            }
        },
        Color::Gray => Color::DarkGray,
        c => c,
    }
}

/// How long ago something was, in the largest unit that fits.
pub open spec fn age(secs: int) -> Seq<char> {
    let s = (if secs < 0 { 0 } else { secs }) as nat;
    if s < 60 {
        text::decimal(s) + "s"@
    } else if s < 3600 {
        text::decimal(s / 60) + "m"@
    } else if s < 86400 {
        text::decimal(s / 3600) + "h"@
    } else {
        text::decimal(s / 86400) + "d"@
    }
}

/// How long ago `t` was at `now`.
pub open spec fn age_of(t: TimeModel, now: TimeModel) -> Seq<char> {
    age(crate::time::seconds_from(t, now))
}

/// "5s", "3m", "2h", "4d".
pub fn ago(t: &Timestamp, now: &Timestamp) -> (r: String)
    ensures
        r@ == age_of(t@, now@),
{
    let secs: i64 = now.seconds_since(t);
    let s: u64 = if secs < 0 { 0 } else { secs as u64 };
    if s < 60 {
        text::cat2(decimal_text(s).as_str(), "s")
    } else if s < 3600 {
        text::cat2(decimal_text(s / 60).as_str(), "m")
    } else if s < 86400 {
        text::cat2(decimal_text(s / 3600).as_str(), "h")
    } else {
        text::cat2(decimal_text(s / 86400).as_str(), "d")
    }
}

/// A plain text as pieces.
pub open spec fn words(s: Seq<char>) -> Seq<PieceModel> {
    seq![PieceModel::Text(s)]
}

/// A temperature in brackets or behind an arrow, where there is one.
pub open spec fn reading(lead: Seq<char>, n: Option<NumberModel>, tail: Seq<char>) -> Seq<PieceModel> {
    match n {
        Some(n) => seq![PieceModel::Text(lead), PieceModel::Trimmed(n), PieceModel::Text(tail)],
        None => Seq::empty(),
    }
}

/// Human summary of an entity's state, with the most useful attribute folded in.
pub open spec fn summary(e: EntityModel, now: TimeModel) -> Seq<PieceModel> {
    let s = e.state;
    let d = crate::ha::types::domain(e.entity_id);
    if s == "unavailable"@ || s == "unknown"@ {
        words(s)
    } else if d == "light"@ && s == "on"@ {
        match e.attr_number("brightness"@) {
            Some(b) => seq![PieceModel::Text("on "@), PieceModel::Brightness(b), PieceModel::Text("%"@)],
            None => words("on"@),
        }
    } else if d == "fan"@ && s == "on"@ {
        match e.attr_number("percentage"@) {
            Some(p) => seq![PieceModel::Text("on "@), PieceModel::Rounded(p), PieceModel::Text("%"@)],
            None => words("on"@),
        }
    } else if d == "cover"@ {
        match e.attr_number("current_position"@) {
            Some(p) => if s == "open"@ {
                seq![PieceModel::Text("open "@), PieceModel::Rounded(p), PieceModel::Text("%"@)]
            } else {
                words(s)
            },
            None => words(s),
        }
    } else if d == "climate"@ {
        let unit = match e.attr_str("unit_of_measurement"@) {
            Some(u) => u,
            None => "°"@,
        };
        words(s) + reading(" → "@, e.attr_number("temperature"@), unit) + reading(
            " ("@,
            e.attr_number("current_temperature"@),
            unit + ")"@,
        )
    } else if d == "media_player"@ && (s == "playing"@ || s == "paused"@) {
        match e.attr_str("media_title"@) {
            Some(t) => words(s + " · "@ + t),
            None => words(s),
        }
    } else if d == "scene"@ || d == "button"@ || d == "input_button"@ {
        match crate::time::rfc3339_point(s) {
            Some(t) => words(age_of(t, now) + " ago"@),
            None => words(s),
        }
    } else if d == "sensor"@ && e.attr_str("device_class"@) == Some("timestamp"@) {
        match crate::time::rfc3339_point(s) {
            Some(t) => seq![PieceModel::Clock { at: t, width: 0 }],
            None => words(s),
        }
    } else {
        match e.attr_str("unit_of_measurement"@) {
            Some(u) => words(s + " "@ + u),
            None => words(s),
        }
    }
}

fn plain(s: String) -> (r: Vec<Piece>)
    ensures
        r.deep_view() == words(s@),
{
    let mut v: Vec<Piece> = Vec::new();
    v.push(Piece::Text(s));
    assert(v.deep_view() =~= words(s@));
    v
}

fn three(a: &str, b: Piece, c: &str) -> (r: Vec<Piece>)
    ensures
        r.deep_view() == seq![PieceModel::Text(a@), b@, PieceModel::Text(c@)],
{
    let mut v: Vec<Piece> = Vec::new();
    v.push(Piece::Text(a.to_owned()));
    v.push(b);
    v.push(Piece::Text(c.to_owned()));
    assert(v.deep_view() =~= seq![PieceModel::Text(a@), b@, PieceModel::Text(c@)]);
    v
}

/// Put a reading behind `out`, where there is one.
fn push_reading(out: &mut Vec<Piece>, lead: &str, n: Option<&Number>, tail: &str)
    ensures
        final(out).deep_view() == old(out).deep_view() + reading(lead@, n.deep_view(), tail@),
{
    let ghost before = out.deep_view();
    if let Some(n) = n {
        let mut v = three(lead, Piece::Trimmed(n.clone()), tail);
        out.append(&mut v);
    }
    assert(out.deep_view() =~= before + reading(lead@, n.deep_view(), tail@));
}

/// Human summary of an entity's state, with the most useful attribute folded in.
pub fn format_state(e: &EntityState, now: &Timestamp) -> (r: Vec<Piece>)
    ensures
        r.deep_view() == summary(e@, now@),
{
    let s = e.state.as_str();
    if e.is_unavailable() {
        return plain(s.to_owned());
    }
    let d = e.domain();
    if same(d, "light") && same(s, "on") {
        match e.attr_f64("brightness") {
            Some(b) => three("on ", Piece::Brightness(b.clone()), "%"),
            None => plain("on".to_owned()),
        }
    } else if same(d, "fan") && same(s, "on") {
        match e.attr_f64("percentage") {
            Some(p) => three("on ", Piece::Rounded(p.clone()), "%"),
            None => plain("on".to_owned()),
        }
    } else if same(d, "cover") {
        match e.attr_f64("current_position") {
            Some(p) => if same(s, "open") {
                three("open ", Piece::Rounded(p.clone()), "%")
            } else {
                plain(s.to_owned())
            },
            None => plain(s.to_owned()),
        }
    } else if same(d, "climate") {
        let unit = match e.unit() {
            Some(u) => u,
            None => "°",
        };
        let mut out = plain(s.to_owned());
        push_reading(&mut out, " → ", e.attr_f64("temperature"), unit);
        let tail = text::cat2(unit, ")");
        push_reading(&mut out, " (", e.attr_f64("current_temperature"), tail.as_str());
        out
    } else if same(d, "media_player") && (same(s, "playing") || same(s, "paused")) {
        match e.attr_str("media_title") {
            Some(t) => plain(text::cat3(s, " · ", t)),
            None => plain(s.to_owned()),
        }
    } else if same(d, "scene") || same(d, "button") || same(d, "input_button") {
        match Timestamp::parse(s) {
            Some(t) => plain(text::cat2(ago(&t, now).as_str(), " ago")),
            None => plain(s.to_owned()),
        }
    } else if same(d, "sensor") && is_timestamp(e) {
        match Timestamp::parse(s) {
            Some(t) => {
                let mut v: Vec<Piece> = Vec::new();
                v.push(Piece::Clock { at: t, width: 0 });
                assert(v.deep_view() =~= seq![PieceModel::Clock { at: t@, width: 0 }]);
                v
            },
            None => plain(s.to_owned()),
        }
    } else {
        match e.unit() {
            Some(u) => plain(text::cat3(s, " ", u)),
            None => plain(s.to_owned()),
        }
    }
}

fn is_timestamp(e: &EntityState) -> (r: bool)
    ensures
        r == (e@.attr_str("device_class"@) == Some("timestamp"@)),
{
    match e.attr_str("device_class") {
        Some(c) => same(c, "timestamp"),
        None => false,
    }
}

/// When an automation was last triggered.
pub open spec fn last_trigger(e: EntityModel, now: TimeModel) -> Seq<char> {
    match e.attr_str("last_triggered"@) {
        Some(s) => match crate::time::rfc3339_point(s) {
            Some(t) => age_of(t, now) + " ago"@,
            None => "never"@,
        },
        None => "never"@,
    }
}

pub fn last_triggered(e: &EntityState, now: &Timestamp) -> (r: String)
    ensures
        r@ == last_trigger(e@, now@),
{
    match e.attr_str("last_triggered") {
        Some(s) => match Timestamp::parse(s) {
            Some(t) => text::cat2(ago(&t, now).as_str(), " ago"),
            None => "never".to_owned(),
        },
        None => "never".to_owned(),
    }
}

} // verus!
