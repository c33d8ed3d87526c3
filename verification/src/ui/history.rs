//! History popup: a line chart for numeric sensors, a colored timeline for everything else.

use super::theme;
use super::theme::{Color, Line, LineModel, Piece, PieceModel, Span, SpanModel, Style};
use crate::app::{HistoryModel, HistoryView};
use crate::ha::types::{HistoryPoint, PointModel};
use crate::text;
use crate::text::same;
use crate::time::{TimeModel, Timestamp};
use vstd::prelude::*;

verus! {

/// What a history is titled.
pub open spec fn titled(h: HistoryModel) -> Seq<char> {
    " History · "@ + h.name + " · last 24h "@
}

/// The popup's title.
pub fn history_title(h: &HistoryView) -> (r: String)
    ensures
        r@ == titled(h@),
        r@ == " History · "@ + h@.name + " · last 24h "@,
{
    text::cat3(" History · ", h.name.as_str(), " · last 24h ")
}

/// What is said in place of a history.
pub open spec fn message_for(h: HistoryModel) -> Option<SpanModel> {
    match (h.error, h.points) {
        (Some(err), _) => Some(theme::styled("Could not load history: "@ + err, theme::in_color(theme::ERROR))),
        (None, None) => Some(theme::styled("Loading…"@, theme::in_color(theme::DIM))),
        (None, Some(points)) => if points.len() == 0 {
            Some(theme::styled("No history recorded in the last 24h"@, theme::in_color(theme::DIM)))
        } else {
            None
        },
    }
}

/// What is said in place of a history.
pub fn history_message(h: &HistoryView) -> (r: Option<Span>)
    ensures
        r.deep_view() == message_for(h@),
{
    match (&h.error, &h.points) {
        (Some(err), _) => Some(
            Span::styled(text::cat2("Could not load history: ", err.as_str()), theme::fg(theme::ERROR)),
        ),
        (None, None) => Some(Span::of("Loading…", theme::dim())),
        (None, Some(points)) => if points.len() == 0 {
            Some(Span::of("No history recorded in the last 24h", theme::dim()))
        } else {
            None
        },
    }
}

/// How many of the leading points are not after `t`.
pub open spec fn leading(points: Seq<PointModel>, t: TimeModel) -> int
    decreases points.len(),
{
    if points.len() == 0 || crate::time::sooner(t, points[0].when) {
        0
    } else {
        1 + leading(points.drop_first(), t)
    }
}

fn count_leading(points: &[HistoryPoint], t: &Timestamp) -> (r: usize)
    ensures
        r == leading(points.deep_view(), t@),
        r <= points@.len(),
{
    let ghost all = points.deep_view();
    let n: usize = points.len();
    let mut i: usize = 0;
    assert(all.skip(0) =~= all);
    while i < n && !t.before(&points[i].when)
        invariant
            n == points@.len(),
            all == points.deep_view(),
            0 <= i <= n,
            leading(all, t@) == i + leading(all.skip(i as int), t@),
        decreases n - i,
    {
        assert(all.skip(i as int)[0] == points@[i as int]@);
        assert(all.skip(i as int).drop_first() =~= all.skip(i + 1));
        i = i + 1;
    }
    if i < n {
        assert(all.skip(i as int)[0] == points@[i as int]@);
    }
    i
}

/// Where the point in effect at `start` stands.
pub open spec fn window_start(points: Seq<PointModel>, start: TimeModel) -> int {
    let n = leading(points, start);
    if n > 0 {
        n - 1
    } else {
        0
    }
}

/// The points from the one in effect at `start` onwards.
pub fn in_window<'a>(points: &'a [HistoryPoint], start: &Timestamp) -> (r: &'a [HistoryPoint])
    ensures
        r.deep_view() == points.deep_view().skip(window_start(points.deep_view(), start@)),
{
    let n: usize = count_leading(points, start);
    let first: usize = if n > 0 { n - 1 } else { 0 };
    let r = &points[first..points.len()];
    assert(r.deep_view() =~= points.deep_view().skip(first as int));
    r
}

proof fn lemma_leading(points: Seq<PointModel>, t: TimeModel)
    ensures
        0 <= leading(points, t) <= points.len(),
        forall|i: int| 0 <= i < leading(points, t) ==> !crate::time::sooner(t, (#[trigger] points[i]).when),
        leading(points, t) < points.len() ==> crate::time::sooner(t, points[leading(points, t)].when),
    decreases points.len(),
{
    if points.len() > 0 && !crate::time::sooner(t, points[0].when) {
        let rest = points.drop_first();
        lemma_leading(rest, t);
        assert forall|i: int| 0 <= i < leading(points, t) implies !crate::time::sooner(t, (#[trigger] points[i]).when) by {
            if i > 0 {
                assert(rest[i - 1] == points[i]);
            }
        }
    }
}

/// The window loses nothing that is in view: every point after its start stays, and so does the one
/// in effect then.
pub proof fn law_window_keeps_what_is_in_view(points: Seq<PointModel>, start: TimeModel, i: int)
    requires
        0 <= i < points.len(),
        forall|a: int, b: int| 0 <= a < b < points.len() ==> !crate::time::sooner((#[trigger] points[b]).when, (#[trigger] points[a]).when),
    ensures
        crate::time::sooner(start, points[i].when) ==> window_start(points, start) <= i,
        i + 1 < points.len() && !crate::time::sooner(start, points[i].when) && crate::time::sooner(start, points[i + 1].when) ==> window_start(points, start) == i,
{
    lemma_leading(points, start);
    let n = leading(points, start);
    if i + 1 < points.len() && n < i + 1 {
        if n < points.len() && n <= i {
            assert(n == i || !crate::time::sooner(points[i].when, points[n].when));
        }
    }
}

// ----- Numbers ------------------------------------------------------------------------

/// What a state is as a number.
#[derive(Debug, Clone, Copy, PartialEq, Eq, Structural)]
pub enum Reading {
    /// A finite number, by its rank among them: a lesser number has a lesser rank.
    Number(i64),
    /// An infinite one, or none at all.
    NotFinite,
    /// It is none.
    Text,
}

/// A numeric history, split into runs of readings wherever the sensor had no value. Numbers are
/// given by their ranks.
#[derive(Debug, PartialEq)]
pub struct Series {
    /// Each run holds (time, value) steps and ends where the value stopped being current.
    pub runs: Vec<Vec<(Timestamp, i64)>>,
    /// The current reading, or `None` if the sensor is unavailable now.
    pub now: Option<i64>,
}

pub type RunModel = Seq<(TimeModel, i64)>;

/// What a [`Series`] stands for.
#[verifier::ext_equal]
pub struct SeriesModel {
    pub runs: Seq<RunModel>,
    pub now: Option<i64>,
}

impl View for Series {
    type V = SeriesModel;

    open spec fn view(&self) -> SeriesModel {
        SeriesModel { runs: self.runs.deep_view(), now: self.now }
    }
}

impl DeepView for Series {
    type V = SeriesModel;

    open spec fn deep_view(&self) -> SeriesModel {
        self@
    }
}

/// Runs that ended, the one that has not, and whether there was any number.
#[verifier::ext_equal]
pub struct Gathered {
    pub runs: Seq<RunModel>,
    pub run: RunModel,
    pub any: bool,
}

/// The current run ended at `at`, its last value held until then.
pub open spec fn closed(g: Gathered, at: TimeModel) -> Gathered {
    if g.run.len() > 0 {
        Gathered { runs: g.runs.push(g.run.push((at, g.run.last().1))), run: Seq::empty(), any: g.any }
    } else {
        g
    }
}

/// Whether a state that is no number is a gap among numbers.
pub open spec fn is_gap(s: Seq<char>) -> bool {
    s == "unavailable"@ || s == "unknown"@ || s.len() == 0
}

/// The points as numbers, or `None` if one of them is another text.
pub open spec fn gather(points: Seq<PointModel>, readings: Seq<Reading>) -> Option<Gathered>
    decreases points.len(),
{
    if points.len() == 0 {
        Some(Gathered { runs: Seq::empty(), run: Seq::empty(), any: false })
    } else {
        let p = points.last();
        match gather(points.drop_last(), readings) {
            None => None,
            Some(g) => match readings[points.len() - 1] {
                Reading::Number(v) => Some(Gathered { run: g.run.push((p.when, v)), any: true, ..g }),
                Reading::NotFinite => Some(closed(g, p.when)),
                Reading::Text => if is_gap(p.state) {
                    Some(closed(g, p.when))
                } else {
                    None
                },
            },
        }
    }
}

/// The history as numbers, or `None` if the entity isn't numeric.
pub open spec fn series(points: Seq<PointModel>, readings: Seq<Reading>, end: TimeModel) -> Option<SeriesModel> {
    match gather(points, readings) {
        None => None,
        Some(g) => if g.any {
            Some(
                SeriesModel {
                    runs: closed(g, end).runs,
                    now: if g.run.len() > 0 { Some(g.run.last().1) } else { None },
                },
            )
        } else {
            None
        },
    }
}

proof fn lemma_gather_none(points: Seq<PointModel>, readings: Seq<Reading>, n: int)
    requires
        0 <= n <= points.len(),
        gather(points.take(n), readings) is None,
    ensures
        gather(points, readings) is None,
    decreases points.len(),
{
    if n < points.len() {
        assert(points.drop_last().take(n) =~= points.take(n));
        lemma_gather_none(points.drop_last(), readings, n);
    } else {
        assert(points.take(n) =~= points);
    }
}

/// End the current run at `at`, holding its last value until then.
fn close_run(runs: &mut Vec<Vec<(Timestamp, i64)>>, run: &mut Vec<(Timestamp, i64)>, at: &Timestamp)
    ensures
        forall|any: bool|
            (Gathered { runs: final(runs).deep_view(), run: final(run).deep_view(), any }) == #[trigger] closed(
                Gathered { runs: old(runs).deep_view(), run: old(run).deep_view(), any },
                at@,
            ),
{
    let ghost rs = runs.deep_view();
    let ghost r = run.deep_view();
    let n: usize = run.len();
    if n > 0 {
        assert(r.last() == (run@[n - 1].0@, run@[n - 1].1));
        let v: i64 = run[n - 1].1;
        let mut ended: Vec<(Timestamp, i64)> = Vec::new();
        std::mem::swap(&mut ended, run);
        ended.push((*at, v));
        assert(ended.deep_view() =~= r.push((at@, v)));
        runs.push(ended);
        assert(runs.deep_view() =~= rs.push(ended.deep_view()));
        assert(run.deep_view() =~= Seq::empty());
    }
}

/// The history as numbers, or `None` if the entity isn't numeric. `readings` tells what each state is
/// as a number.
pub fn numeric(points: &[HistoryPoint], readings: &[Reading], end: &Timestamp) -> (r: Option<Series>)
    requires
        points@.len() == readings@.len(),
    ensures
        r.deep_view() == series(points.deep_view(), readings@, end@),
{
    let ghost all = points.deep_view();
    let n: usize = points.len();
    let mut runs: Vec<Vec<(Timestamp, i64)>> = Vec::new();
    let mut run: Vec<(Timestamp, i64)> = Vec::new();
    let mut any = false;
    assert(runs.deep_view() =~= Seq::empty());
    assert(run.deep_view() =~= Seq::empty());
    for i in 0..n
        invariant
            n == points@.len(),
            n == readings@.len(),
            all == points.deep_view(),
            gather(all.take(i as int), readings@) == Some(Gathered { runs: runs.deep_view(), run: run.deep_view(), any }),
    {
        let ghost now = all.take(i + 1);
        assert(now.drop_last() =~= all.take(i as int));
        assert(now.last() == points@[i as int]@);
        let ghost before = Gathered { runs: runs.deep_view(), run: run.deep_view(), any };
        let p = &points[i];
        match readings[i] {
            Reading::Number(v) => {
                any = true;
                run.push((p.when, v));
                assert(run.deep_view() =~= before.run.push((p.when@, v)));
            },
            // Unavailable/unknown (or nan/inf) is a gap: the previous reading stops here.
            Reading::NotFinite => close_run(&mut runs, &mut run, &p.when),
            Reading::Text => {
                let s = p.state.as_str();
                if same(s, "unavailable") || same(s, "unknown") || s.is_empty() {
                    close_run(&mut runs, &mut run, &p.when);
                } else {
                    // Any other text means it's categorical.
                    proof {
                        lemma_gather_none(all, readings@, i + 1);
                    }
                    return None;
                }
            },
        }
    }
    assert(all.take(n as int) =~= all);
    if !any {
        return None;
    }
    let m: usize = run.len();
    let now = if m > 0 { Some(run[m - 1].1) } else { None };
    let ghost g = Gathered { runs: runs.deep_view(), run: run.deep_view(), any };
    close_run(&mut runs, &mut run, end);
    assert((Gathered { runs: runs.deep_view(), run: run.deep_view(), any }) == closed(g, end@));
    Some(Series { runs, now })
}

proof fn lemma_gather_runs(points: Seq<PointModel>, readings: Seq<Reading>)
    ensures
        gather(points, readings) matches Some(g) ==> {
            &&& forall|i: int| 0 <= i < g.runs.len() ==> held(#[trigger] g.runs[i])
            &&& g.any ==> g.runs.len() > 0 || g.run.len() > 0
        },
    decreases points.len(),
{
    if points.len() > 0 {
        lemma_gather_runs(points.drop_last(), readings);
    }
}

/// Whether a run has a value and holds its last one until it ends.
pub open spec fn held(run: RunModel) -> bool {
    run.len() >= 2 && run[run.len() - 1].1 == run[run.len() - 2].1
}

/// A series has a run, and every run has a value and holds its last one until it ends; the reading is
/// current exactly where the last point is a number.
pub proof fn law_series(points: Seq<PointModel>, readings: Seq<Reading>, end: TimeModel)
    requires
        points.len() == readings.len(),
        points.len() > 0,
    ensures
        series(points, readings, end) matches Some(s) ==> {
            &&& s.runs.len() > 0
            &&& forall|i: int| 0 <= i < s.runs.len() ==> held(#[trigger] s.runs[i])
            &&& s.now == (match readings.last() {
                Reading::Number(v) => Some(v),
                _ => None,
            })
        },
{
    lemma_gather_runs(points, readings);
}

// ----- Chart --------------------------------------------------------------------------

/// How far into the chart a point in time is, in seconds.
pub open spec fn offset(t: TimeModel, start: TimeModel) -> int {
    crate::time::seconds_from(start, if crate::time::sooner(t, start) { start } else { t })
}

pub fn chart_offset(t: &Timestamp, start: &Timestamp) -> (r: i64)
    ensures
        r == offset(t@, start@),
{
    if t.before(start) {
        start.seconds_since(start)
    } else {
        t.seconds_since(start)
    }
}

/// The value of a step of a run.
pub open spec fn value_at(runs: Seq<RunModel>, i: int, j: int) -> i64 {
    runs[i][j].1
}

/// Whether there is such a step.
pub open spec fn is_step(runs: Seq<RunModel>, i: int, j: int) -> bool {
    0 <= i < runs.len() && 0 <= j < runs[i].len()
}

/// Whether `lo` and `hi` are the least and the greatest value of the runs.
pub open spec fn spans(runs: Seq<RunModel>, lo: i64, hi: i64) -> bool {
    &&& exists|i: int, j: int| is_step(runs, i, j) && #[trigger] value_at(runs, i, j) == lo
    &&& exists|i: int, j: int| is_step(runs, i, j) && #[trigger] value_at(runs, i, j) == hi
    &&& forall|i: int, j: int| is_step(runs, i, j) ==> lo <= #[trigger] value_at(runs, i, j) <= hi
}

/// Whether `r` is the least and the greatest value of the runs, or there is none.
pub open spec fn extent(runs: Seq<RunModel>, r: Option<(i64, i64)>) -> bool {
    match r {
        Some(p) => spans(runs, p.0, p.1),
        None => forall|i: int, j: int| !is_step(runs, i, j),
    }
}

/// The least and the greatest value of a series, where it has any.
pub fn extremes(s: &Series) -> (r: Option<(i64, i64)>)
    ensures
        extent(s@.runs, r),
{
    let ghost runs = s@.runs;
    let n: usize = s.runs.len();
    let mut r: Option<(i64, i64)> = None;
    assert(runs.take(0) =~= Seq::empty());
    for i in 0..n
        invariant
            n == s.runs@.len(),
            runs == s.runs.deep_view(),
            extent(runs.take(i as int), r),
    {
        let run = &s.runs[i];
        let m: usize = run.len();
        proof {
            assert(runs[i as int] == run.deep_view());
            lemma_spans_same(runs.take(i as int), runs[i as int].take(0), r);
        }
        for j in 0..m
            invariant
                i < n,
                n == s.runs@.len(),
                m == run@.len(),
                runs == s.runs.deep_view(),
                runs[i as int] == run.deep_view(),
                extent(runs.take(i as int).push(runs[i as int].take(j as int)), r),
        {
            let v: i64 = run[j].1;
            let ghost before = r;
            r = match r {
                None => Some((v, v)),
                Some(p) => Some((if v < p.0 { v } else { p.0 }, if v > p.1 { v } else { p.1 })),
            };
            proof {
                assert(runs[i as int][j as int] == (run@[j as int].0@, run@[j as int].1));
                lemma_spans_more(runs.take(i as int), runs[i as int], j as int, before);
            }
        }
        proof {
            assert(runs[i as int].take(m as int) =~= runs[i as int]);
            assert(runs.take(i as int).push(runs[i as int]) =~= runs.take(i + 1));
        }
    }
    assert(runs.take(n as int) =~= runs);
    r
}

/// An empty run alters nothing.
proof fn lemma_spans_same(a: Seq<RunModel>, run: RunModel, r: Option<(i64, i64)>)
    requires
        run.len() == 0,
        extent(a, r),
    ensures
        extent(a.push(run), r),
{
    let b = a.push(run);
    assert forall|i: int, j: int| is_step(b, i, j) == is_step(a, i, j) by {
        if 0 <= i < a.len() {
            assert(b[i] == a[i]);
        }
    }
    assert forall|i: int, j: int| is_step(a, i, j) implies #[trigger] value_at(b, i, j) == value_at(a, i, j) by {
        assert(b[i] == a[i]);
    }
    if let Some(p) = r {
        let (i, j) = choose|i: int, j: int| is_step(a, i, j) && #[trigger] value_at(a, i, j) == p.0;
        assert(is_step(b, i, j) && value_at(b, i, j) == p.0);
        let (k, l) = choose|k: int, l: int| is_step(a, k, l) && #[trigger] value_at(a, k, l) == p.1;
        assert(is_step(b, k, l) && value_at(b, k, l) == p.1);
    }
}

/// One more step of the last run widens the range to its value.
proof fn lemma_spans_more(rest: Seq<RunModel>, run: RunModel, j: int, r: Option<(i64, i64)>)
    requires
        0 <= j < run.len(),
        extent(rest.push(run.take(j)), r),
    ensures
        ({
            let v = run[j].1;
            let b = rest.push(run.take(j + 1));
            match r {
                Some(p) => spans(b, if v < p.0 { v } else { p.0 }, if v > p.1 { v } else { p.1 }),
                None => spans(b, v, v),
            }
        }),
{
    let a = rest.push(run.take(j));
    let b = rest.push(run.take(j + 1));
    let v = run[j].1;
    let last = rest.len() as int;
    assert(is_step(b, last, j) && value_at(b, last, j) == v);
    assert forall|x: int, y: int| is_step(b, x, y) && !(x == last && y == j) implies is_step(a, x, y) && #[trigger] value_at(b, x, y) == value_at(a, x, y) by {
        if x < last {
            assert(b[x] == rest[x] && a[x] == rest[x]);
        }
    }
    assert forall|x: int, y: int| is_step(a, x, y) implies is_step(b, x, y) && value_at(b, x, y) == #[trigger] value_at(a, x, y) by {
        if x < last {
            assert(b[x] == rest[x] && a[x] == rest[x]);
        }
    }
    if let Some(p) = r {
        let (x, y) = choose|x: int, y: int| is_step(a, x, y) && #[trigger] value_at(a, x, y) == p.0;
        assert(value_at(b, x, y) == p.0);
        let (k, l) = choose|k: int, l: int| is_step(a, k, l) && #[trigger] value_at(a, k, l) == p.1;
        assert(value_at(b, k, l) == p.1);
    }
}

/// A run as the chart draws it: seconds into the chart, and values.
pub open spec fn drawn(run: RunModel, start: TimeModel) -> Seq<(int, i64)> {
    run.map_values(|p: (TimeModel, i64)| (offset(p.0, start), p.1))
}

/// Whether `line` is `run` as the chart draws it.
pub open spec fn draws(line: Seq<(i64, i64)>, run: RunModel, start: TimeModel) -> bool {
    line.map_values(|p: (i64, i64)| (p.0 as int, p.1)) == drawn(run, start)
}

/// What the chart draws: one line for each run, so that it breaks where the sensor had no value.
pub fn chart_data(s: &Series, start: &Timestamp) -> (r: Vec<Vec<(i64, i64)>>)
    ensures
        r@.len() == s@.runs.len(),
        forall|i: int| 0 <= i < r@.len() ==> draws((#[trigger] r@[i])@, s@.runs[i], start@),
{
    let ghost runs = s@.runs;
    let n: usize = s.runs.len();
    let mut r: Vec<Vec<(i64, i64)>> = Vec::new();
    for i in 0..n
        invariant
            n == s.runs@.len(),
            runs == s.runs.deep_view(),
            r@.len() == i,
            forall|k: int| 0 <= k < i ==> draws((#[trigger] r@[k])@, runs[k], start@),
    {
        let run = &s.runs[i];
        let m: usize = run.len();
        let mut line: Vec<(i64, i64)> = Vec::new();
        for j in 0..m
            invariant
                m == run@.len(),
                line@.len() == j,
                forall|k: int| 0 <= k < j ==> (#[trigger] line@[k]).0 == offset(run@[k].0@, start@) && line@[k].1 == run@[k].1,
        {
            let p = run[j];
            line.push((chart_offset(&p.0, start), p.1));
        }
        assert(runs[i as int] == run.deep_view());
        assert(line@.map_values(|p: (i64, i64)| (p.0 as int, p.1)) =~= drawn(run.deep_view(), start@));
        r.push(line);
    }
    r
}

/// A reading and its unit.
pub open spec fn amount(v: i64, unit: Seq<char>, style: Style) -> SpanModel {
    SpanModel { pieces: seq![PieceModel::Reading(v), PieceModel::Text(unit)], style }
}

fn amount_span(v: i64, unit: &str, style: Style) -> (r: Span)
    ensures
        r@ == amount(v, unit@, style),
{
    let mut pieces: Vec<Piece> = Vec::new();
    pieces.push(Piece::Reading(v));
    pieces.push(Piece::Text(unit.to_owned()));
    assert(pieces.deep_view() =~= seq![PieceModel::Reading(v), PieceModel::Text(unit@)]);
    Span { pieces, style }
}

/// The line above the chart: the current reading, the least and the greatest.
pub open spec fn summarized(now: Option<i64>, lo: i64, hi: i64, unit: Seq<char>) -> LineModel {
    let dim = theme::in_color(theme::DIM);
    seq![
        theme::styled(" now "@, dim),
        match now {
            Some(v) => amount(v, unit, theme::bold_in(theme::ACCENT)),
            None => theme::styled("unavailable"@, theme::bold_in(theme::ERROR)),
        },
        theme::styled("   min "@, dim),
        amount(lo, unit, theme::raw_style()),
        theme::styled("   max "@, dim),
        amount(hi, unit, theme::raw_style()),
    ]
}

/// The line above the chart: the current reading, the least and the greatest.
pub fn chart_summary(now: Option<i64>, lo: i64, hi: i64, unit: &str) -> (r: Line)
    ensures
        r@ == summarized(now, lo, hi, unit@),
{
    let current = match now {
        Some(v) => amount_span(v, unit, theme::bold_fg(theme::ACCENT)),
        None => Span::of("unavailable", theme::bold_fg(theme::ERROR)),
    };
    let r = Line::new().with(Span::of(" now ", theme::dim())).with(current).with(Span::of("   min ", theme::dim())).with(
        amount_span(lo, unit, theme::raw()),
    ).with(Span::of("   max ", theme::dim())).with(amount_span(hi, unit, theme::raw()));
    assert(r@ =~= summarized(now, lo, hi, unit@));
    r
}

/// The middle of the 24 hours from `start`.
pub open spec fn halved(start: TimeModel) -> TimeModel {
    crate::time::seconds_after(start, 43_200)
}

/// The middle of the 24 hours from `start`.
pub fn half_way(start: &Timestamp) -> (r: Timestamp)
    ensures
        r@ == crate::time::seconds_after(start@, 43_200),
        r@ == halved(start@),
{
    start.later(43_200)
}

// ----- Timeline -----------------------------------------------------------------------

/// The state in effect at `t`.
pub open spec fn state_at(points: Seq<PointModel>, t: TimeModel) -> Option<Seq<char>> {
    let n = leading(points, t);
    if n > 0 {
        Some(points[n - 1].state)
    } else {
        None
    }
}

/// How many seconds the timeline spans.
pub open spec fn span_of(start: TimeModel, end: TimeModel) -> int {
    let s = crate::time::seconds_from(start, end);
    if s > 1 {
        s
    } else {
        1
    }
}

/// The color of one cell of the timeline: that of the state in effect at its time.
pub open spec fn cell(points: Seq<PointModel>, start: TimeModel, end: TimeModel, width: int, x: int) -> Option<Color> {
    match state_at(points, crate::time::seconds_after(start, span_of(start, end) * x / width)) {
        Some(s) => Some(theme::timeline_color_of(s)),
        None => None,
    }
}

/// One cell per time slice, colored by the state in effect at that time.
pub fn cells(points: &[HistoryPoint], start: &Timestamp, end: &Timestamp, width: u16) -> (r: Vec<Option<Color>>)
    ensures
        ({
            let w = if width > 1 { width as int } else { 1 };
            &&& r@.len() == w
            &&& forall|x: int| 0 <= x < w ==> #[trigger] r@[x] == cell(points.deep_view(), start@, end@, w, x)
        }),
{
    let ghost all = points.deep_view();
    let width: u64 = if width > 1 { width as u64 } else { 1 };
    let secs: i64 = end.seconds_since(start);
    let span: u64 = if secs > 1 { secs as u64 } else { 1 };
    let mut out: Vec<Option<Color>> = Vec::new();
    for x in 0..width
        invariant
            0 < width <= u16::MAX,
            all == points.deep_view(),
            span == span_of(start@, end@),
            out@.len() == x,
            forall|y: int| 0 <= y < x ==> #[trigger] out@[y] == cell(all, start@, end@, width as int, y),
    {
        proof {
            lemma_slice(span as int, x as int, width as int);
        }
        let into: u64 = (span as u128 * x as u128 / width as u128) as u64;
        let t = start.later(into);
        let n: usize = count_leading(points, &t);
        let color = if n > 0 {
            assert(all[n - 1] == points@[n - 1]@);
            Some(theme::timeline_color(points[n - 1].state.as_str()))
        } else {
            None
        };
        out.push(color);
    }
    out
}

proof fn lemma_slice(span: int, x: int, width: int)
    requires
        0 <= span <= u64::MAX,
        0 <= x < width <= u16::MAX,
    ensures
        0 <= span * x <= u64::MAX * u16::MAX,
        0 <= span * x / width <= span,
{
    assert(0 <= span * x <= u64::MAX * u16::MAX) by (nonlinear_arith)
        requires
            0 <= span <= u64::MAX,
            0 <= x <= u16::MAX,
    ;
    assert(span * x <= span * width) by (nonlinear_arith)
        requires
            0 <= span,
            0 <= x < width,
    ;
    vstd::arithmetic::div_mod::lemma_div_is_ordered(span * x, span * width, width);
    vstd::arithmetic::div_mod::lemma_div_multiples_vanish(span, width);
    vstd::arithmetic::mul::lemma_mul_is_commutative(span, width);
    vstd::arithmetic::div_mod::lemma_div_pos_is_pos(span * x, width);
}

/// How long a state lasted.
pub open spec fn lasted(secs: int) -> Seq<char> {
    let s = (if secs > 0 { secs } else { 0 }) as nat;
    if s < 60 {
        text::decimal(s) + "s"@
    } else if s < 3600 {
        text::decimal(s / 60) + "m"@
    } else {
        text::decimal(s / 3600) + "h "@ + text::decimal(s % 3600 / 60) + "m"@
    }
}

pub fn duration(secs: i64) -> (r: String)
    ensures
        r@ == lasted(secs as int),
{
    let s: u64 = if secs > 0 { secs as u64 } else { 0 };
    if s < 60 {
        text::cat2(text::decimal_text(s).as_str(), "s")
    } else if s < 3600 {
        text::cat2(text::decimal_text(s / 60).as_str(), "m")
    } else {
        let hours = text::decimal_text(s / 3600);
        let minutes = text::decimal_text(s % 3600 / 60);
        let head = text::cat3(hours.as_str(), "h ", minutes.as_str());
        text::cat2(head.as_str(), "m")
    }
}

/// The line of one point: when it was, what state it was and how long that lasted.
pub open spec fn point_line(points: Seq<PointModel>, i: int, end: TimeModel) -> LineModel {
    let p = points[i];
    let until = if i + 1 < points.len() { points[i + 1].when } else { end };
    seq![
        SpanModel {
            pieces: seq![
                PieceModel::Text(" "@),
                PieceModel::Clock { at: p.when, width: 9 },
                PieceModel::Text("  "@),
            ],
            style: theme::in_color(theme::DIM),
        },
        theme::styled("■ "@, theme::in_color(theme::timeline_color_of(p.state))),
        theme::styled(text::left_in(p.state, 16), theme::raw_style()),
        theme::styled(lasted(crate::time::seconds_from(p.when, until)), theme::in_color(theme::DIM)),
    ]
}

/// How many lines there are for `len` points: as many as fit, and at least one.
pub open spec fn line_count(len: int, height: u16) -> int {
    let most = if height > 1 { height as int } else { 1 };
    if len < most {
        len
    } else {
        most
    }
}

/// The line `k` of a history: the newest point comes first.
pub open spec fn line_of(points: Seq<PointModel>, k: int, end: TimeModel) -> LineModel {
    point_line(points, points.len() - 1 - k, end)
}

/// Newest changes first, with how long each state lasted.
pub fn point_lines(points: &[HistoryPoint], end: &Timestamp, height: u16) -> (r: Vec<Line>)
    ensures
        ({
            let all = points.deep_view();
            &&& r@.len() == line_count(all.len() as int, height)
            &&& forall|k: int| 0 <= k < r@.len() ==> (#[trigger] r@[k])@ == point_line(all, all.len() - 1 - k, end@)
            &&& forall|k: int| 0 <= k < r@.len() ==> (#[trigger] r@[k])@ == line_of(all, k, end@)
        }),
{
    let ghost all = points.deep_view();
    let n: usize = points.len();
    let most: usize = if height > 1 { height as usize } else { 1 };
    let count: usize = if n < most { n } else { most };
    let mut lines: Vec<Line> = Vec::new();
    for k in 0..count
        invariant
            n == points@.len(),
            count <= n,
            all == points.deep_view(),
            lines@.len() == k,
            forall|j: int| 0 <= j < k ==> (#[trigger] lines@[j])@ == point_line(all, all.len() - 1 - j, end@),
    {
        let i: usize = n - 1 - k;
        let p = &points[i];
        assert(all[i as int] == p@);
        let secs: i64 = if i + 1 < n {
            assert(all[i + 1] == points@[i + 1]@);
            points[i + 1].when.seconds_since(&p.when)
        } else {
            end.seconds_since(&p.when)
        };
        let mut pieces: Vec<Piece> = Vec::new();
        pieces.push(Piece::Text(" ".to_owned()));
        pieces.push(Piece::Clock { at: p.when, width: 9 });
        pieces.push(Piece::Text("  ".to_owned()));
        assert(pieces.deep_view() =~= seq![
            PieceModel::Text(" "@),
            PieceModel::Clock { at: p.when@, width: 9 },
            PieceModel::Text("  "@),
        ]);
        let line = Line::new().with(Span { pieces, style: theme::dim() }).with(
            Span::of("■ ", theme::fg(theme::timeline_color(p.state.as_str()))),
        ).with(Span::styled(text::pad_right(p.state.as_str(), 16), theme::raw())).with(
            Span::styled(duration(secs), theme::dim()),
        );
        assert(line@ =~= point_line(all, i as int, end@));
        lines.push(line);
    }
    lines
}

} // verus!
