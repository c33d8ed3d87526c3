//! The summary of entities by domain that is printed in place of the terminal UI.

use crate::ha::client::{ConnStatus, EventModel, HaEvent, Snapshot, SnapshotModel, StatusModel};
use crate::ha::types::EntityModel;
use crate::strmap::tallied;
use crate::text;
use vstd::prelude::*;

verus! {

/// What an event leads to.
#[derive(Debug, PartialEq)]
pub enum DumpStep {
    /// Nothing.
    Ignore,
    /// A line is printed.
    Print(String),
    /// These lines are printed, and that is all.
    Done(Vec<String>),
    /// It cannot be done.
    Fail(String),
}

/// What a [`DumpStep`] stands for.
pub enum DumpModel {
    Ignore,
    Print(Seq<char>),
    Done(Seq<Seq<char>>),
    Fail(Seq<char>),
}

impl View for DumpStep {
    type V = DumpModel;

    open spec fn view(&self) -> DumpModel {
        match self {
            DumpStep::Ignore => DumpModel::Ignore,
            DumpStep::Print(s) => DumpModel::Print(s@),
            DumpStep::Done(l) => DumpModel::Done(l.deep_view()),
            DumpStep::Fail(s) => DumpModel::Fail(s@),
        }
    }
}

/// The domains of entities.
pub open spec fn domains(l: Seq<EntityModel>) -> Seq<Seq<char>> {
    l.map_values(|e: EntityModel| crate::ha::types::domain(e.entity_id))
}

/// How many of each there are.
pub open spec fn totals(s: SnapshotModel) -> Seq<char> {
    text::decimal(s.states.len()) + " entities, "@ + text::decimal(s.areas.len()) + " areas, "@ + text::decimal(s.devices.len())
        + " devices, "@ + text::decimal(s.entities.len()) + " registry entries"@
}

/// A domain's line: its name and how many entities it has.
pub open spec fn domain_line(d: Seq<char>, n: int) -> Seq<char> {
    "  "@ + text::left_in(d, 24) + " "@ + text::decimal(n as nat)
}

/// The summary of a snapshot: how many of each there are, then the domains in order.
pub open spec fn summary(s: SnapshotModel) -> Seq<Seq<char>> {
    seq![totals(s)] + crate::strmap::tally(domains(s.states)).map_values(|e: (Seq<char>, int)| domain_line(e.0, e.1))
}

/// What an event leads to.
pub open spec fn dumping(ev: EventModel) -> DumpModel {
    match ev {
        EventModel::Status(StatusModel::Connected { version }) => DumpModel::Print(
            "connected: Home Assistant "@ + version,
        ),
        EventModel::Status(StatusModel::AuthFailed(m)) => DumpModel::Fail("authentication failed: "@ + m),
        EventModel::Status(StatusModel::Disconnected { error, .. }) => DumpModel::Fail("connection failed: "@ + error),
        EventModel::Snapshot(s) => DumpModel::Done(summary(s)),
        _ => DumpModel::Ignore,
    }
}

fn summarize(s: &Snapshot) -> (r: Vec<String>)
    ensures
        r.deep_view() == summary(s@),
{
    let ghost all = s.states.deep_view();
    let n: usize = s.states.len();
    let mut keys: Vec<String> = Vec::new();
    for i in 0..n
        invariant
            n == s.states@.len(),
            all == s.states.deep_view(),
            keys.deep_view() == domains(all.take(i as int)),
    {
        let ghost sofar = keys.deep_view();
        let d = s.states[i].domain().to_owned();
        keys.push(d);
        assert(all[i as int] == s.states@[i as int]@);
        assert(keys.deep_view() =~= sofar.push(d@));
        assert(domains(all.take(i + 1)) =~= domains(all.take(i as int)).push(d@));
    }
    assert(all.take(n as int) =~= all);
    let counts = tallied(keys);
    let ghost entries = crate::strmap::as_ints(counts@);
    let ghost f = |e: (Seq<char>, int)| domain_line(e.0, e.1);
    let a = text::decimal_text(n as u64);
    let b = text::decimal_text(s.areas.len() as u64);
    let c = text::decimal_text(s.devices.len() as u64);
    let d = text::decimal_text(s.entities.len() as u64);
    let head = text::cat5(a.as_str(), " entities, ", b.as_str(), " areas, ", c.as_str());
    let tail = text::cat3(" devices, ", d.as_str(), " registry entries");
    let first = text::cat2(head.as_str(), tail.as_str());
    assert(first@ =~= totals(s@));
    let mut out: Vec<String> = Vec::new();
    out.push(first);
    assert(out.deep_view() =~= seq![totals(s@)] + entries.take(0).map_values(f));
    let m: usize = counts.len();
    for i in 0..m
        invariant
            m == counts@.len(),
            entries == crate::strmap::as_ints(counts@),
            f == (|e: (Seq<char>, int)| domain_line(e.0, e.1)),
            out.deep_view() == seq![totals(s@)] + entries.take(i as int).map_values(f),
    {
        let key = counts.key_at(i);
        let count: usize = *counts.value_at(i);
        let ghost sofar = out.deep_view();
        let name = text::pad_right(key, 24);
        let digits = text::decimal_text(count as u64);
        let lead = text::cat3("  ", name.as_str(), " ");
        let line = text::cat2(lead.as_str(), digits.as_str());
        out.push(line);
        assert(entries[i as int] == (key@, count as int));
        assert(out.deep_view() =~= sofar.push(line@));
        assert(entries.take(i + 1).map_values(f) =~= entries.take(i as int).map_values(f).push(line@));
        assert(out.deep_view() =~= seq![totals(s@)] + entries.take(i + 1).map_values(f));
    }
    assert(entries.take(m as int) =~= entries);
    out
}

/// What an event leads to.
pub fn dump_step(ev: &HaEvent) -> (r: DumpStep)
    ensures
        r@ == dumping(ev@),
{
    match ev {
        HaEvent::Status(ConnStatus::Connected { version }) => DumpStep::Print(
            text::cat2("connected: Home Assistant ", version.as_str()),
        ),
        HaEvent::Status(ConnStatus::AuthFailed(m)) => DumpStep::Fail(text::cat2("authentication failed: ", m.as_str())),
        HaEvent::Status(ConnStatus::Disconnected { error, .. }) => DumpStep::Fail(
            text::cat2("connection failed: ", error.as_str()),
        ),
        HaEvent::Snapshot(s) => DumpStep::Done(summarize(s)),
        _ => DumpStep::Ignore,
    }
}

/// What is printed: the version once connected, the summary once everything is loaded, and what went wrong.
/// Nothing else is.
pub proof fn law_dumps(ev: EventModel)
    ensures
        match ev {
            EventModel::Status(StatusModel::Connected { version }) => dumping(ev) == DumpModel::Print("connected: Home Assistant "@ + version),
            EventModel::Status(StatusModel::AuthFailed(m)) => dumping(ev) == DumpModel::Fail("authentication failed: "@ + m),
            EventModel::Status(StatusModel::Disconnected { error, .. }) => dumping(ev) == DumpModel::Fail("connection failed: "@ + error),
            EventModel::Snapshot(s) => dumping(ev) is Done,
            _ => dumping(ev) is Ignore,
        },
{
}

/// The summary counts the states, areas, devices and registrations, and then the states of each domain, in the
/// order of the domains.
pub proof fn law_summaries_count(s: SnapshotModel, d: Seq<char>)
    ensures
        summary(s)[0] == text::decimal(s.states.len()) + " entities, "@ + text::decimal(s.areas.len()) + " areas, "@ + text::decimal(s.devices.len())
            + " devices, "@ + text::decimal(s.entities.len()) + " registry entries"@,
        ({
            let n = s.states.filter(|e: EntityModel| crate::ha::types::domain(e.entity_id) == d).len();
            &&& n > 0 ==> exists|i: int| 0 < i < summary(s).len() && #[trigger] summary(s)[i] == "  "@ + text::left_in(d, 24) + " "@ + text::decimal(n)
            &&& summary(s).len() == 1 + crate::strmap::tally(domains(s.states)).len()
        }),
{
    let keys = domains(s.states);
    let f = |e: EntityModel| crate::ha::types::domain(e.entity_id);
    let t = crate::strmap::tally(keys);
    crate::strmap::lemma_tally(keys, d);
    lemma_of_domain(s.states, d);
    let n = s.states.filter(|e: EntityModel| crate::ha::types::domain(e.entity_id) == d).len();
    if n > 0 {
        let i = crate::strmap::place(t, d);
        crate::strmap::lemma_place(t, d);
        assert(t[i] == (d, n as int));
        assert(summary(s)[i + 1] == domain_line(d, n as int));
    }
}

proof fn lemma_of_domain(l: Seq<EntityModel>, d: Seq<char>)
    ensures
        crate::strmap::occurrences(domains(l), d) == l.filter(|e: EntityModel| crate::ha::types::domain(e.entity_id) == d).len(),
    decreases l.len(),
{
    reveal(Seq::filter);
    if l.len() > 0 {
        assert(domains(l).drop_last() =~= domains(l.drop_last()));
        lemma_of_domain(l.drop_last(), d);
    }
}

} // verus!
