//! What holds of the conversation with Home Assistant as a whole.

use super::client::{CommandModel, EndModel, EventModel, PendingModel, RequestsModel, WaitingModel};
use super::session::{DecodedModel, SessionModel, StepModel};
use crate::json::JsonModel;
use crate::time::TimeModel;
use vstd::multiset::Multiset;
use vstd::prelude::*;

verus! {

broadcast use vstd::multiset::group_multiset_axioms;

/// What a command is owed an outcome under.
pub enum Ticket {
    Service(Seq<char>),
    History(Seq<char>),
    Logbook(Option<Seq<char>>),
}

/// The ticket of a command. A resync needs none: the session ends.
pub open spec fn asks(cmd: CommandModel) -> Option<Ticket> {
    match cmd {
        CommandModel::CallService { label, .. } => Some(Ticket::Service(label)),
        CommandModel::History { entity_id, .. } => Some(Ticket::History(entity_id)),
        CommandModel::Logbook { entity_id, .. } => Some(Ticket::Logbook(entity_id)),
        CommandModel::Resync => None,
    }
}

/// The ticket that a waiting request holds.
pub open spec fn holds(kind: PendingModel) -> Option<Ticket> {
    match kind {
        PendingModel::Service(label) => Some(Ticket::Service(label)),
        PendingModel::History(entity_id) => Some(Ticket::History(entity_id)),
        PendingModel::Logbook(entity_id) => Some(Ticket::Logbook(entity_id)),
        _ => None,
    }
}

/// The ticket that an event is the outcome of.
pub open spec fn settles(ev: EventModel) -> Option<Ticket> {
    match ev {
        EventModel::ServiceResult { label, .. } => Some(Ticket::Service(label)),
        EventModel::History { entity_id, .. } => Some(Ticket::History(entity_id)),
        EventModel::HistoryFailed { entity_id, .. } => Some(Ticket::History(entity_id)),
        EventModel::Logbook { entity_id, .. } => Some(Ticket::Logbook(entity_id)),
        _ => None,
    }
}

/// A ticket, or none, as a collection.
pub open spec fn at_most(t: Option<Ticket>) -> Multiset<Ticket> {
    match t {
        Some(t) => Multiset::singleton(t),
        None => Multiset::empty(),
    }
}

/// The tickets of the requests that are waiting.
pub open spec fn owed(p: Seq<WaitingModel>) -> Multiset<Ticket>
    decreases p.len(),
{
    if p.len() == 0 {
        Multiset::empty()
    } else {
        owed(p.drop_last()).add(at_most(holds(p.last().kind)))
    }
}

/// The tickets of requests of the given kinds.
pub open spec fn owed_kinds(k: Seq<PendingModel>) -> Multiset<Ticket>
    decreases k.len(),
{
    if k.len() == 0 {
        Multiset::empty()
    } else {
        owed_kinds(k.drop_last()).add(at_most(holds(k.last())))
    }
}

/// The tickets that the events settle.
pub open spec fn settled(evs: Seq<EventModel>) -> Multiset<Ticket>
    decreases evs.len(),
{
    if evs.len() == 0 {
        Multiset::empty()
    } else {
        settled(evs.drop_last()).add(at_most(settles(evs.last())))
    }
}

proof fn lemma_owed_push(p: Seq<WaitingModel>, w: WaitingModel)
    ensures
        owed(p.push(w)) == owed(p).add(at_most(holds(w.kind))),
{
    assert(p.push(w).drop_last() =~= p);
}

proof fn lemma_owed_remove(p: Seq<WaitingModel>, i: int)
    requires
        0 <= i < p.len(),
    ensures
        owed(p) =~= owed(p.remove(i)).add(at_most(holds(p[i].kind))),
    decreases p.len(),
{
    let q = p.remove(i);
    if i == p.len() - 1 {
        assert(q =~= p.drop_last());
    } else {
        assert(q.drop_last() =~= p.drop_last().remove(i));
        lemma_owed_remove(p.drop_last(), i);
    }
}

proof fn lemma_settled_push(evs: Seq<EventModel>, ev: EventModel)
    ensures
        settled(evs.push(ev)) == settled(evs).add(at_most(settles(ev))),
{
    assert(evs.push(ev).drop_last() =~= evs);
}

proof fn lemma_settled_one(ev: EventModel)
    ensures
        settled(seq![ev]) =~= at_most(settles(ev)),
{
    assert(seq![ev].drop_last() =~= Seq::<EventModel>::empty());
    assert(settled(Seq::<EventModel>::empty()) =~= Multiset::empty());
}

proof fn lemma_settled_add(a: Seq<EventModel>, b: Seq<EventModel>)
    ensures
        settled(a + b) =~= settled(a).add(settled(b)),
    decreases b.len(),
{
    if b.len() == 0 {
        assert(a + b =~= a);
    } else {
        assert((a + b).drop_last() =~= a + b.drop_last());
        lemma_settled_add(a, b.drop_last());
    }
}

proof fn lemma_settled_none(evs: Seq<EventModel>)
    requires
        forall|i: int| 0 <= i < evs.len() ==> settles(#[trigger] evs[i]) is None,
    ensures
        settled(evs) =~= Multiset::empty(),
    decreases evs.len(),
{
    if evs.len() > 0 {
        assert forall|i: int| 0 <= i < evs.drop_last().len() implies settles(#[trigger] evs.drop_last()[i]) is None by {
            assert(evs.drop_last()[i] == evs[i]);
        }
        lemma_settled_none(evs.drop_last());
        assert(settles(evs[evs.len() - 1]) is None);
    }
}

proof fn lemma_failures(k: Seq<PendingModel>, why: Seq<char>)
    ensures
        settled(super::session::failures(k, why)) =~= owed_kinds(k),
    decreases k.len(),
{
    if k.len() > 0 {
        lemma_failures(k.drop_last(), why);
        if let Some(ev) = super::client::failure(k.last(), why) {
            lemma_settled_push(super::session::failures(k.drop_last(), why), ev);
        }
    }
}

proof fn lemma_kinds(p: Seq<WaitingModel>)
    ensures
        owed_kinds(super::session::kinds(p)) =~= owed(p),
    decreases p.len(),
{
    if p.len() > 0 {
        assert(super::session::kinds(p).drop_last() =~= super::session::kinds(p.drop_last()));
        lemma_kinds(p.drop_last());
    }
}

proof fn lemma_expiry(p: Seq<WaitingModel>, after: u64, now: u64)
    ensures
        owed(p) =~= owed(super::client::in_time(p, after, now)).add(owed_kinds(super::client::overdue_kinds(p, after, now))),
    decreases p.len(),
{
    if p.len() > 0 {
        let q = p.drop_last();
        lemma_expiry(q, after, now);
        if super::client::overdue(p.last().sent, after, now) {
            let k = super::client::overdue_kinds(q, after, now);
            assert(k.push(p.last().kind).drop_last() =~= k);
        } else {
            lemma_owed_push(super::client::in_time(q, after, now), p.last());
        }
    }
}

/// A message settles exactly what it takes from those waiting.
pub proof fn law_message_settles(s: SessionModel, v: JsonModel, d: DecodedModel, now: u64)
    requires
        s.wf(),
    ensures
        ({
            let r = super::session::on_message(s, v, d, now);
            owed(r.session.req.pending).add(settled(r.events)) == owed(s.req.pending)
        }),
{
    let r = super::session::on_message(s, v, d, now);
    let kind = crate::json::text(crate::json::at(v, "type"@));
    let id = super::client::id_in(v);
    if kind == Some("event"@) {
        if r.events.len() > 0 {
            lemma_settled_one(r.events[0]);
            assert(r.events =~= seq![r.events[0]]);
        }
    } else if kind == Some("pong"@) {
    } else if kind == Some("result"@) && id is Some {
        let p = s.req.pending;
        let i = super::client::waiting_at(p, id->0);
        super::session::lemma_waiting_at(p, id->0);
        if i < p.len() {
            lemma_owed_remove(p, i);
            let t = SessionModel { req: RequestsModel { pending: p.remove(i), ..s.req }, ..s };
            let k = p[i].kind;
            assert(r == super::session::on_reply(t, k, v, d));
            assert(r.session.req.pending == p.remove(i));
            if k.is_list() {
                if r.events.len() > 0 {
                    assert(r.events == seq![r.events[0]] + s.early);
                    assert forall|j: int| 0 <= j < r.events.len() implies settles(#[trigger] r.events[j]) is None by {
                        if j > 0 {
                            assert(r.events[j] == s.early[j - 1]);
                        }
                    }
                }
                lemma_settled_none(r.events);
            } else if r.events.len() > 0 {
                lemma_settled_one(r.events[0]);
                assert(r.events =~= seq![r.events[0]]);
            }
        }
    }
    assert(owed(r.session.req.pending).add(settled(r.events)) =~= owed(s.req.pending));
}

/// A command is rejected at once, or it waits: either way it is accounted for once.
pub proof fn law_command_settles(s: SessionModel, cmd: CommandModel, now: u64, date: TimeModel)
    requires
        s.wf(),
    ensures
        ({
            let r = super::session::on_command(s, Some(cmd), now, date);
            owed(r.session.req.pending).add(settled(r.events)) == owed(s.req.pending).add(at_most(asks(cmd)))
        }),
{
    let r = super::session::on_command(s, Some(cmd), now, date);
    if r.events.len() > 0 {
        lemma_settled_one(r.events[0]);
        assert(r.events =~= seq![r.events[0]]);
    } else if !(cmd is Resync) {
        let w = r.session.req.pending.last();
        lemma_owed_push(s.req.pending, w);
        assert(r.session.req.pending =~= s.req.pending.push(w));
    }
    assert(owed(r.session.req.pending).add(settled(r.events)) =~= owed(s.req.pending).add(at_most(asks(cmd))));
}

/// Giving up requests settles each of those given up, also where it ends the session.
pub proof fn law_sweep_settles(s: SessionModel, after: u64, now: u64)
    ensures
        ({
            let r = super::session::on_sweep(s, after, now);
            owed(r.session.req.pending).add(settled(r.events)) == owed(s.req.pending)
        }),
{
    let k = super::client::overdue_kinds(s.req.pending, after, now);
    lemma_expiry(s.req.pending, after, now);
    lemma_failures(k, "no reply from Home Assistant"@);
}

/// No request that waited too long is left waiting.
pub proof fn law_sweep_leaves_none_overdue(s: SessionModel, after: u64, now: u64)
    ensures
        forall|i: int| 0 <= i < super::session::on_sweep(s, after, now).session.req.pending.len() ==>
            !super::client::overdue(#[trigger] super::session::on_sweep(s, after, now).session.req.pending[i].sent, after, now),
{
    super::session::lemma_in_time(s.req.pending, after, now);
}

proof fn lemma_refetching_owes(r: RequestsModel, stale: Seq<super::client::Registry>, now: u64)
    ensures
        owed(super::session::refetching(r, stale, now).pending) =~= owed(r.pending),
    decreases stale.len(),
{
    if stale.len() > 0 {
        lemma_refetching_owes(r, stale.drop_last(), now);
        let b = super::session::refetching(r, stale.drop_last(), now);
        let w = WaitingModel { id: b.next_id + 1, kind: PendingModel::Refresh(stale.last()), sent: now };
        lemma_owed_push(b.pending, w);
    }
}

/// Whatever is still waiting when a session ends is settled.
pub proof fn law_end_settles(s: SessionModel, end: EndModel)
    ensures
        settled(super::session::leftovers(s, end)) == owed(s.req.pending),
{
    let why = if end is Resync { "cancelled by resync"@ } else { "connection lost"@ };
    lemma_failures(super::session::kinds(s.req.pending), why);
    lemma_kinds(s.req.pending);
}

/// A command that comes while there is no session gets its outcome at once.
pub proof fn law_idle_settles(idle: super::reconnect::Idle, cmd: CommandModel)
    ensures
        match super::reconnect::without_session(idle, Some(cmd)) {
            super::reconnect::IdleModel::Stop => false,
            super::reconnect::IdleModel::Retry => cmd is Resync,
            super::reconnect::IdleModel::Answer(ev) => match ev {
                Some(ev) => settles(ev) == asks(cmd) && asks(cmd) is Some,
                None => cmd is Resync,
            },
        },
{
}

// ----- Whole sessions ------------------------------------------------------------------

/// What can happen to a session.
pub enum Happening {
    Message { v: JsonModel, d: DecodedModel, now: u64 },
    Command { cmd: CommandModel, now: u64, date: TimeModel },
    Refresh { now: u64 },
    Ping,
    Sweep { after: u64, now: u64 },
    Written,
}

/// What one thing that happens leads to.
pub open spec fn step(s: SessionModel, h: Happening) -> StepModel {
    match h {
        Happening::Message { v, d, now } => super::session::on_message(s, v, d, now),
        Happening::Command { cmd, now, date } => super::session::on_command(s, Some(cmd), now, date),
        Happening::Refresh { now } => super::session::quiet(super::session::on_refresh(s, now)),
        Happening::Ping => super::session::on_ping(s),
        Happening::Sweep { after, now } => super::session::on_sweep(s, after, now),
        Happening::Written => super::session::quiet(
            SessionModel { req: RequestsModel { outbox: Seq::empty(), ..s.req }, ..s },
        ),
    }
}

/// What a session is after `hs`, what it told meanwhile, and why it ended if it did. Nothing happens
/// to a session that ended.
pub open spec fn course(s: SessionModel, hs: Seq<Happening>) -> StepModel
    decreases hs.len(),
{
    if hs.len() == 0 {
        super::session::quiet(s)
    } else {
        let so_far = course(s, hs.drop_last());
        if so_far.end is Some {
            so_far
        } else {
            let r = step(so_far.session, hs.last());
            StepModel { session: r.session, events: so_far.events + r.events, end: r.end }
        }
    }
}

/// The tickets of the commands among `hs` that reached the session before it ended.
pub open spec fn asked(s: SessionModel, hs: Seq<Happening>) -> Multiset<Ticket>
    decreases hs.len(),
{
    if hs.len() == 0 {
        Multiset::empty()
    } else if course(s, hs.drop_last()).end is Some {
        asked(s, hs.drop_last())
    } else {
        match hs.last() {
            Happening::Command { cmd, .. } => asked(s, hs.drop_last()).add(at_most(asks(cmd))),
            _ => asked(s, hs.drop_last()),
        }
    }
}

/// Every step keeps what holds of sessions, unless it ends the session, and numbers at most three
/// new requests.
pub proof fn lemma_step(s: SessionModel, h: Happening)
    requires
        s.wf(),
    ensures
        step(s, h).session.wf() || step(s, h).end is Some,
        s.req.next_id <= step(s, h).session.req.next_id <= s.req.next_id + 3,
{
    match h {
        Happening::Message { v, d, now } => {
            super::session::lemma_message(s, v, d, now);
        },
        Happening::Command { cmd, now, date } => {
            super::session::lemma_command(s, Some(cmd), now, date);
        },
        Happening::Refresh { now } => {
            super::session::lemma_refresh(s, now);
            super::session::lemma_three(s.stale);
            super::session::lemma_refetching(s.req, s.stale, now);
        },
        Happening::Ping => {},
        Happening::Sweep { after, now } => {
            super::session::lemma_sweep(s, after, now);
        },
        Happening::Written => {},
    }
}

proof fn lemma_course(s: SessionModel, hs: Seq<Happening>)
    requires
        s.wf(),
    ensures
        course(s, hs).session.wf() || course(s, hs).end is Some,
    decreases hs.len(),
{
    if hs.len() > 0 {
        lemma_course(s, hs.drop_last());
        let so_far = course(s, hs.drop_last());
        if so_far.end is None {
            lemma_step(so_far.session, hs.last());
        }
    }
}

/// Whatever happens numbers at most three requests, so the numbers last.
pub proof fn law_numbers_last(s: SessionModel, hs: Seq<Happening>)
    requires
        s.wf(),
    ensures
        s.req.next_id <= course(s, hs).session.req.next_id <= s.req.next_id + 3 * hs.len(),
    decreases hs.len(),
{
    if hs.len() > 0 {
        law_numbers_last(s, hs.drop_last());
        lemma_course(s, hs.drop_last());
        let so_far = course(s, hs.drop_last());
        if so_far.end is None {
            lemma_step(so_far.session, hs.last());
        }
    }
}

/// Every command gets exactly one outcome: whatever happens to a session, the commands that reached
/// it are those that were settled by the events it told and those that are still waiting, each once;
/// and the events that follow its end settle the rest.
pub proof fn law_every_command_gets_one_outcome(s: SessionModel, hs: Seq<Happening>, end: EndModel)
    requires
        s.wf(),
        owed(s.req.pending) == Multiset::<Ticket>::empty(),
    ensures
        settled(course(s, hs).events).add(owed(course(s, hs).session.req.pending)) == asked(s, hs),
        settled(course(s, hs).events + super::session::leftovers(course(s, hs).session, end)) == asked(s, hs),
    decreases hs.len(),
{
    let r = course(s, hs);
    if hs.len() > 0 {
        let hs0 = hs.drop_last();
        law_every_command_gets_one_outcome(s, hs0, end);
        lemma_course(s, hs0);
        let b = course(s, hs0);
        if b.end is None {
            let one = step(b.session, hs.last());
            lemma_settled_add(b.events, one.events);
            match hs.last() {
                Happening::Message { v, d, now } => {
                    law_message_settles(b.session, v, d, now);
                },
                Happening::Command { cmd, now, date } => {
                    law_command_settles(b.session, cmd, now, date);
                },
                Happening::Refresh { now } => {
                    lemma_refetching_owes(b.session.req, b.session.stale, now);
                },
                Happening::Ping => {},
                Happening::Sweep { after, now } => {
                    law_sweep_settles(b.session, after, now);
                },
                Happening::Written => {},
            }
            let was = owed(b.session.req.pending);
            let is = owed(one.session.req.pending);
            let new = match hs.last() {
                Happening::Command { cmd, .. } => at_most(asks(cmd)),
                _ => Multiset::empty(),
            };
            assert(is.add(settled(one.events)) =~= was.add(new));
            assert(asked(s, hs) =~= asked(s, hs0).add(new));
            assert(settled(r.events).add(is) =~= settled(b.events).add(is.add(settled(one.events))));
            assert(settled(b.events).add(was.add(new)) =~= settled(b.events).add(was).add(new));
        }
    }
    lemma_settled_add(r.events, super::session::leftovers(r.session, end));
    law_end_settles(r.session, end);
    assert(settled(r.events).add(owed(r.session.req.pending)) =~= asked(s, hs));
}

/// Nothing is owed when a session starts.
pub proof fn law_nothing_owed_at_start(now: u64)
    ensures
        super::session::started(now).wf(),
        owed(super::session::started(now).req.pending) == Multiset::<Ticket>::empty(),
{
    reveal_with_fuel(owed, 9);
    super::session::lemma_started(now);
    assert(owed(super::session::opening(now).pending) =~= Multiset::<Ticket>::empty());
}

// ----- Changes and the snapshot ----------------------------------------------------------

/// The changes of state among events, in order.
pub open spec fn changes(evs: Seq<EventModel>) -> Seq<EventModel> {
    evs.filter(|ev: EventModel| ev is StateChanged)
}

/// The changes of state that messages told a session of before it ended, in order.
pub open spec fn arrived(s: SessionModel, hs: Seq<Happening>) -> Seq<EventModel>
    decreases hs.len(),
{
    if hs.len() == 0 {
        Seq::empty()
    } else if course(s, hs.drop_last()).end is Some {
        arrived(s, hs.drop_last())
    } else {
        let before = arrived(s, hs.drop_last());
        match hs.last() {
            Happening::Message { v, d, .. } => if crate::json::text(crate::json::at(v, "type"@)) == Some("event"@) {
                match super::session::state_change(v, d.state()) {
                    Some(ev) => before.push(ev),
                    None => before,
                }
            } else {
                before
            },
            _ => before,
        }
    }
}

proof fn lemma_changes_push(evs: Seq<EventModel>, ev: EventModel)
    ensures
        changes(evs.push(ev)) == if ev is StateChanged { changes(evs).push(ev) } else { changes(evs) },
{
    reveal(Seq::filter);
    assert(evs.push(ev).drop_last() =~= evs);
}

proof fn lemma_changes_add(a: Seq<EventModel>, b: Seq<EventModel>)
    ensures
        changes(a + b) == changes(a) + changes(b),
{
    Seq::filter_distributes_over_add(a, b, |ev: EventModel| ev is StateChanged);
}

proof fn lemma_changes_all(evs: Seq<EventModel>)
    requires
        forall|i: int| 0 <= i < evs.len() ==> #[trigger] evs[i] is StateChanged,
    ensures
        changes(evs) == evs,
    decreases evs.len(),
{
    reveal(Seq::filter);
    if evs.len() > 0 {
        let t = evs.drop_last();
        assert forall|i: int| 0 <= i < t.len() implies #[trigger] t[i] is StateChanged by {
            assert(t[i] == evs[i]);
        }
        lemma_changes_all(t);
        assert(evs[evs.len() - 1] is StateChanged);
        assert(t.push(evs.last()) =~= evs);
    }
    assert(changes(evs) =~= evs);
}

proof fn lemma_changes_none(evs: Seq<EventModel>)
    requires
        forall|i: int| 0 <= i < evs.len() ==> !(#[trigger] evs[i] is StateChanged),
    ensures
        changes(evs) == Seq::<EventModel>::empty(),
    decreases evs.len(),
{
    reveal(Seq::filter);
    if evs.len() > 0 {
        let t = evs.drop_last();
        assert forall|i: int| 0 <= i < t.len() implies !(#[trigger] t[i] is StateChanged) by {
            assert(t[i] == evs[i]);
        }
        lemma_changes_none(t);
        assert(!(evs[evs.len() - 1] is StateChanged));
    }
    assert(changes(evs) =~= Seq::<EventModel>::empty());
}

proof fn lemma_failures_change_nothing(k: Seq<PendingModel>, why: Seq<char>)
    ensures
        changes(super::session::failures(k, why)) == Seq::<EventModel>::empty(),
    decreases k.len(),
{
    reveal(Seq::filter);
    if k.len() > 0 {
        lemma_failures_change_nothing(k.drop_last(), why);
        if let Some(ev) = super::client::failure(k.last(), why) {
            lemma_changes_push(super::session::failures(k.drop_last(), why), ev);
        }
    } else {
        assert(changes(super::session::failures(k, why)) =~= Seq::<EventModel>::empty());
    }
}

proof fn lemma_step_changes(s: SessionModel, h: Happening)
    requires
        s.wf(),
    ensures
        ({
            let r = step(s, h);
            let new = match h {
                Happening::Message { v, d, .. } => if crate::json::text(crate::json::at(v, "type"@)) == Some("event"@) {
                    match super::session::state_change(v, d.state()) {
                        Some(ev) => seq![ev],
                        None => Seq::empty(),
                    }
                } else {
                    Seq::empty()
                },
                _ => Seq::empty(),
            };
            changes(r.events) + r.session.early == s.early + new
        }),
{
    let r = step(s, h);
    match h {
        Happening::Message { v, d, now } => {
            let kind = crate::json::text(crate::json::at(v, "type"@));
            let id = super::client::id_in(v);
            if kind == Some("event"@) {
                match super::session::state_change(v, d.state()) {
                    Some(ev) => {
                        if s.left > 0 {
                            lemma_changes_none(r.events);
                        } else {
                            lemma_changes_all(r.events);
                            assert(s.early =~= Seq::<EventModel>::empty());
                        }
                        assert(changes(r.events) + r.session.early =~= s.early + seq![ev]);
                    },
                    None => {
                        lemma_changes_none(r.events);
                    },
                }
            } else if kind == Some("pong"@) {
                lemma_changes_none(r.events);
            } else if kind == Some("result"@) && id is Some {
                let p = s.req.pending;
                let i = super::client::waiting_at(p, id->0);
                super::session::lemma_waiting_at(p, id->0);
                if i < p.len() {
                    let t = SessionModel { req: RequestsModel { pending: p.remove(i), ..s.req }, ..s };
                    assert(r == super::session::on_reply(t, p[i].kind, v, d));
                    if p[i].kind.is_list() && r.events.len() > 0 {
                        let first = seq![r.events[0]];
                        assert(r.events == first + s.early);
                        lemma_changes_add(first, s.early);
                        lemma_changes_none(first);
                        lemma_changes_all(s.early);
                        assert(changes(r.events) =~= s.early);
                    } else {
                        lemma_changes_none(r.events);
                    }
                } else {
                    lemma_changes_none(r.events);
                }
            } else {
                lemma_changes_none(r.events);
            }
        },
        Happening::Sweep { after, now } => {
            lemma_failures_change_nothing(
                super::client::overdue_kinds(s.req.pending, after, now),
                "no reply from Home Assistant"@,
            );
        },
        _ => {
            lemma_changes_none(r.events);
        },
    }
    let new = match h {
        Happening::Message { v, d, .. } => if crate::json::text(crate::json::at(v, "type"@)) == Some("event"@) {
            match super::session::state_change(v, d.state()) {
                Some(ev) => seq![ev],
                None => Seq::empty(),
            }
        } else {
            Seq::empty()
        },
        _ => Seq::empty(),
    };
    assert(changes(r.events) + r.session.early =~= s.early + new);
}

/// No change of state is lost, doubled or put out of order: those told to the UI, followed by those
/// held back until the snapshot is in, are those that arrived.
pub proof fn law_changes_are_told_in_order(s: SessionModel, hs: Seq<Happening>)
    requires
        s.wf(),
        s.early.len() == 0,
    ensures
        changes(course(s, hs).events) + course(s, hs).session.early == arrived(s, hs),
    decreases hs.len(),
{
    reveal(Seq::filter);
    let r = course(s, hs);
    if hs.len() > 0 {
        let hs0 = hs.drop_last();
        law_changes_are_told_in_order(s, hs0);
        lemma_course(s, hs0);
        let b = course(s, hs0);
        if b.end is None {
            let one = step(b.session, hs.last());
            lemma_changes_add(b.events, one.events);
            lemma_step_changes(b.session, hs.last());
            assert(changes(r.events) + r.session.early =~= changes(b.events) + (changes(one.events) + one.session.early));
            assert(changes(r.events) + r.session.early =~= arrived(s, hs));
        }
    } else {
        assert(changes(r.events) + r.session.early =~= Seq::<EventModel>::empty());
    }
}

/// Before the snapshot is in, no change of state is told; the message that completes it tells the
/// snapshot first and then every change held back, in the order they arrived.
pub proof fn law_snapshot_comes_first(s: SessionModel, v: JsonModel, d: DecodedModel, now: u64)
    requires
        s.wf(),
        s.left > 0,
    ensures
        ({
            let r = super::session::on_message(s, v, d, now);
            &&& r.session.left > 0 || r.end is Some ==> changes(r.events) == Seq::<EventModel>::empty()
            &&& r.session.left == 0 && r.end is None ==> r.events.len() > 0 && r.events[0] is Snapshot && r.events.drop_first() == s.early
        }),
{
    let r = super::session::on_message(s, v, d, now);
    let kind = crate::json::text(crate::json::at(v, "type"@));
    let id = super::client::id_in(v);
    if kind == Some("event"@) || kind == Some("pong"@) {
        lemma_changes_none(r.events);
    } else if kind == Some("result"@) && id is Some {
        let p = s.req.pending;
        let i = super::client::waiting_at(p, id->0);
        super::session::lemma_waiting_at(p, id->0);
        if i < p.len() {
            super::session::lemma_lists_remove(p, i);
            let t = SessionModel { req: RequestsModel { pending: p.remove(i), ..s.req }, ..s };
            assert(r == super::session::on_reply(t, p[i].kind, v, d));
            if p[i].kind.is_list() && r.events.len() > 0 {
                assert(r.events == seq![r.events[0]] + s.early);
                assert(r.events.drop_first() =~= s.early);
            } else {
                lemma_changes_none(r.events);
            }
        } else {
            lemma_changes_none(r.events);
        }
    } else {
        lemma_changes_none(r.events);
    }
}

/// The snapshots among events.
pub open spec fn snapshots(evs: Seq<EventModel>) -> Seq<EventModel> {
    evs.filter(|ev: EventModel| ev is Snapshot)
}

/// Whether it is a reply that brings one of the snapshot's lists.
pub open spec fn brings_list(s: SessionModel, h: Happening) -> bool {
    match h {
        Happening::Message { v, d, .. } => {
            let id = super::client::id_in(v);
            let p = s.req.pending;
            &&& crate::json::text(crate::json::at(v, "type"@)) == Some("result"@)
            &&& id is Some && super::client::waiting_at(p, id->0) < p.len()
            &&& p[super::client::waiting_at(p, id->0)].kind.is_list()
            &&& crate::json::truth(crate::json::at(v, "success"@)) == Some(true)
            &&& super::session::filled(s.snapshot, p[super::client::waiting_at(p, id->0)].kind, d) is Ok
        },
        _ => false,
    }
}

/// How many of the snapshot's lists were brought to a session before it ended.
pub open spec fn lists_brought(s: SessionModel, hs: Seq<Happening>) -> int
    decreases hs.len(),
{
    if hs.len() == 0 {
        0
    } else {
        let so_far = course(s, hs.drop_last());
        lists_brought(s, hs.drop_last()) + if so_far.end is None && brings_list(so_far.session, hs.last()) { 1int } else { 0 }
    }
}

proof fn lemma_snapshots_none(evs: Seq<EventModel>)
    requires
        forall|i: int| 0 <= i < evs.len() ==> !(#[trigger] evs[i] is Snapshot),
    ensures
        snapshots(evs) == Seq::<EventModel>::empty(),
    decreases evs.len(),
{
    reveal(Seq::filter);
    if evs.len() > 0 {
        let t = evs.drop_last();
        assert forall|i: int| 0 <= i < t.len() implies !(#[trigger] t[i] is Snapshot) by {
            assert(t[i] == evs[i]);
        }
        lemma_snapshots_none(t);
        assert(!(evs[evs.len() - 1] is Snapshot));
    }
}

proof fn lemma_failures_are_outcomes(k: Seq<PendingModel>, why: Seq<char>)
    ensures
        forall|i: int| 0 <= i < super::session::failures(k, why).len() ==> {
            let ev = #[trigger] super::session::failures(k, why)[i];
            !(ev is Snapshot) && !(ev is StateChanged)
        },
    decreases k.len(),
{
    if k.len() > 0 {
        lemma_failures_are_outcomes(k.drop_last(), why);
    }
}

proof fn lemma_step_snapshot(s: SessionModel, h: Happening)
    requires
        s.wf(),
    ensures
        step(s, h).session.left == s.left - if brings_list(s, h) { 1int } else { 0 },
        brings_list(s, h) ==> s.left > 0 && step(s, h).end is None,
        s.left == 0 ==> step(s, h).session.early == s.early,
        snapshots(step(s, h).events).len() == if s.left > 0 && step(s, h).session.left == 0 { 1int } else { 0 },
        step(s, h).session.left > 0 ==> changes(step(s, h).events).len() == 0,
{
    reveal(Seq::filter);
    let r = step(s, h);
    match h {
        Happening::Message { v, d, now } => {
            let kind = crate::json::text(crate::json::at(v, "type"@));
            let id = super::client::id_in(v);
            reveal_strlit("event");
            reveal_strlit("pong");
            reveal_strlit("result");
            assert("event"@.len() == 5 && "pong"@.len() == 4 && "result"@.len() == 6);
            if kind == Some("result"@) && id is Some {
                let p = s.req.pending;
                let i = super::client::waiting_at(p, id->0);
                super::session::lemma_waiting_at(p, id->0);
                if i < p.len() {
                    super::session::lemma_lists_remove(p, i);
                    if p[i].kind.is_list() && r.events.len() > 0 {
                        assert(r.events.take(1) =~= seq![r.events[0]]);
                        assert(r.events =~= seq![r.events[0]] + s.early);
                        Seq::filter_distributes_over_add(seq![r.events[0]], s.early, |ev: EventModel| ev is Snapshot);
                        lemma_snapshots_none(s.early);
                        assert(seq![r.events[0]].drop_last() =~= Seq::<EventModel>::empty());
                        assert(snapshots(seq![r.events[0]]).len() == 1);
                        assert(snapshots(r.events) =~= snapshots(seq![r.events[0]]) + snapshots(s.early));
                    } else {
                        lemma_snapshots_none(r.events);
                        lemma_changes_none(r.events);
                    }
                } else {
                    lemma_snapshots_none(r.events);
                    lemma_changes_none(r.events);
                }
            } else {
                lemma_snapshots_none(r.events);
                if s.left > 0 {
                    lemma_changes_none(r.events);
                }
            }
        },
        Happening::Sweep { after, now } => {
            lemma_failures_are_outcomes(super::client::overdue_kinds(s.req.pending, after, now), "no reply from Home Assistant"@);
            lemma_snapshots_none(r.events);
            lemma_changes_none(r.events);
        },
        _ => {
            lemma_snapshots_none(r.events);
            lemma_changes_none(r.events);
        },
    }
}

/// A session tells one snapshot, at the moment the last of the four lists is in, and none before: until
/// then it tells no change of state either, and from then on every change that arrived was told.
pub proof fn law_one_snapshot(now: u64, hs: Seq<Happening>)
    ensures
        ({
            let s = super::session::started(now);
            let r = course(s, hs);
            &&& 0 <= lists_brought(s, hs) <= 4
            &&& r.session.left == 4 - lists_brought(s, hs)
            &&& snapshots(r.events).len() == if lists_brought(s, hs) == 4 { 1int } else { 0 }
            &&& lists_brought(s, hs) < 4 ==> changes(r.events).len() == 0
            &&& lists_brought(s, hs) == 4 && r.end is None ==> changes(r.events) == arrived(s, hs)
        }),
    decreases hs.len(),
{
    reveal(Seq::filter);
    let s = super::session::started(now);
    let r = course(s, hs);
    super::session::lemma_started(now);
    lemma_course(s, hs);
    law_changes_are_told_in_order(s, hs);
    if hs.len() > 0 {
        let hs0 = hs.drop_last();
        law_one_snapshot(now, hs0);
        lemma_course(s, hs0);
        let b = course(s, hs0);
        if b.end is None {
            let one = step(b.session, hs.last());
            lemma_step_snapshot(b.session, hs.last());
            lemma_changes_add(b.events, one.events);
            Seq::filter_distributes_over_add(b.events, one.events, |ev: EventModel| ev is Snapshot);
            assert(snapshots(r.events) == snapshots(b.events) + snapshots(one.events));
        }
    }
    if r.end is None && r.session.left == 0 {
        assert(changes(r.events) + r.session.early =~= changes(r.events));
    }
}

proof fn lemma_last_list(s: SessionModel, h: Happening)
    requires
        s.wf(),
        s.left > 0,
        step(s, h).session.left == 0,
    ensures
        step(s, h).end is None,
        step(s, h).events.len() > 0,
        step(s, h).events[0] is Snapshot,
        step(s, h).events.drop_first() == s.early,
{
    lemma_step_snapshot(s, h);
    if let Happening::Message { v, d, now } = h {
        law_snapshot_comes_first(s, v, d, now);
    }
}

/// One more thing that happens to a session that has not ended.
proof fn lemma_course_push(s: SessionModel, hs: Seq<Happening>, h: Happening)
    requires
        course(s, hs).end is None,
    ensures
        ({
            let one = step(course(s, hs).session, h);
            let r = course(s, hs.push(h));
            r.session == one.session && r.events == course(s, hs).events + one.events && r.end == one.end
        }),
{
    assert(hs.push(h).drop_last() =~= hs);
}

/// What brings the last of the four lists makes a session tell the snapshot and, directly after it, every
/// change of state that arrived before, in the order of their arrival. A change that arrives later is told
/// as it arrives.
pub proof fn law_changes_follow_the_snapshot(now: u64, hs: Seq<Happening>, h: Happening)
    requires
        course(super::session::started(now), hs).end is None,
    ensures
        ({
            let s = super::session::started(now);
            let b = course(s, hs);
            let r = course(s, hs.push(h));
            &&& lists_brought(s, hs) < 4 && lists_brought(s, hs.push(h)) == 4 ==> {
                &&& r.end is None
                &&& r.events.len() > b.events.len() && r.events[b.events.len() as int] is Snapshot
                &&& r.events == b.events.push(r.events[b.events.len() as int]) + arrived(s, hs)
            }
            &&& lists_brought(s, hs) == 4 ==> {
                &&& changes(b.events) == arrived(s, hs)
                &&& changes(r.events) == arrived(s, hs.push(h))
            }
        }),
{
    let s = super::session::started(now);
    let b = course(s, hs);
    let all = hs.push(h);
    let r = course(s, all);
    super::session::lemma_started(now);
    lemma_course(s, hs);
    lemma_course_push(s, hs, h);
    law_one_snapshot(now, hs);
    law_one_snapshot(now, all);
    law_changes_are_told_in_order(s, hs);
    law_changes_are_told_in_order(s, all);
    if lists_brought(s, hs) < 4 && lists_brought(s, all) == 4 {
        let told = step(b.session, h).events;
        lemma_last_list(b.session, h);
        assert(b.session.early =~= arrived(s, hs));
        assert(r.events =~= b.events.push(told[0]) + told.drop_first());
    } else if lists_brought(s, hs) == 4 {
        lemma_step_snapshot(b.session, h);
        assert(changes(b.events) + b.session.early =~= changes(b.events));
        assert(changes(r.events) + r.session.early =~= changes(r.events));
    }
}

/// Services are called only once the snapshot is in. Until then a call is answered at once, and
/// nothing of it is sent or kept for later.
pub proof fn law_no_service_before_the_snapshot(s: SessionModel, cmd: CommandModel, now: u64, date: TimeModel)
    requires
        cmd is CallService,
        s.left > 0,
    ensures
        super::session::on_command(s, Some(cmd), now, date).session == s,
        super::session::on_command(s, Some(cmd), now, date).events == seq![
            super::client::rejection(cmd, "still loading from Home Assistant"@)->0,
        ],
{
}

/// No registry is refetched before the snapshot is in.
pub proof fn law_no_refetch_before_the_snapshot(s: SessionModel, now: u64)
    requires
        s.wf(),
        s.left > 0,
    ensures
        super::session::refresh_due(s) is None,
        super::session::on_refresh(s, now) == s,
        forall|i: int| 0 <= i < s.req.pending.len() ==> !(#[trigger] s.req.pending[i].kind is Refresh),
{
}

/// A burst of changes to a registry leads to one refetch: a change that comes while the registry is
/// already stale alters nothing, and no change puts off when the refetch is due.
pub proof fn law_bursts_are_coalesced(s: SessionModel, v: JsonModel, now: u64)
    requires
        s.wf(),
        super::session::registry_change(v) is Some,
        super::session::state_change(v, None) is None,
    ensures
        ({
            let r = super::session::on_event(s, v, None, now).session;
            let changed = super::session::registry_change(v)->0;
            &&& s.stale.contains(changed) ==> r == s
            &&& s.refresh_at is Some ==> r.refresh_at == s.refresh_at
            &&& s.refresh_at is None ==> r.refresh_at == Some(super::session::debounced(now))
            &&& r.stale.contains(changed)
        }),
{
    let r = super::session::on_event(s, v, None, now).session;
    let changed = super::session::registry_change(v)->0;
    if s.stale.contains(changed) {
        assert(r =~= s);
    } else {
        assert(r.stale[s.stale.len() as int] == changed);
    }
}

/// A refetch asks once for each registry that is stale, and leaves none stale.
pub proof fn law_refetch_asks_once(s: SessionModel, now: u64)
    requires
        s.wf(),
        super::session::is_due(s, now),
    ensures
        ({
            let r = super::session::on_refresh(s, now);
            &&& r.stale.len() == 0 && r.refresh_at is None
            &&& r.req.pending.len() == s.req.pending.len() + s.stale.len()
            &&& forall|i: int| 0 <= i < s.stale.len() ==> #[trigger] r.req.pending[s.req.pending.len() + i].kind == PendingModel::Refresh(s.stale[i])
        }),
{
    lemma_refetch(s.req, s.stale, now);
}

proof fn lemma_refetch(r: RequestsModel, stale: Seq<super::client::Registry>, now: u64)
    ensures
        super::session::refetching(r, stale, now).pending.len() == r.pending.len() + stale.len(),
        forall|i: int| 0 <= i < stale.len() ==> #[trigger] super::session::refetching(r, stale, now).pending[r.pending.len() + i].kind == PendingModel::Refresh(stale[i]),
    decreases stale.len(),
{
    if stale.len() > 0 {
        lemma_refetch(r, stale.drop_last(), now);
        let b = super::session::refetching(r, stale.drop_last(), now);
        let t = super::session::refetching(r, stale, now);
        assert forall|i: int| 0 <= i < stale.len() implies #[trigger] t.pending[r.pending.len() + i].kind == PendingModel::Refresh(stale[i]) by {
            if i < stale.len() - 1 {
                assert(t.pending[r.pending.len() + i] == b.pending[r.pending.len() + i]);
                assert(stale.drop_last()[i] == stale[i]);
            }
        }
    }
}

// ----- What is sent ------------------------------------------------------------------------

/// The requests of `b` that were not sent yet in `a`, and whose replies are awaited.
pub open spec fn new_requests(a: RequestsModel, b: RequestsModel) -> Seq<WaitingModel> {
    b.pending.filter(|w: WaitingModel| w.id > a.next_id)
}

/// The requests that a session sent and awaited replies to, in order.
pub open spec fn sent(s: SessionModel, hs: Seq<Happening>) -> Seq<WaitingModel>
    decreases hs.len(),
{
    if hs.len() == 0 {
        Seq::empty()
    } else {
        let so_far = course(s, hs.drop_last());
        if so_far.end is Some {
            sent(s, hs.drop_last())
        } else {
            sent(s, hs.drop_last()) + new_requests(so_far.session.req, step(so_far.session, hs.last()).session.req)
        }
    }
}

/// The registries that requests ask for again.
pub open spec fn registries(p: Seq<WaitingModel>) -> Seq<super::client::Registry> {
    p.filter(|w: WaitingModel| w.kind is Refresh).map_values(|w: WaitingModel| w.kind->Refresh_0)
}

/// The registries that a session asked for again, in order.
pub open spec fn refetches(s: SessionModel, hs: Seq<Happening>) -> Seq<super::client::Registry> {
    registries(sent(s, hs))
}

/// The changes to registries that messages told a session of before it ended, with when, in order.
pub open spec fn named(s: SessionModel, hs: Seq<Happening>) -> Seq<(super::client::Registry, u64)>
    decreases hs.len(),
{
    if hs.len() == 0 {
        Seq::empty()
    } else if course(s, hs.drop_last()).end is Some {
        named(s, hs.drop_last())
    } else {
        let before = named(s, hs.drop_last());
        match hs.last() {
            Happening::Message { v, d, now } => if crate::json::text(crate::json::at(v, "type"@)) == Some("event"@)
                && super::session::state_change(v, d.state()) is None && super::session::registry_change(v) is Some {
                before.push((super::session::registry_change(v)->0, now))
            } else {
                before
            },
            _ => before,
        }
    }
}

proof fn lemma_keep_none<T>(p: Seq<T>, keep: spec_fn(T) -> bool)
    requires
        forall|i: int| 0 <= i < p.len() ==> !keep(#[trigger] p[i]),
    ensures
        p.filter(keep) == Seq::<T>::empty(),
    decreases p.len(),
{
    reveal(Seq::filter);
    if p.len() > 0 {
        let t = p.drop_last();
        assert forall|i: int| 0 <= i < t.len() implies !keep(#[trigger] t[i]) by {
            assert(t[i] == p[i]);
        }
        lemma_keep_none(t, keep);
        assert(!keep(p[p.len() - 1]));
    }
}

proof fn lemma_keep_all<T>(p: Seq<T>, keep: spec_fn(T) -> bool)
    requires
        forall|i: int| 0 <= i < p.len() ==> keep(#[trigger] p[i]),
    ensures
        p.filter(keep) == p,
    decreases p.len(),
{
    reveal(Seq::filter);
    if p.len() > 0 {
        let t = p.drop_last();
        assert forall|i: int| 0 <= i < t.len() implies keep(#[trigger] t[i]) by {
            assert(t[i] == p[i]);
        }
        lemma_keep_all(t, keep);
        assert(keep(p[p.len() - 1]));
        assert(t.push(p.last()) =~= p);
    } else {
        assert(p.filter(keep) =~= p);
    }
}

/// What is put behind the requests that were sent is new.
proof fn lemma_new(a: RequestsModel, b: RequestsModel, q: Seq<WaitingModel>)
    requires
        a.wf(),
        b.pending == a.pending + q,
        forall|i: int| 0 <= i < q.len() ==> (#[trigger] q[i]).id > a.next_id,
    ensures
        new_requests(a, b) == q,
{
    let new = |w: WaitingModel| w.id > a.next_id;
    Seq::filter_distributes_over_add(a.pending, q, new);
    lemma_keep_none(a.pending, new);
    lemma_keep_all(q, new);
    assert(a.pending.filter(new) + q.filter(new) =~= q);
}

/// The requests that refetch `stale`.
pub open spec fn refetch_requests(next_id: nat, stale: Seq<super::client::Registry>, now: u64) -> Seq<WaitingModel> {
    Seq::new(
        stale.len(),
        |i: int| WaitingModel { id: (next_id + 1 + i) as nat, kind: PendingModel::Refresh(stale[i]), sent: now },
    )
}

proof fn lemma_refetch_requests(r: RequestsModel, stale: Seq<super::client::Registry>, now: u64)
    requires
    ensures
        super::session::refetching(r, stale, now).pending == r.pending + refetch_requests(r.next_id, stale, now),
        super::session::refetching(r, stale, now).next_id == r.next_id + stale.len(),
    decreases stale.len(),
{
    if stale.len() > 0 {
        lemma_refetch_requests(r, stale.drop_last(), now);
        assert(refetch_requests(r.next_id, stale, now).drop_last() =~= refetch_requests(r.next_id, stale.drop_last(), now));
    }
    assert(super::session::refetching(r, stale, now).pending =~= r.pending + refetch_requests(r.next_id, stale, now));
}

/// Nothing is new among requests that were sent.
proof fn lemma_none_new(a: RequestsModel, b: RequestsModel)
    requires
        forall|i: int| 0 <= i < b.pending.len() ==> (#[trigger] b.pending[i]).id <= a.next_id,
    ensures
        new_requests(a, b) == Seq::<WaitingModel>::empty(),
        registries(new_requests(a, b)) == Seq::<super::client::Registry>::empty(),
        owed(new_requests(a, b)) == Multiset::<Ticket>::empty(),
{
    let new = new_requests(a, b);
    lemma_keep_none(b.pending, |w: WaitingModel| w.id > a.next_id);
    lemma_keep_none(new, |w: WaitingModel| w.kind is Refresh);
    assert(registries(new) =~= Seq::empty());
}

proof fn lemma_one_new(a: RequestsModel, b: RequestsModel, w: WaitingModel)
    requires
        a.wf(),
        b.pending == a.pending.push(w),
        w.id > a.next_id,
        !(w.kind is Refresh),
    ensures
        registries(new_requests(a, b)) == Seq::<super::client::Registry>::empty(),
        owed(new_requests(a, b)) == at_most(holds(w.kind)),
{
    let q = Seq::<WaitingModel>::empty().push(w);
    assert(b.pending =~= a.pending + q);
    lemma_new(a, b, q);
    lemma_alone(w);
}

proof fn lemma_alone(w: WaitingModel)
    requires
        !(w.kind is Refresh),
    ensures
        registries(Seq::<WaitingModel>::empty().push(w)) == Seq::<super::client::Registry>::empty(),
        owed(Seq::<WaitingModel>::empty().push(w)) == at_most(holds(w.kind)),
{
    let q = Seq::<WaitingModel>::empty().push(w);
    lemma_keep_none(q, |w: WaitingModel| w.kind is Refresh);
    assert(registries(q) =~= Seq::empty());
    lemma_owed_push(Seq::empty(), w);
    assert(owed(q) =~= at_most(holds(w.kind)));
}

proof fn lemma_command_sends(s: SessionModel, cmd: CommandModel, now: u64, date: TimeModel)
    requires
        s.wf(),
    ensures
        ({
            let new = new_requests(s.req, super::session::on_command(s, Some(cmd), now, date).session.req);
            &&& registries(new) == Seq::<super::client::Registry>::empty()
            &&& owed(new).subset_of(at_most(asks(cmd)))
        }),
{
    let a = s.req;
    let b = super::session::on_command(s, Some(cmd), now, date).session.req;
    if b.pending == a.pending {
        lemma_none_new(a, b);
    } else {
        lemma_one_new(a, b, b.pending.last());
    }
}

proof fn lemma_refresh_sends(s: SessionModel, now: u64)
    requires
        s.wf(),
    ensures
        ({
            let new = new_requests(s.req, super::session::on_refresh(s, now).req);
            &&& registries(new) == if super::session::is_due(s, now) { s.stale } else { Seq::empty() }
            &&& owed(new) == Multiset::<Ticket>::empty()
        }),
{
    let a = s.req;
    let b = super::session::on_refresh(s, now).req;
    super::session::lemma_three(s.stale);
    if super::session::is_due(s, now) {
        let q = refetch_requests(a.next_id, s.stale, now);
        lemma_refetch_requests(a, s.stale, now);
        lemma_new(a, b, q);
        lemma_refetch_asks(a.next_id, s.stale, now);
    } else {
        lemma_none_new(a, b);
    }
}

proof fn lemma_refetch_asks(next_id: nat, stale: Seq<super::client::Registry>, now: u64)
    ensures
        registries(refetch_requests(next_id, stale, now)) == stale,
        owed(refetch_requests(next_id, stale, now)) == Multiset::<Ticket>::empty(),
{
    let q = refetch_requests(next_id, stale, now);
    lemma_keep_all(q, |w: WaitingModel| w.kind is Refresh);
    assert(registries(q) =~= stale);
    lemma_owes_nothing(q);
}

proof fn lemma_message_sends(s: SessionModel, v: JsonModel, d: DecodedModel, now: u64)
    requires
        s.wf(),
    ensures
        forall|i: int| 0 <= i < super::session::on_message(s, v, d, now).session.req.pending.len() ==> (#[trigger] super::session::on_message(
            s,
            v,
            d,
            now,
        ).session.req.pending[i]).id <= s.req.next_id,
{
    let id = super::client::id_in(v);
    if id is Some {
        super::session::lemma_waiting_at(s.req.pending, id->0);
    }
}

/// A step sends a request for a command, one for each registry that is refetched, and else none.
proof fn lemma_step_sends(s: SessionModel, h: Happening)
    requires
        s.wf(),
    ensures
        ({
            let new = new_requests(s.req, step(s, h).session.req);
            match h {
                Happening::Command { cmd, .. } => {
                    &&& registries(new) == Seq::<super::client::Registry>::empty()
                    &&& owed(new).subset_of(at_most(asks(cmd)))
                },
                Happening::Refresh { now } => {
                    &&& registries(new) == if super::session::is_due(s, now) { s.stale } else { Seq::empty() }
                    &&& owed(new) == Multiset::<Ticket>::empty()
                },
                _ => new == Seq::<WaitingModel>::empty(),
            }
        }),
{
    let a = s.req;
    let b = step(s, h).session.req;
    match h {
        Happening::Command { cmd, now, date } => lemma_command_sends(s, cmd, now, date),
        Happening::Refresh { now } => lemma_refresh_sends(s, now),
        Happening::Message { v, d, now } => {
            lemma_message_sends(s, v, d, now);
            lemma_none_new(a, b);
        },
        Happening::Sweep { after, now } => {
            super::session::lemma_in_time(a.pending, after, now);
            assert forall|i: int| 0 <= i < b.pending.len() implies (#[trigger] b.pending[i]).id <= a.next_id by {
                assert(a.pending.contains(b.pending[i]));
            }
            lemma_none_new(a, b);
        },
        _ => lemma_none_new(a, b),
    }
}

proof fn lemma_owes_nothing(p: Seq<WaitingModel>)
    requires
        forall|i: int| 0 <= i < p.len() ==> (#[trigger] p[i]).kind is Refresh,
    ensures
        owed(p) == Multiset::<Ticket>::empty(),
    decreases p.len(),
{
    if p.len() > 0 {
        let t = p.drop_last();
        assert forall|i: int| 0 <= i < t.len() implies (#[trigger] t[i]).kind is Refresh by {
            assert(t[i] == p[i]);
        }
        lemma_owes_nothing(t);
        assert(p[p.len() - 1].kind is Refresh);
        assert(owed(p) =~= Multiset::<Ticket>::empty());
    }
}

proof fn lemma_registries_add(a: Seq<WaitingModel>, b: Seq<WaitingModel>)
    ensures
        registries(a + b) == registries(a) + registries(b),
{
    Seq::filter_distributes_over_add(a, b, |w: WaitingModel| w.kind is Refresh);
    assert(registries(a + b) =~= registries(a) + registries(b));
}

proof fn lemma_owed_add(a: Seq<WaitingModel>, b: Seq<WaitingModel>)
    ensures
        owed(a + b) =~= owed(a).add(owed(b)),
    decreases b.len(),
{
    if b.len() == 0 {
        assert(a + b =~= a);
    } else {
        assert((a + b).drop_last() =~= a + b.drop_last());
        lemma_owed_add(a, b.drop_last());
    }
}

/// Whatever a session sends for a command, it sends for one that reached that very session.
pub proof fn law_requests_are_for_own_commands(s: SessionModel, hs: Seq<Happening>)
    requires
        s.wf(),
    ensures
        owed(sent(s, hs)).subset_of(asked(s, hs)),
    decreases hs.len(),
{
    if hs.len() > 0 {
        let hs0 = hs.drop_last();
        law_requests_are_for_own_commands(s, hs0);
        lemma_course(s, hs0);
        let b = course(s, hs0);
        if b.end is None {
            let new = new_requests(b.session.req, step(b.session, hs.last()).session.req);
            lemma_step_sends(b.session, hs.last());
            lemma_owed_add(sent(s, hs0), new);
        }
    }
}

/// Whether a refetch is made when `h` happens: it was time for one.
pub open spec fn is_refetch(s: SessionModel, h: Happening) -> bool {
    h matches Happening::Refresh { now } && super::session::is_due(s, now)
}

/// Whether no refetch is made while `hs` happen.
pub open spec fn without_refetch(s: SessionModel, hs: Seq<Happening>) -> bool
    decreases hs.len(),
{
    hs.len() > 0 ==> without_refetch(s, hs.drop_last()) && !is_refetch(course(s, hs.drop_last()).session, hs.last())
}

proof fn lemma_burst(s: SessionModel, hs: Seq<Happening>)
    requires
        s.wf(),
        s.stale.len() == 0,
        without_refetch(s, hs),
    ensures
        refetches(s, hs) == Seq::<super::client::Registry>::empty(),
        course(s, hs).session.refresh_at == if named(s, hs).len() > 0 { Some(super::session::debounced(named(s, hs)[0].1)) } else { None },
        forall|reg: super::client::Registry| #[trigger] course(s, hs).session.stale.contains(reg) <==> exists|i: int|
            0 <= i < named(s, hs).len() && (#[trigger] named(s, hs)[i]).0 == reg,
    decreases hs.len(),
{
    if hs.len() > 0 {
        let hs0 = hs.drop_last();
        let h = hs.last();
        lemma_burst(s, hs0);
        lemma_course(s, hs0);
        let b = course(s, hs0);
        let n0 = named(s, hs0);
        let n = named(s, hs);
        if b.end is None {
            let one = step(b.session, h);
            lemma_step_sends(b.session, h);
            let new = new_requests(b.session.req, one.session.req);
            lemma_registries_add(sent(s, hs0), new);
            lemma_keep_none(Seq::<WaitingModel>::empty(), |w: WaitingModel| w.kind is Refresh);
            assert(registries(Seq::<WaitingModel>::empty()) =~= Seq::empty());
            assert(refetches(s, hs) =~= Seq::<super::client::Registry>::empty());
            lemma_step_stale(b.session, h);
            assert forall|reg: super::client::Registry| #[trigger] one.session.stale.contains(reg) <==> exists|i: int|
                0 <= i < n.len() && (#[trigger] n[i]).0 == reg by {
                if n != n0 {
                    let told = n.last();
                    assert(n[n.len() - 1] == told);
                    if b.session.stale.contains(reg) {
                        let i = choose|i: int| 0 <= i < n0.len() && (#[trigger] n0[i]).0 == reg;
                        assert(n[i].0 == reg);
                    }
                    if exists|i: int| 0 <= i < n.len() && (#[trigger] n[i]).0 == reg {
                        let i = choose|i: int| 0 <= i < n.len() && (#[trigger] n[i]).0 == reg;
                        if i < n0.len() {
                            assert(n0[i].0 == reg);
                        }
                    }
                }
            }
        }
    } else {
        lemma_keep_none(Seq::<WaitingModel>::empty(), |w: WaitingModel| w.kind is Refresh);
        assert(refetches(s, hs) =~= Seq::<super::client::Registry>::empty());
    }
}

/// Only a change to a registry makes one stale, short of a refetch.
proof fn lemma_step_stale(s: SessionModel, h: Happening)
    requires
        s.wf(),
        !is_refetch(s, h),
    ensures
        ({
            let t = step(s, h).session;
            let change = match h {
                Happening::Message { v, d, now } => if crate::json::text(crate::json::at(v, "type"@)) == Some("event"@)
                    && super::session::state_change(v, d.state()) is None {
                    super::session::registry_change(v)
                } else {
                    None
                },
                _ => None,
            };
            match change {
                Some(c) => {
                    &&& t.refresh_at == if s.refresh_at is Some { s.refresh_at } else { Some(super::session::debounced(h->Message_now)) }
                    &&& forall|reg: super::client::Registry| #[trigger] t.stale.contains(reg) <==> s.stale.contains(reg) || reg == c
                },
                None => t.stale == s.stale && t.refresh_at == s.refresh_at,
            }
        }),
{
    if let Happening::Message { v, d, now } = h {
        let t = step(s, h).session;
        if crate::json::text(crate::json::at(v, "type"@)) == Some("event"@) && super::session::state_change(v, d.state()) is None {
            if let Some(c) = super::session::registry_change(v) {
                if !s.stale.contains(c) {
                    assert(t.stale == s.stale.push(c));
                    assert forall|reg: super::client::Registry| #[trigger] t.stale.contains(reg) <==> s.stale.contains(reg) || reg == c by {
                        if s.stale.contains(reg) {
                            let i = choose|i: int| 0 <= i < s.stale.len() && s.stale[i] == reg;
                            assert(t.stale[i] == reg);
                        }
                        if t.stale.contains(reg) {
                            let i = choose|i: int| 0 <= i < t.stale.len() && t.stale[i] == reg;
                            if i < s.stale.len() {
                                assert(s.stale[i] == reg);
                            }
                        }
                        assert(t.stale[s.stale.len() as int] == c);
                    }
                }
            }
        }
    }
}

/// A burst of changes to registries leads to one refetch. From when nothing is stale, whatever happens
/// until a refetch: nothing is refetched meanwhile, and the refetch, made at `now`, asks exactly once for
/// each registry that a change named, for no other, not before the snapshot is in and not before the
/// time that the first change set. Then nothing is stale again.
pub proof fn law_burst(s: SessionModel, hs: Seq<Happening>, now: u64)
    requires
        s.wf(),
        s.stale.len() == 0,
        without_refetch(s, hs),
    ensures
        refetches(s, hs) == Seq::<super::client::Registry>::empty(),
        course(s, hs).end is None ==> {
            let r = course(s, hs).session;
            let all = hs.push(Happening::Refresh { now });
            if super::session::is_due(r, now) {
                &&& r.left == 0
                &&& named(s, hs).len() > 0 && super::session::debounced(named(s, hs)[0].1) <= now
                &&& refetches(s, all).no_duplicates()
                &&& forall|reg: super::client::Registry| #[trigger] refetches(s, all).contains(reg) <==> exists|i: int|
                    0 <= i < named(s, hs).len() && (#[trigger] named(s, hs)[i]).0 == reg
                &&& course(s, all).end is None && course(s, all).session.stale.len() == 0
            } else {
                refetches(s, all) == Seq::<super::client::Registry>::empty()
            }
        },
{
    let r = course(s, hs).session;
    let h = Happening::Refresh { now };
    let all = hs.push(h);
    lemma_burst(s, hs);
    lemma_course(s, hs);
    assert(all.drop_last() =~= hs);
    if course(s, hs).end is None {
        lemma_step_sends(r, h);
        let new = new_requests(r.req, step(r, h).session.req);
        lemma_registries_add(sent(s, hs), new);
        assert(refetches(s, all) =~= registries(new));
    }
}

/// The reply to a refetch is told once, as the list that it brings.
pub proof fn law_refetched_lists_are_told(s: SessionModel, v: JsonModel, d: DecodedModel, now: u64, i: int)
    requires
        s.wf(),
        0 <= i < s.req.pending.len(),
        s.req.pending[i].kind is Refresh,
        crate::json::text(crate::json::at(v, "type"@)) == Some("result"@),
        super::client::id_in(v) == Some(s.req.pending[i].id),
        crate::json::truth(crate::json::at(v, "success"@)) == Some(true),
        super::session::refetched(s.req.pending[i].kind->Refresh_0, d) is Some,
    ensures
        ({
            let r = super::session::on_message(s, v, d, now);
            &&& r.events == seq![EventModel::Registry(super::session::refetched(s.req.pending[i].kind->Refresh_0, d)->0)]
            &&& r.end is None
            &&& r.session.req.pending == s.req.pending.remove(i)
        }),
{
    let p = s.req.pending;
    reveal_strlit("event");
    reveal_strlit("pong");
    reveal_strlit("result");
    assert("event"@.len() == 5 && "pong"@.len() == 4 && "result"@.len() == 6);
    super::session::lemma_waiting_at(p, p[i].id);
    super::session::lemma_waiting_found(p, i);
}

// ----- Whole runs ----------------------------------------------------------------------------

/// A stretch of a run of the client: one without a session and the commands that came in it, or a
/// session from its start to its end.
pub enum Stretch {
    Without { idle: super::reconnect::Idle, cmds: Seq<CommandModel> },
    Session { start: u64, hs: Seq<Happening>, end: EndModel },
}

/// The outcomes of commands that come while there is no session.
pub open spec fn told_idle(idle: super::reconnect::Idle, cmds: Seq<CommandModel>) -> Seq<EventModel>
    decreases cmds.len(),
{
    if cmds.len() == 0 {
        Seq::empty()
    } else {
        match super::reconnect::without_session(idle, Some(cmds.last())) {
            super::reconnect::IdleModel::Answer(Some(ev)) => told_idle(idle, cmds.drop_last()).push(ev),
            _ => told_idle(idle, cmds.drop_last()),
        }
    }
}

/// The tickets of commands.
pub open spec fn asked_idle(cmds: Seq<CommandModel>) -> Multiset<Ticket>
    decreases cmds.len(),
{
    if cmds.len() == 0 {
        Multiset::empty()
    } else {
        asked_idle(cmds.drop_last()).add(at_most(asks(cmds.last())))
    }
}

/// The events told in a stretch.
pub open spec fn told_in(t: Stretch) -> Seq<EventModel> {
    match t {
        Stretch::Without { idle, cmds } => told_idle(idle, cmds),
        Stretch::Session { start, hs, end } => {
            let r = course(super::session::started(start), hs);
            r.events + super::session::leftovers(r.session, end)
        },
    }
}

/// The tickets of the commands that came in a stretch.
pub open spec fn asked_in(t: Stretch) -> Multiset<Ticket> {
    match t {
        Stretch::Without { cmds, .. } => asked_idle(cmds),
        Stretch::Session { start, hs, .. } => asked(super::session::started(start), hs),
    }
}

/// The events told in a run.
pub open spec fn told_throughout(ts: Seq<Stretch>) -> Seq<EventModel>
    decreases ts.len(),
{
    if ts.len() == 0 {
        Seq::empty()
    } else {
        told_throughout(ts.drop_last()) + told_in(ts.last())
    }
}

/// The tickets of the commands that came in a run.
pub open spec fn asked_throughout(ts: Seq<Stretch>) -> Multiset<Ticket>
    decreases ts.len(),
{
    if ts.len() == 0 {
        Multiset::empty()
    } else {
        asked_throughout(ts.drop_last()).add(asked_in(ts.last()))
    }
}

proof fn lemma_idle_settles(idle: super::reconnect::Idle, cmds: Seq<CommandModel>)
    ensures
        settled(told_idle(idle, cmds)) == asked_idle(cmds),
    decreases cmds.len(),
{
    if cmds.len() > 0 {
        lemma_idle_settles(idle, cmds.drop_last());
        law_idle_settles(idle, cmds.last());
        if let super::reconnect::IdleModel::Answer(Some(ev)) = super::reconnect::without_session(idle, Some(cmds.last())) {
            lemma_settled_push(told_idle(idle, cmds.drop_last()), ev);
        }
        assert(settled(told_idle(idle, cmds)) =~= asked_idle(cmds));
    }
}

proof fn lemma_stretch(t: Stretch)
    ensures
        settled(told_in(t)) == asked_in(t),
        t matches Stretch::Session { start, hs, .. } ==> owed(sent(super::session::started(start), hs)).subset_of(asked_in(t)),
{
    match t {
        Stretch::Without { idle, cmds } => lemma_idle_settles(idle, cmds),
        Stretch::Session { start, hs, end } => {
            let s = super::session::started(start);
            super::session::lemma_started(start);
            law_nothing_owed_at_start(start);
            law_every_command_gets_one_outcome(s, hs, end);
            law_requests_are_for_own_commands(s, hs);
        },
    }
}

/// Over a whole run, through any number of connections, every command gets exactly one outcome, and it
/// gets it in the stretch in which it came. A session starts with nothing of earlier ones, and what it
/// sends for commands it sends for those that reached it, so no command is sent on a later connection.
pub proof fn law_every_command_of_a_run_gets_one_outcome(ts: Seq<Stretch>)
    ensures
        settled(told_throughout(ts)) == asked_throughout(ts),
        forall|i: int| 0 <= i < ts.len() ==> settled(told_in(#[trigger] ts[i])) == asked_in(ts[i]),
        forall|i: int| 0 <= i < ts.len() ==> ((#[trigger] ts[i]) matches Stretch::Session { start, hs, .. } ==> owed(
            sent(super::session::started(start), hs),
        ).subset_of(asked_in(ts[i]))),
    decreases ts.len(),
{
    assert forall|i: int| 0 <= i < ts.len() implies settled(told_in(#[trigger] ts[i])) == asked_in(ts[i]) by {
        lemma_stretch(ts[i]);
    }
    assert forall|i: int| 0 <= i < ts.len() implies ((#[trigger] ts[i]) matches Stretch::Session { start, hs, .. } ==> owed(
        sent(super::session::started(start), hs),
    ).subset_of(asked_in(ts[i]))) by {
        lemma_stretch(ts[i]);
    }
    if ts.len() > 0 {
        let rest = ts.drop_last();
        let t = ts.last();
        law_every_command_of_a_run_gets_one_outcome(rest);
        lemma_stretch(t);
        lemma_settled_add(told_throughout(rest), told_in(t));
        assert(settled(told_throughout(ts)) =~= asked_throughout(ts));
    }
}

/// A ping that goes unanswered until the next is due ends the session; one that was answered does
/// not.
pub proof fn law_unanswered_ping_ends_the_session(s: SessionModel, v: JsonModel, d: DecodedModel, now: u64)
    requires
        s.ping is None,
        crate::json::text(crate::json::at(v, "type"@)) == Some("pong"@),
    ensures
        ({
            let sent = super::session::on_ping(s);
            &&& sent.end is None && super::session::on_ping(sent.session).end is Some
            &&& super::client::id_in(v) == sent.session.ping ==>
                super::session::on_ping(super::session::on_message(sent.session, v, d, now).session).end is None
        }),
{
    reveal_strlit("pong");
    reveal_strlit("event");
    assert("pong"@.len() != "event"@.len());
}

} // verus!
