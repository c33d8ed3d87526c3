//! Before and between sessions: the handshake, what becomes of a connection that ended, and of the
//! commands that come while there is none.

use super::client::{asking, put, reject};
use super::client::{CommandModel, EndModel, EventModel, StatusModel};
use super::client::{ConnStatus, HaCommand, HaEvent, SessionEnd, BACKOFF_MAX, BACKOFF_MIN};
use crate::json::{Json, JsonModel};
use crate::text;
use crate::text::same;
use vstd::prelude::*;

verus! {

// ----- Handshake ----------------------------------------------------------------------

/// What a message means while the connection is being authenticated.
#[derive(Debug, PartialEq)]
pub enum AuthStep {
    /// The token is asked for.
    SendToken,
    /// The token was accepted by this version of Home Assistant.
    Accepted(String),
    /// The token was refused.
    Refused(SessionEnd),
    /// It is of no interest.
    Ignored,
}

/// What an [`AuthStep`] stands for.
pub enum AuthModel {
    SendToken,
    Accepted(Seq<char>),
    Refused(EndModel),
    Ignored,
}

impl View for AuthStep {
    type V = AuthModel;

    open spec fn view(&self) -> AuthModel {
        match self {
            AuthStep::SendToken => AuthModel::SendToken,
            AuthStep::Accepted(v) => AuthModel::Accepted(v@),
            AuthStep::Refused(end) => AuthModel::Refused(end@),
            AuthStep::Ignored => AuthModel::Ignored,
        }
    }
}

/// The text under `k`, or else `other`.
pub open spec fn text_or(v: JsonModel, k: Seq<char>, other: Seq<char>) -> Seq<char> {
    match crate::json::text(crate::json::at(v, k)) {
        Some(s) => s,
        None => other,
    }
}

/// What a message means while the connection is being authenticated.
pub open spec fn authenticating(v: JsonModel) -> AuthModel {
    let kind = crate::json::text(crate::json::at(v, "type"@));
    if kind == Some("auth_required"@) {
        AuthModel::SendToken
    } else if kind == Some("auth_ok"@) {
        AuthModel::Accepted(text_or(v, "ha_version"@, "?"@))
    } else if kind == Some("auth_invalid"@) {
        AuthModel::Refused(EndModel::AuthFailed(text_or(v, "message"@, "invalid token"@)))
    } else {
        AuthModel::Ignored
    }
}

/// What a message means while the connection is being authenticated.
pub fn on_auth_message(v: &Json) -> (r: AuthStep)
    ensures
        r@ == authenticating(v@),
{
    match v.text_at("type") {
        Some(t) => if same(t, "auth_required") {
            AuthStep::SendToken
        } else if same(t, "auth_ok") {
            AuthStep::Accepted(match v.text_at("ha_version") { Some(s) => s, None => "?" }.to_owned())
        } else if same(t, "auth_invalid") {
            let m = match v.text_at("message") { Some(s) => s, None => "invalid token" }.to_owned();
            AuthStep::Refused(SessionEnd::AuthFailed(m))
        } else {
            AuthStep::Ignored
        },
        None => AuthStep::Ignored,
    }
}

/// The message that hands a token over.
pub open spec fn handing_over(token: Seq<char>) -> JsonModel {
    JsonModel::Object(crate::strmap::put(super::client::ask("auth"@), "access_token"@, JsonModel::Text(token)))
}

/// The message that hands the token over.
pub fn auth_message(token: &str) -> (r: Json)
    ensures
        r@ == JsonModel::Object(
            crate::strmap::put(super::client::ask("auth"@), "access_token"@, JsonModel::Text(token@)),
        ),
        r@ == handing_over(token@),
{
    Json::object(put(asking("auth"), "access_token", Json::text(token.to_owned())))
}

/// What can go wrong on the socket.
#[derive(Debug, PartialEq)]
pub enum Trouble {
    /// The connection could not be opened.
    Connect(String),
    /// Opening it and authenticating took too long.
    ConnectTimeout,
    /// It was closed before it was authenticated.
    ClosedInAuth,
    /// A message could not be read before it was authenticated.
    BadAuthMessage(String),
    /// Reading or writing failed.
    Socket(String),
    /// Writing took too long.
    WriteTimeout,
    /// The server closed it, perhaps saying why.
    Closed(Option<String>),
    /// It broke off.
    Lost,
}

/// The error that a trouble on the socket is reported as.
pub open spec fn trouble(t: Trouble) -> Seq<char> {
    match t {
        Trouble::Connect(e) => "connect: "@ + e@,
        Trouble::ConnectTimeout => "timed out connecting"@,
        Trouble::ClosedInAuth => "closed during auth"@,
        Trouble::BadAuthMessage(e) => "bad auth message: "@ + e@,
        Trouble::Socket(e) => e@,
        Trouble::WriteTimeout => "timed out writing to Home Assistant"@,
        Trouble::Closed(Some(why)) => text::trimmed("server closed connection "@ + why@),
        Trouble::Closed(None) => text::trimmed("server closed connection "@ + Seq::empty()),
        Trouble::Lost => "connection lost"@,
    }
}

/// How a session ends on a trouble on the socket.
pub fn on_trouble(t: Trouble) -> (r: SessionEnd)
    ensures
        r@ == EndModel::Error(trouble(t)),
{
    SessionEnd::Error(
        match t {
            Trouble::Connect(e) => text::cat2("connect: ", e.as_str()),
            Trouble::ConnectTimeout => "timed out connecting".to_owned(),
            Trouble::ClosedInAuth => "closed during auth".to_owned(),
            Trouble::BadAuthMessage(e) => text::cat2("bad auth message: ", e.as_str()),
            Trouble::Socket(e) => e,
            Trouble::WriteTimeout => "timed out writing to Home Assistant".to_owned(),
            Trouble::Closed(why) => {
                let why = match why {
                    Some(why) => why,
                    None => String::new(),
                };
                let all = text::cat2("server closed connection ", why.as_str());
                text::trim(all.as_str()).to_owned()
            },
            Trouble::Lost => "connection lost".to_owned(),
        },
    )
}

// ----- After a session -----------------------------------------------------------------

/// How long to wait before the next attempt to connect.
#[derive(Debug)]
pub struct Reconnect {
    pub backoff: u64,
}

/// What to do after a session.
#[derive(Debug, PartialEq)]
pub enum Next {
    /// Stop: the UI is gone.
    Stop,
    /// Tell the UI that the token was refused, and never reconnect.
    Refuse(HaEvent),
    /// Connect again at once.
    Retry,
    /// Tell the UI, and connect again after `delay`.
    Wait { event: HaEvent, delay: u64 },
}

/// What a [`Next`] stands for.
pub enum NextModel {
    Stop,
    Refuse(EventModel),
    Retry,
    Wait { event: EventModel, delay: u64 },
}

impl View for Next {
    type V = NextModel;

    open spec fn view(&self) -> NextModel {
        match self {
            Next::Stop => NextModel::Stop,
            Next::Refuse(ev) => NextModel::Refuse(ev@),
            Next::Retry => NextModel::Retry,
            Next::Wait { event, delay } => NextModel::Wait { event: event@, delay: *delay },
        }
    }
}

/// Whether a delay is one that is used.
pub open spec fn is_backoff(b: u64) -> bool {
    BACKOFF_MIN <= b <= BACKOFF_MAX
}

/// The delay after `b`: twice as long, up to a limit.
pub open spec fn longer(b: u64) -> u64 {
    if b * 2 > BACKOFF_MAX {
        BACKOFF_MAX
    } else {
        (b * 2) as u64
    }
}

/// The delay that a session that ended with an error is waited after.
pub open spec fn delay(backoff: u64, was_connected: bool) -> u64 {
    if was_connected {
        BACKOFF_MIN
    } else {
        backoff
    }
}

/// What to do after a session, and the backoff from then on.
pub open spec fn after_session(backoff: u64, end: EndModel, was_connected: bool) -> (NextModel, u64) {
    match end {
        EndModel::Shutdown => (NextModel::Stop, backoff),
        EndModel::AuthFailed(m) => (NextModel::Refuse(EventModel::Status(StatusModel::AuthFailed(m))), backoff),
        EndModel::Resync => (NextModel::Retry, BACKOFF_MIN),
        EndModel::Error(error) => {
            let delay = delay(backoff, was_connected);
            (
                NextModel::Wait {
                    event: EventModel::Status(StatusModel::Disconnected { error, retry_in: delay }),
                    delay,
                },
                longer(delay),
            )
        },
    }
}

impl Reconnect {
    pub fn new() -> (r: Reconnect)
        ensures
            r.backoff == BACKOFF_MIN,
            is_backoff(r.backoff),
    {
        Reconnect { backoff: BACKOFF_MIN }
    }

    /// Decide what to do after a session. `was_connected` tells whether it was authenticated.
    pub fn after(&mut self, end: SessionEnd, was_connected: bool) -> (r: Next)
        requires
            is_backoff(old(self).backoff),
        ensures
            (r@, final(self).backoff) == after_session(old(self).backoff, end@, was_connected),
            is_backoff(final(self).backoff),
    {
        match end {
            SessionEnd::Shutdown => Next::Stop,
            SessionEnd::AuthFailed(m) => Next::Refuse(HaEvent::Status(ConnStatus::AuthFailed(m))),
            SessionEnd::Resync => {
                self.backoff = BACKOFF_MIN;
                Next::Retry
            },
            SessionEnd::Error(error) => {
                if was_connected {
                    self.backoff = BACKOFF_MIN;
                }
                let delay: u64 = self.backoff;
                self.backoff = if delay * 2 > BACKOFF_MAX { BACKOFF_MAX } else { delay * 2 };
                Next::Wait {
                    event: HaEvent::Status(ConnStatus::Disconnected { error, retry_in: delay }),
                    delay,
                }
            },
        }
    }
}

/// What there is in place of a session.
#[derive(Debug, Clone, Copy, PartialEq, Eq, Structural)]
pub enum Idle {
    /// Connecting and authenticating.
    Connecting,
    /// Waiting before the next attempt.
    Waiting,
    /// The token was refused.
    Refused,
}

/// What a command leads to while there is no session.
#[derive(Debug, PartialEq)]
pub enum IdleStep {
    /// Stop: the UI is gone.
    Stop,
    /// Connect at once.
    Retry,
    /// The outcome of the command, if it has one. Nothing is replayed later.
    Answer(Option<HaEvent>),
}

/// What an [`IdleStep`] stands for.
pub enum IdleModel {
    Stop,
    Retry,
    Answer(Option<EventModel>),
}

impl View for IdleStep {
    type V = IdleModel;

    open spec fn view(&self) -> IdleModel {
        match self {
            IdleStep::Stop => IdleModel::Stop,
            IdleStep::Retry => IdleModel::Retry,
            IdleStep::Answer(ev) => IdleModel::Answer(ev.deep_view()),
        }
    }
}

/// What a command leads to while there is no session; `None` is the end of the commands.
pub open spec fn without_session(idle: Idle, cmd: Option<CommandModel>) -> IdleModel {
    match cmd {
        None => IdleModel::Stop,
        Some(cmd) => match idle {
            Idle::Waiting => if cmd is Resync {
                IdleModel::Retry
            } else {
                IdleModel::Answer(super::client::rejection(cmd, "not connected"@))
            },
            Idle::Connecting => IdleModel::Answer(super::client::rejection(cmd, "not connected"@)),
            Idle::Refused => IdleModel::Answer(super::client::rejection(cmd, "authentication failed"@)),
        },
    }
}

/// Handle a command while there is no session; `None` is the end of the commands.
pub fn on_idle_command(idle: Idle, cmd: Option<HaCommand>) -> (r: IdleStep)
    ensures
        r@ == without_session(idle, cmd.deep_view()),
{
    match cmd {
        None => IdleStep::Stop,
        Some(cmd) => match idle {
            Idle::Waiting => match cmd {
                HaCommand::Resync => IdleStep::Retry,
                cmd => IdleStep::Answer(reject(cmd, "not connected")),
            },
            Idle::Connecting => IdleStep::Answer(reject(cmd, "not connected")),
            Idle::Refused => IdleStep::Answer(reject(cmd, "authentication failed")),
        },
    }
}

/// Delays grow from the least to the greatest and never leave that range; a connection that was
/// authenticated starts them over.
pub proof fn law_backoff(backoff: u64, end: EndModel, was_connected: bool)
    requires
        is_backoff(backoff),
    ensures
        is_backoff(after_session(backoff, end, was_connected).1),
        end is Error ==> {
            let (next, later) = after_session(backoff, end, was_connected);
            &&& next is Wait && is_backoff(next->delay)
            &&& was_connected ==> next->delay == BACKOFF_MIN
            &&& !was_connected ==> next->delay == backoff
            &&& next->delay <= later
            &&& later == next->delay * 2 || later == BACKOFF_MAX
        },
        end is Resync ==> after_session(backoff, end, was_connected) == (NextModel::Retry, BACKOFF_MIN),
{
}

/// The backoff after `k` failures in a row, none of them of a session that was authenticated.
pub open spec fn streak(k: nat) -> u64
    decreases k,
{
    if k == 0 {
        BACKOFF_MIN
    } else {
        after_session(streak((k - 1) as nat), EndModel::Error(Seq::empty()), false).1
    }
}

/// The delay after `k` failures in a row is a second doubled `k` times, up to the limit. A failure of a
/// session that was authenticated counts as the first.
pub proof fn law_delays_double(k: nat, error: Seq<char>, backoff: u64)
    ensures
        ({
            let doubled = vstd::arithmetic::power2::pow2(k) * BACKOFF_MIN;
            let (next, later) = after_session(streak(k), EndModel::Error(error), false);
            &&& next is Wait
            &&& next->delay == if doubled < BACKOFF_MAX { doubled as u64 } else { BACKOFF_MAX }
            &&& later == streak(k + 1)
        }),
        after_session(backoff, EndModel::Error(error), true) == after_session(streak(0), EndModel::Error(error), false),
    decreases k,
{
    if k > 0 {
        law_delays_double((k - 1) as nat, error, backoff);
        vstd::arithmetic::power2::lemma_pow2_unfold(k);
    } else {
        vstd::arithmetic::power2::lemma2_to64();
    }
}

} // verus!
