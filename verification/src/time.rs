//! Points in time, to the nanosecond, in UTC.

use chrono::{DateTime, TimeZone, Utc};
use vstd::prelude::*;

verus! {

/// The first second that a calendar date can be given for.
pub const FIRST_SECOND: i64 = -8334601228800;

/// The last second that a calendar date can be given for.
pub const LAST_SECOND: i64 = 8210266876799;

/// What a [`Timestamp`] stands for: the seconds since 1970 and the nanoseconds after them. During
/// a leap second the nanoseconds run on past a whole second.
pub struct TimeModel {
    pub secs: int,
    pub nanos: int,
}

/// Whether a calendar date can be given for the seconds, and the nanoseconds belong to a second.
pub open spec fn datable(t: TimeModel) -> bool {
    &&& FIRST_SECOND <= t.secs <= LAST_SECOND
    &&& 0 <= t.nanos < 2_000_000_000
    &&& t.nanos >= 1_000_000_000 ==> t.secs % 60 == 59
}

/// Whether `a` comes before `b`.
pub open spec fn sooner(a: TimeModel, b: TimeModel) -> bool {
    a.secs < b.secs || (a.secs == b.secs && a.nanos < b.nanos)
}

/// A point in time.
#[derive(Debug, Clone, Copy, PartialEq, Eq)]
pub struct Timestamp {
    secs: i64,
    nanos: u32,
}

impl View for Timestamp {
    type V = TimeModel;

    closed spec fn view(&self) -> TimeModel {
        TimeModel { secs: self.secs as int, nanos: self.nanos as int }
    }
}

impl DeepView for Timestamp {
    type V = TimeModel;

    open spec fn deep_view(&self) -> TimeModel {
        self@
    }
}

impl Timestamp {
    #[verifier::type_invariant]
    spec fn has_date(self) -> bool {
        datable(self@)
    }

    /// The point `nanos` nanoseconds after the second `secs`, where that is one.
    pub fn new(secs: i64, nanos: u32) -> (r: Option<Timestamp>)
        ensures
            match r {
                Some(t) => t@ == (TimeModel { secs: secs as int, nanos: nanos as int }) && datable(t@),
                None => !datable(TimeModel { secs: secs as int, nanos: nanos as int }),
            },
    {
        if secs < FIRST_SECOND || LAST_SECOND < secs || nanos >= 2_000_000_000 {
            return None;
        }
        if nanos >= 1_000_000_000 {
            let moved: i64 = secs + 8334601228800;
            assert(moved % 60 == secs % 60);
            if moved % 60 != 59 {
                return None;
            }
        }
        Some(Timestamp { secs, nanos })
    }

    /// The seconds since 1970.
    pub fn secs(&self) -> (r: i64)
        ensures
            r == self@.secs,
            FIRST_SECOND <= r <= LAST_SECOND,
    {
        proof {
            use_type_invariant(self);
        }
        self.secs
    }

    /// The nanoseconds after [`Timestamp::secs`].
    pub fn nanos(&self) -> (r: u32)
        ensures
            r == self@.nanos,
            r < 2_000_000_000,
    {
        proof {
            use_type_invariant(self);
        }
        self.nanos
    }

    /// Whether `self` comes before `other`.
    pub fn before(&self, other: &Timestamp) -> (r: bool)
        ensures
            r == sooner(self@, other@),
    {
        self.secs < other.secs || (self.secs == other.secs && self.nanos < other.nanos)
    }

    /// The point given by a number of microseconds since 1970.
    pub fn from_micros(micros: i64) -> (r: Option<Timestamp>)
        ensures
            r.deep_view() == at_micros(micros as int),
    {
        match date_of_micros(micros) {
            Some((secs, nanos)) => Some(Timestamp { secs, nanos }),
            None => None,
        }
    }

    /// The point that an RFC 3339 text gives.
    pub fn parse(s: &str) -> (r: Option<Timestamp>)
        ensures
            r.deep_view() == rfc3339_point(s@),
    {
        match parse_rfc3339(s) {
            Some((secs, nanos)) => {
                let t = Timestamp { secs, nanos };
                assert(t@ == (TimeModel { secs: secs as int, nanos: nanos as int }));
                Some(t)
            },
            None => None,
        }
    }

    /// The point as an RFC 3339 text.
    pub fn to_rfc3339(&self) -> (r: String)
        ensures
            r@ == rfc3339_text(self@),
    {
        proof {
            use_type_invariant(self);
        }
        write_rfc3339(self.secs, self.nanos)
    }

    /// The whole seconds from `other` to `self`; negative where `other` is the later of the two.
    pub fn seconds_since(&self, other: &Timestamp) -> (r: i64)
        ensures
            r == seconds_from(other@, self@),
    {
        proof {
            use_type_invariant(self);
            use_type_invariant(other);
        }
        elapsed_seconds(other.secs, other.nanos, self.secs, self.nanos)
    }

    /// The point `secs` seconds later, or the latest there is.
    pub fn later(&self, secs: u64) -> (r: Timestamp)
        ensures
            r@ == seconds_after(self@, secs as int),
    {
        proof {
            use_type_invariant(self);
        }
        if secs == 0 {
            return *self;
        }
        let nanos: u32 = if self.nanos >= 1_000_000_000 { self.nanos - 1_000_000_000 } else { self.nanos };
        let room: i64 = LAST_SECOND - self.secs;
        if secs > room as u64 {
            Timestamp { secs: LAST_SECOND, nanos }
        } else {
            Timestamp { secs: self.secs + secs as i64, nanos }
        }
    }

    /// The point `hours` hours earlier, or the earliest there is.
    pub fn earlier(&self, hours: u32) -> (r: Timestamp)
        ensures
            r@ == hours_before(self@, hours as int),
    {
        proof {
            use_type_invariant(self);
        }
        let leap = self.nanos >= 1_000_000_000;
        let secs: i64 = if leap { self.secs + 1 } else { self.secs } - 3600 * hours as i64;
        let nanos: u32 = if leap { self.nanos - 1_000_000_000 } else { self.nanos };
        if secs < FIRST_SECOND {
            Timestamp { secs: FIRST_SECOND, nanos: 0 }
        } else if LAST_SECOND < secs {
            Timestamp { secs: LAST_SECOND, nanos }
        } else {
            Timestamp { secs, nanos }
        }
    }
}

/// The point `secs` seconds after `t`, or the latest there is. A leap second does not count.
pub open spec fn seconds_after(t: TimeModel, secs: int) -> TimeModel {
    if secs == 0 {
        t
    } else {
        let nanos = if t.nanos >= 1_000_000_000 { t.nanos - 1_000_000_000 } else { t.nanos };
        TimeModel { secs: if t.secs + secs > LAST_SECOND { LAST_SECOND as int } else { t.secs + secs }, nanos }
    }
}

/// The point `hours` hours before `t`, or the earliest there is. A leap second counts as the second
/// after it.
pub open spec fn hours_before(t: TimeModel, hours: int) -> TimeModel {
    let leap = t.nanos >= 1_000_000_000;
    let secs = (if leap { t.secs + 1 } else { t.secs }) - 3600 * hours;
    let nanos = if leap { t.nanos - 1_000_000_000 } else { t.nanos };
    if secs < FIRST_SECOND {
        TimeModel { secs: FIRST_SECOND as int, nanos: 0 }
    } else if secs > LAST_SECOND {
        TimeModel { secs: LAST_SECOND as int, nanos }
    } else {
        TimeModel { secs, nanos }
    }
}

/// The point given by a number of microseconds since 1970, where it has a date.
pub open spec fn at_micros(micros: int) -> Option<TimeModel> {
    let t = TimeModel { secs: micros / 1_000_000, nanos: micros % 1_000_000 * 1000 };
    if datable(t) {
        Some(t)
    } else {
        None
    }
}

/// chrono's `TimeZone::timestamp_micros`, on UTC: whole seconds rounded down and the rest as
/// nanoseconds, and nothing where chrono has no date for the second.
#[verifier::external_body]
fn date_of_micros(micros: i64) -> (r: Option<(i64, u32)>)
    ensures
        match r {
            Some(p) => at_micros(micros as int) == Some(TimeModel { secs: p.0 as int, nanos: p.1 as int }),
            None => at_micros(micros as int) is None,
        },
{
    Utc.timestamp_micros(micros).single().map(|d| (d.timestamp(), d.timestamp_subsec_nanos()))
}

/// The point that chrono reads from an RFC 3339 text.
pub uninterp spec fn rfc3339_point(s: Seq<char>) -> Option<TimeModel>;

/// chrono's `DateTime::parse_from_rfc3339`, the result moved to UTC. Which texts it takes is left
/// unsaid; what it gives has a date.
#[verifier::external_body]
fn parse_rfc3339(s: &str) -> (r: Option<(i64, u32)>)
    ensures
        match r {
            Some(p) => rfc3339_point(s@) == Some(TimeModel { secs: p.0 as int, nanos: p.1 as int }) && datable(TimeModel { secs: p.0 as int, nanos: p.1 as int }),
            None => rfc3339_point(s@) is None,
        },
{
    DateTime::parse_from_rfc3339(s).ok().map(|d| d.with_timezone(&Utc)).map(|d| (d.timestamp(), d.timestamp_subsec_nanos()))
}

/// The RFC 3339 text that chrono writes for a point.
pub uninterp spec fn rfc3339_text(t: TimeModel) -> Seq<char>;

/// chrono's `DateTime::to_rfc3339`, on UTC. The form of the text is left unsaid.
#[verifier::external_body]
fn write_rfc3339(secs: i64, nanos: u32) -> (r: String)
    requires
        datable(TimeModel { secs: secs as int, nanos: nanos as int }),
    ensures
        r@ == rfc3339_text(TimeModel { secs: secs as int, nanos: nanos as int }),
{
    DateTime::from_timestamp(secs, nanos).unwrap().to_rfc3339()
}

/// The whole seconds from `a` to `b`, cut towards zero. A leap second that one of them is in counts
/// where the other is at another time of the day, beyond it.
pub open spec fn seconds_from(a: TimeModel, b: TimeModel) -> int {
    let at_a = a.secs % 86_400;
    let at_b = b.secs % 86_400;
    let leap: int = if at_b > at_a && a.nanos >= 1_000_000_000 {
        1
    } else if at_b < at_a && b.nanos >= 1_000_000_000 {
        -1
    } else {
        0
    };
    let d = (b.secs - a.secs + leap) * 1_000_000_000 + b.nanos - a.nanos;
    if d >= 0 {
        d / 1_000_000_000
    } else {
        -(-d / 1_000_000_000)
    }
}

/// chrono's `DateTime::signed_duration_since` and `TimeDelta::num_seconds`: the difference of two
/// points in whole seconds, cut towards zero, with leap seconds counted by the time of the day.
#[verifier::external_body]
fn elapsed_seconds(a_secs: i64, a_nanos: u32, b_secs: i64, b_nanos: u32) -> (r: i64)
    requires
        datable(TimeModel { secs: a_secs as int, nanos: a_nanos as int }),
        datable(TimeModel { secs: b_secs as int, nanos: b_nanos as int }),
    ensures
        r == seconds_from(
            TimeModel { secs: a_secs as int, nanos: a_nanos as int },
            TimeModel { secs: b_secs as int, nanos: b_nanos as int },
        ),
{
    let a = DateTime::from_timestamp(a_secs, a_nanos).unwrap();
    let b = DateTime::from_timestamp(b_secs, b_nanos).unwrap();
    b.signed_duration_since(a).num_seconds()
}

// ----- Laws ---------------------------------------------------------------------------------

/// An hour is 3600 seconds: going back by hours goes back by that many, and leaves the fraction.
pub proof fn law_hours_go_back(t: TimeModel, hours: int)
    requires
        datable(t) && t.nanos < 1_000_000_000,
        0 <= hours,
        t.secs - 3600 * hours >= FIRST_SECOND,
    ensures
        hours_before(t, hours) == (TimeModel { secs: t.secs - 3600 * hours, nanos: t.nanos }),
{
}

/// What passes between two times is counted in whole seconds, forward or, with a minus, back; and going forward
/// by seconds passes as many.
pub proof fn law_seconds_are_counted(a: TimeModel, b: TimeModel, n: int)
    requires
        0 <= a.nanos < 1_000_000_000 && 0 <= b.nanos < 1_000_000_000,
    ensures
        a.nanos == b.nanos ==> seconds_from(a, b) == b.secs - a.secs,
        seconds_from(a, b) == -seconds_from(b, a),
        a.nanos < b.nanos && a.secs <= b.secs ==> seconds_from(a, b) == b.secs - a.secs,
        0 <= n && a.secs + n <= LAST_SECOND ==> seconds_from(a, seconds_after(a, n)) == n,
{
}

/// One time is before another by its second or, within one, by its fraction; of two that differ one is before
/// the other.
pub proof fn law_times_are_ordered(a: TimeModel, b: TimeModel)
    ensures
        a.secs < b.secs ==> sooner(a, b),
        a.secs == b.secs && a.nanos < b.nanos ==> sooner(a, b),
        sooner(a, b) ==> !sooner(b, a),
        sooner(a, b) || sooner(b, a) || (a.secs == b.secs && a.nanos == b.nanos),
{
}

/// A number of microseconds since the epoch is the time that many after it.
pub proof fn law_micros_are_since_the_epoch(micros: int)
    ensures
        at_micros(micros) matches Some(t) ==> t.secs * 1_000_000 + t.nanos / 1000 == micros && 0 <= t.nanos < 1_000_000_000 && t.nanos % 1000 == 0,
        FIRST_SECOND * 1_000_000 <= micros < (LAST_SECOND + 1) * 1_000_000 ==> at_micros(micros) is Some,
{
}

} // verus!
