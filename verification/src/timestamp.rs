//! Instants in UTC, held as plain integers, and the calls into `chrono` that
//! compute them.

use chrono::TimeZone;
use vstd::prelude::*;

verus! {

/// An instant in UTC, as `chrono` reports it for a `DateTime`: whole seconds
/// since 1970-01-01T00:00:00Z and the nanoseconds since the last whole
/// second (at or above one billion only inside a leap second).
///
/// Two instants are ordered as `chrono` orders the `DateTime`s they stand
/// for: by seconds, then by nanoseconds.
#[derive(Clone, Copy, Debug, PartialEq, Eq, Structural)]
pub struct Timestamp {
    pub seconds: i64,
    pub nanos: u32,
}

/// The instant that a pair of seconds and nanoseconds stands for, if any.
pub open spec fn instant_of(pair: Option<(i64, u32)>) -> Option<Timestamp> {
    match pair {
        Some((seconds, nanos)) => Some(Timestamp { seconds, nanos }),
        None => None,
    }
}

/// The instant at a whole number of UNIX seconds, if any.
pub open spec fn whole_second(seconds: Option<i64>) -> Option<Timestamp> {
    match seconds {
        Some(s) => Some(Timestamp { seconds: s, nanos: 0 }),
        None => None,
    }
}

impl Timestamp {
    /// `self` lies strictly before `other`.
    pub open spec fn precedes(self, other: Timestamp) -> bool {
        ||| self.seconds < other.seconds
        ||| (self.seconds == other.seconds && self.nanos < other.nanos)
    }

    /// `self` lies at or before `other`.
    pub open spec fn not_after(self, other: Timestamp) -> bool {
        !other.precedes(self)
    }

    /// Whether `self` lies strictly before `other`.
    pub fn is_before(&self, other: &Timestamp) -> (res: bool)
        ensures
            res == self.precedes(*other),
    {
        self.seconds < other.seconds || (self.seconds == other.seconds && self.nanos < other.nanos)
    }

    /// Parses an RFC 3339 date and time ("2022-09-13T12:00:00+02:00") into
    /// the instant it names: its local date and time minus its offset from
    /// UTC. `None` where `chrono` refuses the text.
    pub fn parse_rfc3339(text: &str) -> (res: Option<Timestamp>)
        ensures
            res == instant_of(rfc3339_instant(text@)),
            res is None <==> rfc3339_fields(text@) is None,
            res matches Some(t) ==> (rfc3339_fields(text@) matches Some((local, offset, nanos)) && t.seconds
                == local - offset && t.nanos == nanos),
            res matches Some(t) ==> (offset_suffix(text@) matches Some(off) ==> instant_of(
                rfc3339_instant(zulu_form(text@)),
            ) == Some(later(t, off))),
    {
        match chrono_parse_rfc3339(text) {
            Some((local, offset, nanos)) => {
                let seconds: i64 = local - offset as i64;
                Some(Timestamp { seconds, nanos })
            },
            None => None,
        }
    }

    /// The instant at the given date and time of day in UTC, on the proleptic
    /// Gregorian calendar; `None` where no such date or time exists.
    pub fn utc(year: i32, month: u32, day: u32, hour: u32, minute: u32, second: u32) -> (res:
        Option<Timestamp>)
        ensures
            res == whole_second(utc_calendar_instant(year, month, day, hour, minute, second)),
    {
        chrono_utc_with_ymd_and_hms(year, month, day, hour, minute, second)
    }

    /// The instant `minutes` minutes after `self`; `None` where it would
    /// leave the range of dates that `chrono` represents. Outside a leap
    /// second, a result lies exactly `60 * minutes` seconds later.
    pub fn plus_minutes(&self, minutes: i64) -> (res: Option<Timestamp>)
        requires
            0 <= minutes <= 1_000_000,
        ensures
            res == instant_of(minutes_later(self.seconds, self.nanos, minutes)),
            res matches Some(t) ==> (self.nanos < 1_000_000_000 ==> t.seconds == self.seconds
                + 60 * minutes && t.nanos == self.nanos),
    {
        chrono_add_minutes(*self, minutes)
    }
}

/// Strict precedence is a strict total order on instants: irreflexive,
/// transitive, and any two distinct instants are comparable.
pub proof fn lemma_precedes_strict_total_order(a: Timestamp, b: Timestamp, c: Timestamp)
    ensures
        !a.precedes(a),
        a.precedes(b) && b.precedes(c) ==> a.precedes(c),
        a.precedes(b) || b.precedes(a) || a == b,
        !(a.precedes(b) && b.precedes(a)),
        a.seconds < b.seconds ==> a.precedes(b),
        a.seconds == b.seconds ==> (a.precedes(b) <==> a.nanos < b.nanos),
        a.seconds > b.seconds ==> !a.precedes(b),
{
}

/// Moving an instant by some seconds changes its seconds by exactly that
/// much and keeps its fraction of a second.
pub proof fn lemma_later(t: Timestamp, seconds: int)
    requires
        i64::MIN <= t.seconds + seconds <= i64::MAX,
    ensures
        later(t, seconds).seconds == t.seconds + seconds,
        later(t, seconds).nanos == t.nanos,
{
}

/// What `chrono::DateTime::parse_from_rfc3339` reads from a text: the local
/// date and time it writes, as seconds since 1970-01-01T00:00:00 on that
/// local clock; its offset from UTC in seconds (local minus UTC); and the
/// nanoseconds of the second. `None` for an error.
pub uninterp spec fn rfc3339_fields(text: Seq<char>) -> Option<(i64, i32, u32)>;

/// The instant that an RFC 3339 text names, as UNIX seconds and nanoseconds:
/// its local date and time minus its offset.
pub open spec fn rfc3339_instant(text: Seq<char>) -> Option<(i64, u32)> {
    match rfc3339_fields(text) {
        Some((local, offset, nanos)) => Some(((local - offset) as i64, nanos)),
        None => None,
    }
}

/// The instant `seconds` seconds after `t`, at the same fraction of a second.
pub open spec fn later(t: Timestamp, seconds: int) -> Timestamp {
    Timestamp { seconds: (t.seconds + seconds) as i64, nanos: t.nanos }
}

/// The value of an ASCII digit, if the character is one.
pub open spec fn ascii_digit(c: char) -> Option<int> {
    if '0' <= c && c <= '9' {
        Some(c as int - '0' as int)
    } else {
        None
    }
}

/// The offset that a text ending in a numeric RFC 3339 offset ("+HH:MM",
/// "-HH:MM", or with the minus sign U+2212) writes, in seconds east of UTC.
pub open spec fn offset_suffix(text: Seq<char>) -> Option<int> {
    let n = text.len() as int;
    if n < 6 || text[n - 3] != ':' {
        None
    } else {
        match (ascii_digit(text[n - 5]), ascii_digit(text[n - 4]), ascii_digit(text[n - 2]), ascii_digit(
            text[n - 1],
        )) {
            (Some(h1), Some(h2), Some(m1), Some(m2)) => {
                let magnitude = (h1 * 10 + h2) * 3600 + (m1 * 10 + m2) * 60;
                if text[n - 6] == '+' {
                    Some(magnitude)
                } else if text[n - 6] == '-' || text[n - 6] == '\u{2212}' {
                    Some(-magnitude)
                } else {
                    None
                }
            },
            _ => None,
        }
    }
}

/// The same local date and time written in UTC: a numeric offset at the end
/// replaced by "Z".
pub open spec fn zulu_form(text: Seq<char>) -> Seq<char> {
    text.take(text.len() - 6).push('Z')
}

/// A text with a numeric offset names its local date and time minus the
/// offset: the instant of the same local date and time written with "Z" is
/// the offset's seconds later (for "-05:00", five hours later; for "+02:00",
/// two hours earlier), at the same fraction of a second.
pub proof fn lemma_rfc3339_offset_moves_instant(text: Seq<char>, local: i64, offset: i32, nanos: u32)
    requires
        rfc3339_fields(text) == Some((local, offset, nanos)),
        offset_suffix(text) == Some(offset as int),
        rfc3339_fields(zulu_form(text)) == Some((local, 0i32, nanos)),
        -62_200_000_000 <= local <= 253_403_000_000,
        -86_400 < offset < 86_400,
    ensures
        instant_of(rfc3339_instant(text)) == Some(Timestamp { seconds: (local - offset) as i64, nanos }),
        instant_of(rfc3339_instant(zulu_form(text))) == Some(Timestamp { seconds: local, nanos }),
        rfc3339_instant(text) matches Some((t, n)) ==> (rfc3339_instant(zulu_form(text)) matches Some((z, m))
            && z == t + offset && m == n),
{
}

/// What `chrono::TimeZone::with_ymd_and_hms` on `Utc` gives: the instant's
/// UNIX seconds, or `None` where the date or the time does not exist.
pub uninterp spec fn utc_calendar_instant(
    year: i32,
    month: u32,
    day: u32,
    hour: u32,
    minute: u32,
    second: u32,
) -> Option<i64>;

/// What `chrono::DateTime::checked_add_signed` gives when it adds
/// `TimeDelta::minutes(minutes)` to the instant with these UNIX seconds and
/// nanoseconds: the new instant, or `None` where there is no such `DateTime`.
pub uninterp spec fn minutes_later(seconds: i64, nanos: u32, minutes: i64) -> Option<(i64, u32)>;

/// Calls `chrono::DateTime::parse_from_rfc3339` and reads the parsed value
/// back with `naive_local` (as seconds on the local clock, `and_utc` then
/// `timestamp`), `offset().local_minus_utc()` and `timestamp_subsec_nanos`.
/// The contract names the result `rfc3339_fields` and claims what the parser
/// (chrono's `format::parse::parse_rfc3339`) shows: the year has four digits,
/// so the local clock lies within the years 0 to 9999; an offset lies within
/// -23:59 and +23:59; the nanoseconds stay below two billion (a leap second
/// adds one billion); a text that ends in a numeric offset has exactly that
/// offset, and with the offset replaced by "Z" it reads the same local date,
/// time and nanoseconds at offset 0.
#[verifier::external_body]
fn chrono_parse_rfc3339(text: &str) -> (res: Option<(i64, i32, u32)>)
    ensures
        res == rfc3339_fields(text@),
        res matches Some((local, offset, nanos)) ==> {
            &&& -62_200_000_000 <= local <= 253_403_000_000
            &&& -86_400 < offset < 86_400
            &&& nanos < 2_000_000_000
        },
        res matches Some((local, offset, nanos)) ==> (offset_suffix(text@) matches Some(off) ==> {
            &&& offset == off
            &&& rfc3339_fields(zulu_form(text@)) == Some((local, 0i32, nanos))
        }),
{
    match chrono::DateTime::parse_from_rfc3339(text) {
        Ok(d) => Some((d.naive_local().and_utc().timestamp(), d.offset().local_minus_utc(), d.timestamp_subsec_nanos())),
        Err(_) => None,
    }
}

/// Calls `chrono::TimeZone::with_ymd_and_hms` on `chrono::Utc`. The contract
/// claims that the result is a function of the arguments, named
/// `utc_calendar_instant`, and, as the documentation of the whole-second
/// constructor shows, that it carries no fraction of a second.
#[verifier::external_body]
fn chrono_utc_with_ymd_and_hms(
    year: i32,
    month: u32,
    day: u32,
    hour: u32,
    minute: u32,
    second: u32,
) -> (res: Option<Timestamp>)
    ensures
        res == whole_second(utc_calendar_instant(year, month, day, hour, minute, second)),
{
    match chrono::Utc.with_ymd_and_hms(year, month, day, hour, minute, second) {
        chrono::LocalResult::Single(d) => Some(Timestamp { seconds: d.timestamp(), nanos: 0 }),
        chrono::LocalResult::Ambiguous(_, _) => None,
        chrono::LocalResult::None => None,
    }
}

/// Calls `chrono::DateTime::from_timestamp` to turn the instant back into a
/// `DateTime<Utc>`, then `checked_add_signed` with `TimeDelta::minutes`.
/// `TimeDelta::minutes` panics only far beyond the bound that `requires`
/// sets. The contract names the result `minutes_later`; of it, it claims what
/// the documentation of `checked_add_signed` shows: outside a leap second
/// the instant moves by exactly `60 * minutes` seconds.
#[verifier::external_body]
fn chrono_add_minutes(t: Timestamp, minutes: i64) -> (res: Option<Timestamp>)
    requires
        0 <= minutes <= 1_000_000,
    ensures
        res == instant_of(minutes_later(t.seconds, t.nanos, minutes)),
        res matches Some(r) ==> (t.nanos < 1_000_000_000 ==> r.seconds == t.seconds + 60 * minutes
            && r.nanos == t.nanos),
{
    match chrono::DateTime::from_timestamp(t.seconds, t.nanos) {
        Some(d) => match d.checked_add_signed(chrono::TimeDelta::minutes(minutes)) {
            Some(r) => Some(Timestamp { seconds: r.timestamp(), nanos: r.timestamp_subsec_nanos() }),
            None => None,
        },
        None => None,
    }
}

} // verus!
