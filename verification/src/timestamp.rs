//! Calendar timestamps as plain values.
//!
//! The bridge stamps every measurement with the local receipt time; the
//! sensor has no clock. The store and the query helpers only ever compare
//! and copy timestamps, so the library keeps them as six plain calendar
//! fields and leaves the calendar arithmetic itself to the clock library
//! behind two trusted calls: reading the clock and parsing the textual
//! form `YYYY-MM-DD HH:MM:SS`. The host converts this type to its own
//! datetime values at the database edge.

use vstd::prelude::*;

use chrono::Datelike;
use chrono::Timelike;

verus! {

/// One instant of civil time, split into its calendar fields.
#[derive(Clone, Copy, PartialEq, Eq, Structural, Debug)]
pub struct Timestamp {
    pub year: i32,
    pub month: u32,
    pub day: u32,
    pub hour: u32,
    pub minute: u32,
    pub second: u32,
}

impl Timestamp {
    /// The fields lie in the ranges a calendar keeps them in.
    pub open spec fn wf(self) -> bool {
        &&& 1 <= self.month <= 12
        &&& 1 <= self.day <= 31
        &&& self.hour < 24
        &&& self.minute < 60
        &&& self.second < 60
    }

    /// Chronological order: lexicographic over the fields, most
    /// significant first.
    pub open spec fn spec_le(self, other: Timestamp) -> bool {
        if self.year != other.year {
            self.year < other.year
        } else if self.month != other.month {
            self.month < other.month
        } else if self.day != other.day {
            self.day < other.day
        } else if self.hour != other.hour {
            self.hour < other.hour
        } else if self.minute != other.minute {
            self.minute < other.minute
        } else {
            self.second <= other.second
        }
    }

    /// Strictly earlier than `other`.
    pub open spec fn spec_lt(self, other: Timestamp) -> bool {
        self.spec_le(other) && self != other
    }

    /// True when `self` is at or before `other`.
    pub fn le(&self, other: &Timestamp) -> (ordered: bool)
        ensures
            ordered == self.spec_le(*other),
    {
        if self.year != other.year {
            self.year < other.year
        } else if self.month != other.month {
            self.month < other.month
        } else if self.day != other.day {
            self.day < other.day
        } else if self.hour != other.hour {
            self.hour < other.hour
        } else if self.minute != other.minute {
            self.minute < other.minute
        } else {
            self.second <= other.second
        }
    }

    /// True when `self` is strictly before `other`.
    pub fn lt(&self, other: &Timestamp) -> (ordered: bool)
        ensures
            ordered == self.spec_lt(*other),
    {
        let at_or_before = self.le(other);
        at_or_before && !(self.year == other.year && self.month == other.month && self.day
            == other.day && self.hour == other.hour && self.minute == other.minute
            && self.second == other.second)
    }
}

/// The instant the textual form `1970-01-01 00:00:00` denotes: the
/// default lower bound for time-windowed queries.
pub open spec fn epoch_start() -> Timestamp {
    Timestamp { year: 1970, month: 1, day: 1, hour: 0, minute: 0, second: 0 }
}

/// The calendar fields a successful parse of `s` under the format
/// `%Y-%m-%d %H:%M:%S` yields, in the order year, month, day, hour,
/// minute, second; `None` when the text does not parse. Named rather
/// than spelled out: the value is a function of the text alone, but
/// stating it would mean writing out the calendar.
pub uninterp spec fn parsed_datetime(s: Seq<char>) -> Option<(i32, u32, u32, u32, u32, u32)>;

/// Relies on `chrono::NaiveDateTime::parse_from_str` with the format
/// `%Y-%m-%d %H:%M:%S`, and on chrono's `Datelike`/`Timelike` accessors
/// to read the parsed fields; chrono documents their ranges (month 1-12,
/// day 1-31, hour 0-23, minute and second 0-59).
#[verifier::external_body]
fn parse_datetime_fields(input: &str) -> (parts: Option<(i32, u32, u32, u32, u32, u32)>)
    ensures
        parts == parsed_datetime(input@),
        parts matches Some(p) ==> 1 <= p.1 <= 12 && 1 <= p.2 <= 31 && p.3 < 24 && p.4 < 60
            && p.5 < 60,
{
    match chrono::NaiveDateTime::parse_from_str(input, "%Y-%m-%d %H:%M:%S") {
        Ok(dt) => Some((dt.year(), dt.month(), dt.day(), dt.hour(), dt.minute(), dt.second())),
        Err(_) => None,
    }
}

/// Relies on `chrono::Utc::now` and `NaiveDateTime::naive_utc` for the
/// bridge-local receipt time, read through the same documented-range
/// accessors. The clock decides the value, so only the calendar ranges
/// are stated; two calls may well disagree.
#[verifier::external_body]
fn clock_now_fields() -> (parts: (i32, u32, u32, u32, u32, u32))
    ensures
        1 <= parts.1 <= 12 && 1 <= parts.2 <= 31 && parts.3 < 24 && parts.4 < 60 && parts.5 < 60,
{
    let dt = chrono::Utc::now().naive_utc();
    (dt.year(), dt.month(), dt.day(), dt.hour(), dt.minute(), dt.second())
}

/// The timestamp holding the parsed fields `p`.
pub open spec fn timestamp_from_parts(p: (i32, u32, u32, u32, u32, u32)) -> Timestamp {
    Timestamp { year: p.0, month: p.1, day: p.2, hour: p.3, minute: p.4, second: p.5 }
}

/// Parses the textual form `YYYY-MM-DD HH:MM:SS` of a timestamp.
///
/// Returns `Some` exactly on the texts the calendar parser accepts, and
/// then a well-formed timestamp carrying the parsed fields.
pub fn to_naivedatetime(input: &str) -> (parsed: Option<Timestamp>)
    ensures
        parsed == match parsed_datetime(input@) {
            Some(p) => Some(timestamp_from_parts(p)),
            None => None::<Timestamp>,
        },
        parsed matches Some(t) ==> t.wf(),
{
    match parse_datetime_fields(input) {
        Some(p) => Some(
            Timestamp { year: p.0, month: p.1, day: p.2, hour: p.3, minute: p.4, second: p.5 },
        ),
        None => None,
    }
}

/// The given date, or the epoch start when none was given: the default
/// window for "list the values since".
pub fn get_date_with_default(date: &Option<Timestamp>) -> (lower: Timestamp)
    ensures
        lower == match *date {
            Some(d) => d,
            None => epoch_start(),
        },
{
    match date {
        Some(d) => *d,
        None => Timestamp { year: 1970, month: 1, day: 1, hour: 0, minute: 0, second: 0 },
    }
}

/// The bridge-local receipt time, as the clock reports it right now.
/// Well-formed, and nothing more can be promised of a clock reading.
pub fn now_timestamp() -> (now: Timestamp)
    ensures
        now.wf(),
{
    let p = clock_now_fields();
    Timestamp { year: p.0, month: p.1, day: p.2, hour: p.3, minute: p.4, second: p.5 }
}

} // verus!
