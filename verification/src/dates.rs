//! Dates as the relay writes them.
use vstd::prelude::*;
use crate::json::{json_text, Json};
use crate::text::{
    all_digits, chars_of, digits_value, parse_u64, parse_unsigned, text_between,
};
use crate::time::Timestamp;

verus! {

/// The time that `DateTime::parse_from_rfc3339` reads from a text.
pub uninterp spec fn rfc3339_time(text: Seq<char>) -> Option<Timestamp>;

/// The wall-clock time that `NaiveDateTime::parse_from_str` reads from a text
/// in a format, counted as if it were universal time.
pub uninterp spec fn wall_clock_time(text: Seq<char>, format: Seq<char>) -> Option<Timestamp>;

/// What `DateTime::format` writes for a time in a format.
pub uninterp spec fn formatted_time(time: Timestamp, format: Seq<char>) -> Option<Seq<char>>;

/// The format of a wall-clock time in a line of the relay.
pub const WALL_CLOCK_FORMAT: &'static str = "%Y-%m-%d %H:%M:%S";

/// The format of the time before which older lines are asked for.
pub const HISTORY_TIME_FORMAT: &'static str = "%Y-%m-%dT%H:%M:%S%.3fZ";

/// `chrono::DateTime::parse_from_rfc3339`, as seconds and nanoseconds of
/// universal time.
#[verifier::external_body]
pub(crate) fn parse_rfc3339(text: &str) -> (time: Option<Timestamp>)
    ensures
        time == rfc3339_time(text@),
{
    match chrono::DateTime::parse_from_rfc3339(text) {
        Ok(dt) => Some(Timestamp { secs: dt.timestamp(), nanos: dt.timestamp_subsec_nanos() }),
        Err(_) => None,
    }
}

/// The first and the last second of the years that the calendar knows, from
/// January 1 of 262144 BCE to December 31 of 262142 CE.
pub open spec fn in_calendar(secs: int) -> bool {
    -8_334_601_228_800 <= secs <= 8_210_266_876_799
}

/// `chrono::DateTime::from_timestamp` without nanoseconds: a time for every
/// second of the years that the calendar knows.
#[verifier::external_body]
pub(crate) fn from_seconds(secs: i64) -> (time: Option<Timestamp>)
    ensures
        time == (if in_calendar(secs as int) {
            Some(Timestamp { secs, nanos: 0 })
        } else {
            None
        }),
{
    match chrono::DateTime::from_timestamp(secs, 0) {
        Some(dt) => Some(Timestamp { secs: dt.timestamp(), nanos: dt.timestamp_subsec_nanos() }),
        None => None,
    }
}

/// `chrono::NaiveDateTime::parse_from_str`.
#[verifier::external_body]
pub(crate) fn parse_wall_clock(text: &str, format: &str) -> (time: Option<Timestamp>)
    ensures
        time == wall_clock_time(text@, format@),
{
    match chrono::NaiveDateTime::parse_from_str(text, format) {
        Ok(dt) => Some(
            Timestamp {
                secs: dt.and_utc().timestamp(),
                nanos: dt.and_utc().timestamp_subsec_nanos(),
            },
        ),
        Err(_) => None,
    }
}

/// `chrono::DateTime::format` of the time that `DateTime::from_timestamp`
/// makes; nothing where the calendar does not know it.
#[verifier::external_body]
pub(crate) fn format_time(time: Timestamp, format: &str) -> (text: Option<String>)
    requires
        format@ == HISTORY_TIME_FORMAT@,
    ensures
        crate::text::opt_text(text) == formatted_time(time, format@),
{
    match chrono::DateTime::from_timestamp(time.secs, time.nanos) {
        Some(dt) => Some(dt.format(format).to_string()),
        None => None,
    }
}

/// The integer that `text` spells: an optional sign and decimal digits, in the
/// range of an `i64`.
pub open spec fn parse_signed(text: Seq<char>) -> Option<int> {
    if text.len() > 0 && text[0] == '-' {
        let digits = text.skip(1);
        if digits.len() > 0 && all_digits(digits) && digits_value(digits) <= 0x8000_0000_0000_0000 {
            Some(-digits_value(digits))
        } else {
            None
        }
    } else {
        match parse_unsigned(text, 0x7fff_ffff_ffff_ffff) {
            Some(n) => Some(n as int),
            None => None,
        }
    }
}

pub fn parse_i64(text: &str) -> (number: Option<i64>)
    ensures
        match number {
            Some(n) => parse_signed(text@) == Some(n as int),
            None => parse_signed(text@) is None,
        },
{
    let t = chars_of(text);
    if t.len() > 0 && t[0] == '-' {
        let digits = text_between(t.as_slice(), 1, t.len());
        assert(digits@ =~= text@.skip(1));
        if t.len() > 1 && t[1] == '+' {
            assert(!crate::text::is_digit(digits@[0]));
            return None;
        }
        match parse_u64(digits.as_str(), 0x8000_0000_0000_0000) {
            Some(n) => {
                if n == 0x8000_0000_0000_0000 {
                    Some(i64::MIN)
                } else {
                    Some(-(n as i64))
                }
            },
            None => None,
        }
    } else {
        match parse_u64(text, 0x7fff_ffff_ffff_ffff) {
            Some(n) => Some(n as i64),
            None => None,
        }
    }
}

/// What the date of a line says.
#[derive(Debug, Clone, Copy, PartialEq, Eq, Structural)]
pub enum LineDate {
    /// A point in time.
    At(Timestamp),
    /// A time on the local clock, counted as if it were universal time.
    LocalClock(Timestamp),
    /// Nothing that can be read: the line is dated when it arrives.
    Arrival,
}

/// What a date text says: a full date with its zone, seconds since 1970, or a
/// time on the local clock.
pub open spec fn text_date(text: Seq<char>) -> LineDate {
    match rfc3339_time(text) {
        Some(time) => LineDate::At(time),
        None => match parse_signed(text) {
            Some(secs) if in_calendar(secs) => LineDate::At(
                Timestamp { secs: secs as i64, nanos: 0 },
            ),
            _ => match wall_clock_time(text, WALL_CLOCK_FORMAT@) {
                Some(time) => LineDate::LocalClock(time),
                None => LineDate::Arrival,
            },
        },
    }
}

pub open spec fn json_date(value: Option<Json>) -> LineDate {
    match value {
        Some(v) => match json_text(v) {
            Some(text) => text_date(text),
            None => LineDate::Arrival,
        },
        None => LineDate::Arrival,
    }
}

/// What the date of a line says, given what the calendar makes of its text.
pub fn choose_date(
    zoned: Option<Timestamp>,
    seconds: Option<Timestamp>,
    wall_clock: Option<Timestamp>,
) -> (date: LineDate)
    ensures
        date == (match (zoned, seconds, wall_clock) {
            (Some(time), _, _) => LineDate::At(time),
            (None, Some(time), _) => LineDate::At(time),
            (None, None, Some(time)) => LineDate::LocalClock(time),
            (None, None, None) => LineDate::Arrival,
        }),
{
    match zoned {
        Some(time) => LineDate::At(time),
        None => match seconds {
            Some(time) => LineDate::At(time),
            None => match wall_clock {
                Some(time) => LineDate::LocalClock(time),
                None => LineDate::Arrival,
            },
        },
    }
}

/// Reads the date of a line.
pub fn parse_date(value: Option<&Json>) -> (date: LineDate)
    ensures
        date == json_date(
            match value {
                Some(v) => Some(*v),
                None => None,
            },
        ),
{
    match value {
        Some(v) => match v.as_str() {
            Some(text) => {
                let seconds = match parse_i64(text) {
                    Some(secs) => from_seconds(secs),
                    None => None,
                };
                choose_date(
                    parse_rfc3339(text),
                    seconds,
                    parse_wall_clock(text, WALL_CLOCK_FORMAT),
                )
            },
            None => LineDate::Arrival,
        },
        None => LineDate::Arrival,
    }
}

/// The point in time of a date. A time on the local clock is looked up there;
/// where it occurs twice or never, and where nothing can be read, the line is
/// dated when it arrives.
pub open spec fn resolved_date(date: LineDate, local: Option<Timestamp>, now: Timestamp) -> Timestamp {
    match date {
        LineDate::At(time) => time,
        LineDate::LocalClock(_) => match local {
            Some(time) => time,
            None => now,
        },
        LineDate::Arrival => now,
    }
}

/// The point in time of a date, given what the local clock makes of it.
pub fn resolve_date(date: LineDate, local: Option<Timestamp>, now: Timestamp) -> (time: Timestamp)
    ensures
        time == resolved_date(date, local, now),
{
    match date {
        LineDate::At(time) => time,
        LineDate::LocalClock(_) => match local {
            Some(time) => time,
            None => now,
        },
        LineDate::Arrival => now,
    }
}

} // verus!
