//! Times as people read them.

use vstd::prelude::*;
use crate::entry::Timestamp;
use crate::text::digit_char;

verus! {

/// The last second, from the epoch in either direction, that has a date.
pub const LAST_SECOND: i64 = 8_000_000_000_000;

/// A time that has a date, and an offset from UTC that is shorter than a day.
pub open spec fn is_datable(t: Timestamp, utc_offset: i32) -> bool {
    &&& -LAST_SECOND <= t.secs <= LAST_SECOND
    &&& t.nanos < 1_000_000_000
    &&& -86_400 < utc_offset < 86_400
}

/// Two decimal digits.
pub open spec fn two_digits(n: int) -> Seq<char> {
    seq![digit_char((n / 10) as nat), digit_char((n % 10) as nat)]
}

/// A second of the day as hours, minutes and seconds.
pub open spec fn clock_text(second: int) -> Seq<char> {
    two_digits(second / 3600) + ":"@ + two_digits(second / 60 % 60) + ":"@ + two_digits(second % 60)
}

/// What the `chrono` crate prints for a time and an offset from UTC in the
/// format `%-m/%-d/%y %-I:%M %p`.
pub uninterp spec fn date_text(secs: i64, nanos: u32, utc_offset: i32) -> Seq<char>;

/// `chrono::DateTime::format` with `%H:%M:%S`, of a time that is carried to a
/// fixed offset: hours, minutes and seconds of the day there, in two digits
/// each.
#[verifier::external_body]
fn format_clock(secs: i64, nanos: u32, utc_offset: i32) -> (r: String)
    requires
        is_datable(Timestamp { secs, nanos }, utc_offset),
    ensures
        r@ == clock_text((secs + utc_offset) % 86_400),
{
    let zone = chrono::FixedOffset::east_opt(utc_offset).unwrap();
    let at = chrono::DateTime::from_timestamp(secs, nanos).unwrap();
    at.with_timezone(&zone).format("%H:%M:%S").to_string()
}

/// `chrono::DateTime::format` with `%-m/%-d/%y %-I:%M %p`, of a time that is
/// carried to a fixed offset.
#[verifier::external_body]
fn format_date(secs: i64, nanos: u32, utc_offset: i32) -> (r: String)
    requires
        is_datable(Timestamp { secs, nanos }, utc_offset),
    ensures
        r@ == date_text(secs, nanos, utc_offset),
{
    let zone = chrono::FixedOffset::east_opt(utc_offset).unwrap();
    let at = chrono::DateTime::from_timestamp(secs, nanos).unwrap();
    at.with_timezone(&zone).format("%-m/%-d/%y %-I:%M %p").to_string()
}

/// The time of day at an offset from UTC, for a line of the log.
pub fn format_log_timestamp(ts: Timestamp, utc_offset: i32) -> (r: String)
    requires
        is_datable(ts, utc_offset),
    ensures
        r@ == clock_text((ts.secs + utc_offset) % 86_400),
{
    format_clock(ts.secs, ts.nanos, utc_offset)
}

/// Date and time of day at an offset from UTC, for a listing.
pub fn format_modified(t: Timestamp, utc_offset: i32) -> (r: String)
    requires
        is_datable(t, utc_offset),
    ensures
        r@ == date_text(t.secs, t.nanos, utc_offset),
{
    format_date(t.secs, t.nanos, utc_offset)
}

/// A time of day always has eight characters, with colons after the hours and
/// the minutes.
pub proof fn clock_has_its_shape(second: int)
    requires
        0 <= second < 86_400,
    ensures
        clock_text(second).len() == 8,
        clock_text(second)[2] == ':',
        clock_text(second)[5] == ':',
{
    reveal_strlit(":");
}

} // verus!
