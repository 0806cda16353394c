//! Calendar text for moments, as `chrono` writes it.

use vstd::prelude::*;
use chrono::TimeZone;
use crate::query::{text_view, CommitTime};

verus! {

/// What `chrono` writes for a moment given in seconds since the epoch, read
/// in UTC and formatted as `%b %d, %Y %H:%M` (for example
/// `May 15, 2015 00:00`); `None` for a moment outside the years that
/// `chrono` can hold.
pub uninterp spec fn utc_minute(seconds: i64) -> Option<Seq<char>>;

/// `Utc.timestamp_opt(seconds, 0)`, its single result formatted with
/// `DateTime::format("%b %d, %Y %H:%M")`. The text depends on the number of
/// seconds alone.
#[verifier::external_body]
pub(crate) fn utc_minute_text(seconds: i64) -> (text: Option<String>)
    ensures
        text_view(text) == utc_minute(seconds),
{
    chrono::Utc.timestamp_opt(seconds, 0).single().map(
        |moment| moment.format("%b %d, %Y %H:%M").to_string(),
    )
}

/// The seconds that a moment shows on a wall clock in its own zone, counted
/// as if that clock stood in UTC.
pub open spec fn wall_clock_seconds(time: CommitTime) -> int {
    time.seconds + time.offset_minutes * 60
}

/// What is shown for a moment: the wall clock of its own zone, to the
/// minute. `None` where the shifted number of seconds does not fit in 64
/// bits or lies outside the years that can be written.
pub open spec fn shown_datetime(time: CommitTime) -> Option<Seq<char>> {
    if i64::MIN <= wall_clock_seconds(time) <= i64::MAX {
        utc_minute(wall_clock_seconds(time) as i64)
    } else {
        None
    }
}

/// The text shown for a moment, if it can be written.
pub fn format_datetime(time: &CommitTime) -> (text: Option<String>)
    ensures
        text_view(text) == shown_datetime(*time),
{
    let shift: i64 = (time.offset_minutes as i64) * 60;
    match time.seconds.checked_add(shift) {
        Some(local) => utc_minute_text(local),
        None => None,
    }
}

} // verus!
