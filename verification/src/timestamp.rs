//! Points in time that keep the offset from UTC under which they were
//! written down.

use vstd::prelude::*;

verus! {

/// A point in time together with the offset from UTC of the clock that
/// recorded it.
///
/// The offset is part of the value: two timestamps of the same instant with
/// different offsets are different timestamps.
#[derive(Clone, Copy, Debug, PartialEq, Eq, Structural, Hash)]
pub struct Timestamp {
    /// Whole seconds since 1970-01-01T00:00:00Z, leap seconds not counted.
    pub unix_seconds: i64,
    /// Nanoseconds since the last whole second. During a leap second the
    /// count goes on past 999,999,999.
    pub subsec_nanos: u32,
    /// Seconds that local time is ahead of UTC; negative to the west.
    pub utc_offset_seconds: i32,
}

/// The timestamp that `chrono::DateTime::parse_from_rfc3339` reads from
/// `text`, or `None` where it refuses the text.
pub uninterp spec fn rfc3339_timestamp(text: Seq<char>) -> Option<Timestamp>;

/// Calls `chrono::DateTime::parse_from_rfc3339` and, where it accepts the
/// text, takes the parts of the date and time it returns: its seconds since
/// the epoch, its nanoseconds and the seconds of its offset east of UTC.
///
/// Assumed, not proved: the outcome depends on the text alone, so it is the
/// outcome that `rfc3339_timestamp` names.
#[verifier::external_body]
pub(crate) fn parse_rfc3339(text: &str) -> (parsed: Option<Timestamp>)
    ensures
        parsed == rfc3339_timestamp(text@),
{
    let moment = chrono::DateTime::parse_from_rfc3339(text).ok()?;
    Some(Timestamp {
        unix_seconds: moment.timestamp(),
        subsec_nanos: moment.timestamp_subsec_nanos(),
        utc_offset_seconds: moment.offset().local_minus_utc(),
    })
}

} // verus!
