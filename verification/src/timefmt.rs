//! The capture timestamp of a snapshot artifact: parsing it from the
//! artifact's first line, ordering two of them chronologically, and rendering
//! one back into the artifact's human-readable form. The calendar arithmetic
//! is chrono's; the library holds a timestamp as plain values.

use vstd::prelude::*;

verus! {

use chrono::TimeZone;

/// A capture instant, as chrono reports it: whole seconds since the Unix
/// epoch and the nanoseconds since the last second boundary (which chrono
/// lets reach 2 seconds' worth during a leap second).
#[derive(Clone, Copy, PartialEq, Eq, Structural, Debug)]
pub struct Timestamp {
    pub secs: i64,
    pub nanos: u32,
}

impl Timestamp {
    /// Chronological order. chrono orders a UTC datetime by its date and
    /// time of day, which the pair (whole seconds, subsecond nanoseconds)
    /// reflects lexicographically, leap seconds included.
    pub open spec fn spec_lt(self, other: Timestamp) -> bool {
        self.secs < other.secs || (self.secs == other.secs && self.nanos < other.nanos)
    }

    /// Strictly-earlier test, as the reconciliation step asks it.
    pub fn lt(&self, other: &Timestamp) -> (r: bool)
        ensures
            r == self.spec_lt(*other),
    {
        self.secs < other.secs || (self.secs == other.secs && self.nanos < other.nanos)
    }
}

/// What parsing a snapshot's timestamp line yields: chrono's verdict on the
/// line under the artifact's fixed date/time format. A function of the text
/// alone.
pub uninterp spec fn spec_parse_utc(line: Seq<char>) -> Option<Timestamp>;

/// What chrono displays for the UTC instant with these seconds and
/// nanoseconds (the empty string for an instant outside chrono's range). A
/// function of the two values alone.
pub uninterp spec fn spec_format_utc(secs: i64, nanos: u32) -> Seq<char>;

/// Relies on chrono's `TimeZone::datetime_from_str` with the format
/// `%Y-%m-%d %H:%M:%S.%f %Z\n`, and on `DateTime::timestamp` /
/// `DateTime::timestamp_subsec_nanos` to read the parsed instant out as
/// plain values. Parsing depends on the line's characters alone.
#[verifier::external_body]
#[allow(deprecated)]
pub fn parse_snapshot_time(line: &str) -> (r: Option<Timestamp>)
    ensures
        r == spec_parse_utc(line@),
{
    match chrono::Utc.datetime_from_str(line, "%Y-%m-%d %H:%M:%S.%f %Z\n") {
        Ok(t) => Some(Timestamp { secs: t.timestamp(), nanos: t.timestamp_subsec_nanos() }),
        Err(_) => None,
    }
}

/// Relies on chrono's `TimeZone::timestamp_opt` on `Utc` and on the
/// `Display` of `DateTime<Utc>`: the rendered instant, or the empty string
/// where chrono has no datetime for the pair. Rendering a UTC instant
/// depends on the two values alone.
#[verifier::external_body]
pub fn format_utc_time(secs: i64, nanos: u32) -> (r: String)
    ensures
        r@ == spec_format_utc(secs, nanos),
{
    match chrono::Utc.timestamp_opt(secs, nanos) {
        chrono::LocalResult::Single(t) => t.to_string(),
        _ => String::new(),
    }
}

/// Relies on chrono's `Utc::now`: the capture instant of a scan. Nothing is
/// promised of the clock's reading.
#[verifier::external_body]
pub fn now_utc() -> (r: Timestamp)
{
    let t = chrono::Utc::now();
    Timestamp { secs: t.timestamp(), nanos: t.timestamp_subsec_nanos() }
}

} // verus!
