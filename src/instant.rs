//! Absolute UTC instants, held as seconds and nanoseconds since the Unix epoch.

use chrono::{DateTime, TimeDelta};
use vstd::prelude::*;

verus! {

/// Seconds since the epoch of the first representable instant
/// (January 1 of year -262143, 00:00:00 UTC).
pub const MIN_SECS: i64 = -8334601228800;

/// Seconds since the epoch of the last representable second
/// (December 31 of year 262142, 23:59:59 UTC).
pub const MAX_SECS: i64 = 8210266876799;

/// The largest shift, in seconds either way, that a date-time addition takes.
pub const MAX_SHIFT_SECS: i64 = 9223372036854775;

/// A point in time, UTC, with nanosecond precision.
#[derive(Clone, Copy, Debug, PartialEq, Eq, Structural)]
pub struct Instant {
    pub secs: i64,
    pub nanos: u32,
}

/// Whether a count of seconds since the epoch names a representable instant.
pub open spec fn secs_in_range(secs: int) -> bool {
    MIN_SECS <= secs <= MAX_SECS
}

/// The text `YYYY-MM-DD HH:MM:SS` of the UTC instant that lies `secs`
/// seconds after the epoch.
pub uninterp spec fn utc_stamp(secs: int) -> Seq<char>;

impl Instant {
    /// A well-formed instant lies in the representable range and has fewer
    /// nanoseconds than one second.
    pub open spec fn wf(self) -> bool {
        secs_in_range(self.secs as int) && self.nanos < 1_000_000_000
    }

    /// `self` is at or before `other`.
    pub open spec fn spec_le(self, other: Instant) -> bool {
        self.secs < other.secs || (self.secs == other.secs && self.nanos <= other.nanos)
    }

    /// The instant `secs` seconds and `nanos` nanoseconds after the epoch, if
    /// it is representable.
    pub fn from_timestamp(secs: i64, nanos: u32) -> (r: Option<Instant>)
        ensures
            r == (if secs_in_range(secs as int) && nanos < 1_000_000_000 {
                Some(Instant { secs, nanos })
            } else {
                None::<Instant>
            }),
    {
        if MIN_SECS <= secs && secs <= MAX_SECS && nanos < 1_000_000_000 {
            Some(Instant { secs, nanos })
        } else {
            None
        }
    }

    /// Whether `self` is at or before `other`.
    pub fn le(&self, other: &Instant) -> (r: bool)
        ensures
            r == self.spec_le(*other),
    {
        self.secs < other.secs || (self.secs == other.secs && self.nanos <= other.nanos)
    }

    /// The instant `delta` seconds later, or `None` where it falls outside the
    /// representable range.
    pub fn checked_add_secs(&self, delta: i64) -> (r: Option<Instant>)
        requires
            self.wf(),
            -MAX_SHIFT_SECS <= delta <= MAX_SHIFT_SECS,
        ensures
            r == (if secs_in_range(self.secs + delta) {
                Some(Instant { secs: (self.secs + delta) as i64, nanos: self.nanos })
            } else {
                None::<Instant>
            }),
    {
        checked_add_signed(*self, delta)
    }

    /// The instant as `YYYY-MM-DD HH:MM:SS`, UTC.
    pub fn format_utc(&self) -> (r: String)
        requires
            self.wf(),
        ensures
            r@ == utc_stamp(self.secs as int),
    {
        format_seconds(*self)
    }
}

/// Relies on chrono's `NaiveDateTime::checked_add_signed`: the sum of a date-time
/// and a whole number of seconds, or `None` where it leaves the range from
/// `NaiveDateTime::MIN` to `NaiveDateTime::MAX` (the range that `MIN_SECS` and
/// `MAX_SECS` bound). `TimeDelta::seconds` panics beyond `MAX_SHIFT_SECS`.
#[verifier::external_body]
fn checked_add_signed(at: Instant, delta: i64) -> (r: Option<Instant>)
    requires
        at.wf(),
        -MAX_SHIFT_SECS <= delta <= MAX_SHIFT_SECS,
    ensures
        r == (if secs_in_range(at.secs + delta) {
            Some(Instant { secs: (at.secs + delta) as i64, nanos: at.nanos })
        } else {
            None::<Instant>
        }),
{
    let start = DateTime::from_timestamp(at.secs, at.nanos).unwrap().naive_utc();
    let end = start.checked_add_signed(TimeDelta::seconds(delta))?.and_utc();
    Some(Instant { secs: end.timestamp(), nanos: end.timestamp_subsec_nanos() })
}

/// Relies on chrono's `DateTime::format` with `%Y-%m-%d %H:%M:%S`: the text
/// depends on the instant's whole seconds alone.
#[verifier::external_body]
fn format_seconds(at: Instant) -> (r: String)
    requires
        at.wf(),
    ensures
        r@ == utc_stamp(at.secs as int),
{
    let d = DateTime::from_timestamp(at.secs, at.nanos).unwrap();
    d.format("%Y-%m-%d %H:%M:%S").to_string()
}

} // verus!
