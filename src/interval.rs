//! Reading the interval of a reminder from a count and a scale word.

use vstd::prelude::*;
use vstd::utf8::is_ascii_chars;

verus! {

/// What a user is told when the scale word is not understood.
pub const USAGE: &'static str = "Usage: `!remindme x scale`, where `x` is a number, and scale is `minutes`, `hours`, `days` or `weeks`.";

/// The line that precedes `USAGE` when the scale word is not understood.
pub const INVALID_SCALE: &'static str = "Invalid duration scale.\n";

/// The unit an interval is counted in.
#[derive(Clone, Copy, Debug, PartialEq, Eq, Structural)]
pub enum Scale {
    Minutes,
    Hours,
    Days,
    Weeks,
}

impl Scale {
    /// The length of one unit, in seconds.
    pub open spec fn unit_secs(self) -> int {
        match self {
            Scale::Minutes => 60,
            Scale::Hours => 3600,
            Scale::Days => 86400,
            Scale::Weeks => 604800,
        }
    }

    /// The length of one unit, in seconds.
    pub fn unit_seconds(&self) -> (r: i64)
        ensures
            r == self.unit_secs(),
    {
        match self {
            Scale::Minutes => 60,
            Scale::Hours => 3600,
            Scale::Days => 86400,
            Scale::Weeks => 604800,
        }
    }
}

/// A length of time: `count` units of `scale`.
#[derive(Clone, Copy, Debug, PartialEq, Eq, Structural)]
pub struct Interval {
    pub count: u32,
    pub scale: Scale,
}

impl Interval {
    /// The interval's length in seconds.
    pub open spec fn spec_seconds(self) -> int {
        self.count * self.scale.unit_secs()
    }

    /// The interval's length in seconds; at most `u32::MAX` weeks.
    pub fn seconds(&self) -> (r: i64)
        ensures
            r == self.spec_seconds(),
            0 <= r <= 4294967295 * 604800,
    {
        let unit = self.scale.unit_seconds();
        assert(0 <= self.count * unit <= 4294967295 * 604800) by (nonlinear_arith)
            requires
                0 <= self.count <= 4294967295,
                0 < unit <= 604800,
        ;
        (self.count as i64) * unit
    }
}

/// The scale that a lower-case word names, in singular or plural.
pub open spec fn scale_of_word(w: Seq<char>) -> Option<Scale> {
    if w == "minutes"@ || w == "minute"@ {
        Some(Scale::Minutes)
    } else if w == "hours"@ || w == "hour"@ {
        Some(Scale::Hours)
    } else if w == "days"@ || w == "day"@ {
        Some(Scale::Days)
    } else if w == "weeks"@ || w == "week"@ {
        Some(Scale::Weeks)
    } else {
        None
    }
}

/// The text returned for a scale word that names no scale.
pub open spec fn invalid_scale_text() -> Seq<char> {
    INVALID_SCALE@ + USAGE@
}

/// `r` is what reading `count` of the lower-case word `w` yields: the interval,
/// or the usage text where `w` names no scale.
pub open spec fn interval_outcome(count: u32, w: Seq<char>, r: Result<Interval, String>) -> bool {
    match scale_of_word(w) {
        Some(scale) => r == Ok::<Interval, String>(Interval { count, scale }),
        None => r matches Err(text) && text@ == invalid_scale_text(),
    }
}

/// The lower-case form of a string, as `str::to_lowercase` gives it.
pub uninterp spec fn lower_of(s: Seq<char>) -> Seq<char>;

/// An ASCII character in lower case.
pub open spec fn ascii_lower_char(c: char) -> char {
    if 'A' <= c && c <= 'Z' {
        ((c as u32) + 32) as char
    } else {
        c
    }
}

/// An ASCII string in lower case.
pub open spec fn ascii_lower(s: Seq<char>) -> Seq<char> {
    Seq::new(s.len(), |i: int| ascii_lower_char(s[i]))
}

/// Relies on `str::to_lowercase`: the result depends on the characters alone,
/// and on ASCII text it maps `A`..`Z` to `a`..`z` and keeps every other character.
#[verifier::external_body]
fn lowercase(s: &str) -> (r: String)
    ensures
        r@ == lower_of(s@),
        is_ascii_chars(s@) ==> r@ == ascii_lower(s@),
{
    s.to_lowercase()
}

/// Reads `count` units of the scale named by the lower-case word `word`.
pub fn interval_of_word(count: u32, word: &str) -> (r: Result<Interval, String>)
    ensures
        interval_outcome(count, word@, r),
{
    let w = word.to_owned();
    if w == String::from_str("minutes") || w == String::from_str("minute") {
        Ok(Interval { count, scale: Scale::Minutes })
    } else if w == String::from_str("hours") || w == String::from_str("hour") {
        Ok(Interval { count, scale: Scale::Hours })
    } else if w == String::from_str("days") || w == String::from_str("day") {
        Ok(Interval { count, scale: Scale::Days })
    } else if w == String::from_str("weeks") || w == String::from_str("week") {
        Ok(Interval { count, scale: Scale::Weeks })
    } else {
        Err(String::from_str(INVALID_SCALE).concat(USAGE))
    }
}

/// Reads `count` units of the scale named by `scale`, in any letter case and
/// in singular or plural; any other word yields the usage text.
pub fn interval(count: u32, scale: &str) -> (r: Result<Interval, String>)
    ensures
        interval_outcome(count, lower_of(scale@), r),
        is_ascii_chars(scale@) ==> interval_outcome(count, ascii_lower(scale@), r),
{
    let lowered = lowercase(scale);
    interval_of_word(count, lowered.as_str())
}

} // verus!
