//! Points in time, as seconds and nanoseconds since the Unix epoch (UTC).

use vstd::prelude::*;

verus! {

/// A point in time: `secs` seconds and `nanos` nanoseconds after the Unix
/// epoch. As in chrono, `nanos` may reach past one second during a leap second.
#[derive(Debug, Clone, Copy, PartialEq, Eq, Structural)]
pub struct Timestamp {
    pub secs: i64,
    pub nanos: u32,
}

/// `a` is not later than `b` (seconds first, then the sub-second part, as chrono orders).
pub open spec fn ts_le(a: Timestamp, b: Timestamp) -> bool {
    a.secs < b.secs || (a.secs == b.secs && a.nanos <= b.nanos)
}

/// The timestamp is one chrono can represent: a date within chrono's years
/// and a sub-second part below one second, or below two in a leap second.
pub open spec fn chrono_ok(t: Timestamp) -> bool {
    &&& -8334601315200 <= t.secs <= 8210266876799
    &&& (t.nanos < 1_000_000_000 || (t.nanos < 2_000_000_000 && t.secs % 60 == 59))
}

impl Timestamp {
    /// `self` is not later than `other`.
    pub fn le(&self, other: &Timestamp) -> (b: bool)
        ensures
            b == ts_le(*self, *other),
    {
        self.secs < other.secs || (self.secs == other.secs && self.nanos <= other.nanos)
    }

    /// Whole seconds from `earlier` to `self`, rounded toward zero as chrono's
    /// `num_seconds` does; negative when `earlier` is later.
    pub fn seconds_since(&self, earlier: &Timestamp) -> (d: i128)
        ensures
            d == {
                let diff = (self.secs - earlier.secs) * 1_000_000_000 + self.nanos - earlier.nanos;
                if diff >= 0 {
                    diff / 1_000_000_000
                } else {
                    -((-diff) / 1_000_000_000)
                }
            },
    {
        let diff: i128 = (self.secs as i128 - earlier.secs as i128) * 1_000_000_000 + self.nanos as i128
            - earlier.nanos as i128;
        if diff >= 0 {
            diff / 1_000_000_000
        } else {
            -((-diff) / 1_000_000_000)
        }
    }
}

/// The current time.
///
/// Trusted: calls `chrono::Utc::now` and hands back its `timestamp` and
/// `timestamp_subsec_nanos`. The value is the clock's; only what holds of
/// every chrono `DateTime` is promised: it lies within chrono's range.
#[verifier::external_body]
pub(crate) fn now() -> (t: Timestamp)
    ensures
        chrono_ok(t),
{
    let dt = chrono::Utc::now();
    Timestamp { secs: dt.timestamp(), nanos: dt.timestamp_subsec_nanos() }
}

/// The formats the library writes times in.
pub open spec fn known_time_format(p: Seq<char>) -> bool {
    p == "%H:%M"@ || p == "%Y-%m-%d"@ || p == "%Y-%m-%d %H:%M"@ || p == "%Y-%m-%d %H:%M UTC"@
}

/// What chrono's `format(pattern)` writes for a UTC time.
pub uninterp spec fn utc_format_text(t: Timestamp, pattern: Seq<char>) -> Seq<char>;

/// A UTC time written with one of the library's formats.
///
/// Trusted: builds the time with `chrono::DateTime::from_timestamp` (which
/// succeeds on every `chrono_ok` timestamp) and calls `format(pattern)` on it;
/// the text is named `utc_format_text`. The formats allowed are valid chrono
/// patterns, so writing them cannot fail.
#[verifier::external_body]
pub(crate) fn format_utc(t: Timestamp, pattern: &str) -> (s: String)
    requires
        chrono_ok(t),
        known_time_format(pattern@),
    ensures
        s@ == utc_format_text(t, pattern@),
{
    chrono::DateTime::from_timestamp(t.secs, t.nanos).unwrap().format(pattern).to_string()
}

} // verus!
