//! Points in time and spans between them.
use vstd::prelude::*;

verus! {

pub const NANOS_PER_SECOND: i128 = 1_000_000_000;

/// A point in time: whole seconds since 1970-01-01T00:00:00Z and the nanoseconds after them.
#[derive(Clone, Copy, Debug, PartialEq, Eq, Structural)]
pub struct Timestamp {
    pub seconds: i64,
    pub nanos: u32,
}

/// A signed span of time in nanoseconds.
#[derive(Clone, Copy, Debug, PartialEq, Eq, Structural)]
pub struct TimeSpan {
    pub nanos: i128,
}

impl Timestamp {
    /// Nanoseconds since the epoch.
    pub open spec fn instant(self) -> int {
        self.seconds * NANOS_PER_SECOND + self.nanos
    }

    /// The span from `earlier` to this point; negative where this point comes first.
    pub fn since(self, earlier: Timestamp) -> (result: TimeSpan)
        ensures
            result.nanos == self.instant() - earlier.instant(),
    {
        let seconds: i128 = self.seconds as i128 - earlier.seconds as i128;
        TimeSpan { nanos: seconds * NANOS_PER_SECOND + (self.nanos as i128 - earlier.nanos as i128) }
    }

    /// The point `seconds` later, where it can be represented.
    pub fn plus_seconds(self, seconds: i64) -> (result: Option<Timestamp>)
        ensures
            result is Some <==> i64::MIN <= self.seconds + seconds <= i64::MAX,
            result matches Some(later) ==> later == (Timestamp {
                seconds: (self.seconds + seconds) as i64,
                nanos: self.nanos,
            }),
    {
        match self.seconds.checked_add(seconds) {
            Some(total) => Some(Timestamp { seconds: total, nanos: self.nanos }),
            None => None,
        }
    }
}

impl TimeSpan {
    pub fn seconds(count: i64) -> (result: TimeSpan)
        ensures
            result.nanos == count * NANOS_PER_SECOND,
    {
        TimeSpan { nanos: count as i128 * NANOS_PER_SECOND }
    }

    pub fn minutes(count: i64) -> (result: TimeSpan)
        ensures
            result.nanos == 60 * count * NANOS_PER_SECOND,
    {
        TimeSpan { nanos: 60 * (count as i128) * NANOS_PER_SECOND }
    }
}

/// The current time.
///
/// Trusted: `chrono::Utc::now`. Nothing is claimed of the time it returns.
#[verifier::external_body]
pub(crate) fn current_time() -> (result: Timestamp)
{
    let now = chrono::Utc::now();
    Timestamp { seconds: now.timestamp(), nanos: now.timestamp_subsec_nanos() }
}

/// The current time in milliseconds since the epoch.
///
/// Trusted: `timestamp_millis` of `chrono::Utc::now`. Nothing is claimed of the time it returns.
#[verifier::external_body]
pub(crate) fn current_millis() -> (result: i64)
{
    chrono::Utc::now().timestamp_millis()
}

/// The milliseconds since the epoch of a time in the notation of RFC 3339; `None` where
/// `chrono` does not read the text as one.
pub uninterp spec fn rfc3339_millis(text: Seq<char>) -> Option<int>;

/// Reads a time in the notation of RFC 3339.
///
/// Trusted: `chrono::DateTime::parse_from_rfc3339` and `timestamp_millis`. It is claimed that
/// the outcome depends on the text alone; which texts are times is left unsaid.
#[verifier::external_body]
fn outer_rfc3339(text: &str) -> (result: Option<i64>)
    ensures
        crate::text::integer_of(result) == rfc3339_millis(text@),
{
    chrono::DateTime::parse_from_rfc3339(text).ok().map(|time| time.timestamp_millis())
}

/// The milliseconds since the epoch of a time in the notation of RFC 3339.
pub fn parse_rfc3339(text: &str) -> (result: Option<i64>)
    ensures
        crate::text::integer_of(result) == rfc3339_millis(text@),
{
    outer_rfc3339(text)
}

/// The distance of two times, at most the largest 64-bit number.
pub open spec fn capped_gap(a: int, b: int) -> int {
    let gap = if a >= b {
        a - b
    } else {
        b - a
    };
    if gap <= i64::MAX {
        gap
    } else {
        i64::MAX as int
    }
}

/// The distance of two times in milliseconds, at most the largest 64-bit number.
pub fn gap_capped(a: i64, b: i64) -> (result: i64)
    ensures
        result == capped_gap(a as int, b as int),
{
    let wide: i128 = if a >= b {
        a as i128 - b as i128
    } else {
        b as i128 - a as i128
    };
    if wide <= i64::MAX as i128 {
        wide as i64
    } else {
        i64::MAX
    }
}

pub open spec fn larger_of(a: int, b: int) -> int {
    if a >= b {
        a
    } else {
        b
    }
}

/// The larger distance of two times to a third, at most the largest 64-bit number.
pub fn age_capped(now: i64, a: i64, b: i64) -> (result: i64)
    ensures
        result == larger_of(
            capped_gap(now as int, a as int),
            capped_gap(now as int, b as int),
        ),
{
    let first: i64 = gap_capped(now, a);
    let second: i64 = gap_capped(now, b);
    if first >= second {
        first
    } else {
        second
    }
}

/// `later - earlier`, cut off at the bounds of 64 bits.
pub open spec fn saturated_difference(later: int, earlier: int) -> int {
    let gap = later - earlier;
    if gap > i64::MAX {
        i64::MAX as int
    } else if gap < i64::MIN {
        i64::MIN as int
    } else {
        gap
    }
}

/// `later - earlier`, cut off at the bounds of 64 bits.
pub fn minus_saturating(later: i64, earlier: i64) -> (result: i64)
    ensures
        result == saturated_difference(later as int, earlier as int),
{
    let wide: i128 = later as i128 - earlier as i128;
    if wide > i64::MAX as i128 {
        i64::MAX
    } else if wide < i64::MIN as i128 {
        i64::MIN
    } else {
        wide as i64
    }
}

/// A point in time lies a thousand million nanoseconds after the same point a second earlier, and
/// two points less than a second apart in the same second are as far apart as their nanoseconds.
pub proof fn seconds_are_nanoseconds(time: Timestamp, seconds: i64, nanos: u32)
    ensures
        (Timestamp { seconds, nanos: time.nanos }).instant() - time.instant() == 1_000_000_000 * (
        seconds - time.seconds),
        (Timestamp { seconds: time.seconds, nanos }).instant() - time.instant() == nanos
            - time.nanos,
{
    assert((seconds - time.seconds) * NANOS_PER_SECOND == seconds * NANOS_PER_SECOND
        - time.seconds * NANOS_PER_SECOND) by (nonlinear_arith);
}

/// Both kinds of distance between two times lead from one time to the other wherever 64 bits hold
/// them, and lie at the bound beyond.
pub proof fn distances_lead_from_time_to_time(a: int, b: int)
    ensures
        a <= b && b - a <= i64::MAX ==> a + capped_gap(a, b) == b && b - capped_gap(b, a) == a,
        b - a > i64::MAX ==> capped_gap(a, b) == i64::MAX && saturated_difference(b, a)
            == i64::MAX,
        i64::MIN <= b - a <= i64::MAX ==> a + saturated_difference(b, a) == b,
        b - a < i64::MIN ==> saturated_difference(b, a) == i64::MIN,
        capped_gap(a, b) == capped_gap(b, a),
        larger_of(a, b) >= a && larger_of(a, b) >= b,
        larger_of(a, b) == a || larger_of(a, b) == b,
{
}

} // verus!
