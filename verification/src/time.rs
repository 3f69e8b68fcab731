//! Points in time. A wall-clock time is held as plain values (seconds and
//! nanoseconds since the Unix epoch, UTC); monotonic instants stay opaque.

use vstd::prelude::*;

verus! {

/// `std::time::Instant`, carried through opaquely.
#[verifier::external_type_specification]
#[verifier::external_body]
pub struct ExInstant(std::time::Instant);

/// A UTC wall-clock time: whole seconds since the Unix epoch and the
/// nanoseconds within that second.
#[derive(Debug, Clone, Copy, PartialEq, Eq)]
pub struct Timestamp {
    pub secs: i64,
    pub nanos: u32,
}

/// The RFC 3339 rendering of a UTC time given as seconds and nanoseconds
/// since the Unix epoch.
pub uninterp spec fn rfc3339_of(secs: i64, nanos: u32) -> Seq<char>;

impl Timestamp {
    /// Calls `chrono::DateTime::to_rfc3339` on this time; claims the result
    /// is [`rfc3339_of`] of the seconds and nanoseconds. A time that chrono
    /// cannot represent renders as the epoch.
    #[verifier::external_body]
    pub(crate) fn to_rfc3339(&self) -> (r: String)
        ensures
            r@ == rfc3339_of(self.secs, self.nanos),
    {
        chrono::DateTime::from_timestamp(self.secs, self.nanos).unwrap_or_default().to_rfc3339()
    }

    /// This time as RFC 3339 text, the form in which the registry stores
    /// times.
    pub fn rfc3339(&self) -> (r: String)
        ensures
            r@ == rfc3339_of(self.secs, self.nanos),
    {
        self.to_rfc3339()
    }
}

/// Whether chrono represents the time `secs` whole seconds after the Unix
/// epoch: chrono's dates run from January 1 of the year -262143 to December
/// 31 of the year 262142, so the seconds from the first instant of the one
/// to the last second of the other.
pub open spec fn utc_seconds_representable(secs: int) -> bool {
    -8_334_601_228_800 <= secs <= 8_210_266_876_799
}

/// Calls `chrono::DateTime::from_timestamp(secs, 0)` and says whether it
/// returned a time. Claims: it does exactly when
/// [`utc_seconds_representable`] holds of the seconds.
#[verifier::external_body]
pub(crate) fn utc_seconds_in_range(secs: i64) -> (r: bool)
    ensures
        r == utc_seconds_representable(secs as int),
{
    chrono::DateTime::from_timestamp(secs, 0).is_some()
}

/// Calls chrono's `DateTime - TimeDelta` in its checked form
/// (`checked_sub_signed`) to go `secs` seconds back from `from`. Claims: it
/// succeeds exactly when chrono can form the span (at most `i64::MAX / 1000`
/// seconds either way, `TimeDelta::try_seconds`) and both ends lie in
/// chrono's range, and the result keeps the nanoseconds.
#[verifier::external_body]
pub(crate) fn seconds_before(from: Timestamp, secs: i64) -> (r: Option<Timestamp>)
    requires
        from.nanos < 1_000_000_000,
    ensures
        r == (if -9_223_372_036_854_775 <= secs <= 9_223_372_036_854_775 && utc_seconds_representable(
            from.secs as int,
        ) && utc_seconds_representable(from.secs - secs) {
            Some(Timestamp { secs: (from.secs - secs) as i64, nanos: from.nanos })
        } else {
            None
        }),
{
    let start = chrono::DateTime::from_timestamp(from.secs, from.nanos)?;
    let span = chrono::TimeDelta::try_seconds(secs)?;
    let t = start.checked_sub_signed(span)?;
    Some(Timestamp { secs: t.timestamp(), nanos: t.timestamp_subsec_nanos() })
}

/// The time `str::parse::<chrono::DateTime<chrono::Utc>>` reads from a
/// text, as seconds since the epoch and nanoseconds, or `None` when chrono
/// refuses the text.
pub uninterp spec fn utc_time_parsed(text: Seq<char>) -> Option<(i64, u32)>;

/// What `chrono::DateTime::parse_from_rfc3339` makes of a text: the time,
/// converted to UTC seconds since the epoch and nanoseconds, or the message
/// of the `ParseError` with which chrono refuses the text.
pub uninterp spec fn rfc3339_parsed(text: Seq<char>) -> Result<(i64, u32), Seq<char>>;

/// The time an RFC 3339 text names, if chrono reads one from it.
pub open spec fn rfc3339_time(text: Seq<char>) -> Option<Timestamp> {
    match rfc3339_parsed(text) {
        Ok((secs, nanos)) => Some(Timestamp { secs, nanos }),
        Err(_) => None,
    }
}

/// A parsed time as a [`Timestamp`].
pub open spec fn as_timestamp(parsed: Option<(i64, u32)>) -> Option<Timestamp> {
    match parsed {
        Some((secs, nanos)) => Some(Timestamp { secs, nanos }),
        None => None,
    }
}

/// Calls `str::parse::<chrono::DateTime<chrono::Utc>>` and splits the time
/// into seconds and sub-second nanoseconds; claims the result is
/// [`utc_time_parsed`] of the text.
#[verifier::external_body]
pub(crate) fn parse_utc_time(text: &str) -> (r: Option<Timestamp>)
    ensures
        r == as_timestamp(utc_time_parsed(text@)),
{
    match text.parse::<chrono::DateTime<chrono::Utc>>() {
        Ok(t) => Some(Timestamp { secs: t.timestamp(), nanos: t.timestamp_subsec_nanos() }),
        Err(_) => None,
    }
}

/// Calls `chrono::DateTime::parse_from_rfc3339` and splits the time into UTC
/// seconds and sub-second nanoseconds, or renders chrono's `ParseError` with
/// `to_string`; claims the result is [`rfc3339_parsed`] of the text.
#[verifier::external_body]
pub(crate) fn parse_rfc3339(text: &str) -> (r: Result<Timestamp, String>)
    ensures
        match rfc3339_parsed(text@) {
            Ok((secs, nanos)) => r == Ok::<Timestamp, String>(Timestamp { secs, nanos }),
            Err(m) => r matches Err(e) && e@ == m,
        },
{
    match chrono::DateTime::parse_from_rfc3339(text) {
        Ok(t) => Ok(Timestamp { secs: t.timestamp(), nanos: t.timestamp_subsec_nanos() }),
        Err(e) => Err(e.to_string()),
    }
}

/// Calls `std::time::Instant::now`: the current monotonic instant. Nothing is
/// claimed of the value.
#[verifier::external_body]
pub(crate) fn instant_now() -> std::time::Instant {
    std::time::Instant::now()
}

} // verus!
