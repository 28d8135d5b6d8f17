//! The time window of the listing: how far back it reaches, and how its
//! lower bound is written in a request.

use vstd::prelude::*;

verus! {

/// The number of days that the listing reaches back.
pub const RETENTION_DAYS: i64 = 168;

/// The number of seconds in a day of the UTC time line.
pub const SECONDS_PER_DAY: i64 = 86_400;

/// The instant, in seconds since 1970-01-01T00:00:00Z, at which the window
/// that ends at `now` begins.
pub open spec fn window_start(now: int) -> int {
    now - RETENTION_DAYS * SECONDS_PER_DAY
}

/// The first second of the year 0000, in seconds since
/// 1970-01-01T00:00:00Z. RFC 3339 has no way to write an earlier time.
pub const FIRST_WRITABLE_SECOND: i64 = -62_167_219_200;

/// The last second of the year 9999, in seconds since 1970-01-01T00:00:00Z.
/// RFC 3339 has no way to write a later time.
pub const LAST_WRITABLE_SECOND: i64 = 253_402_300_799;

/// What chrono writes for the instant `secs` seconds after
/// 1970-01-01T00:00:00Z: the date and time in UTC with whole seconds and a
/// closing `Z`, and nothing where the instant is beyond the dates that
/// chrono can hold. Within the years 0000 to 9999 that text is an RFC 3339
/// time; outside them chrono writes the year with a sign.
pub uninterp spec fn rfc3339_seconds(secs: int) -> Option<Seq<char>>;

/// Calls `chrono::DateTime::from_timestamp` for the instant and, where it
/// returns one, `chrono::DateTime::to_rfc3339_opts` with
/// `SecondsFormat::Secs` and `use_z` set. The contract claims only that the
/// outcome is a function of `secs`, by the name `rfc3339_seconds`.
#[verifier::external_body]
pub(crate) fn format_utc_seconds(secs: i64) -> (text: Option<String>)
    ensures
        text.deep_view() == rfc3339_seconds(secs as int),
{
    match chrono::DateTime::from_timestamp(secs, 0) {
        Some(instant) => Some(instant.to_rfc3339_opts(chrono::SecondsFormat::Secs, true)),
        None => None,
    }
}

/// The start of the window that ends at `now`, where a clock can show it.
pub fn lower_bound(now: i64) -> (since: Option<i64>)
    ensures
        since == if window_start(now as int) >= i64::MIN {
            Some(window_start(now as int) as i64)
        } else {
            None::<i64>
        },
{
    now.checked_sub(RETENTION_DAYS * SECONDS_PER_DAY)
}

/// Whether the instant `secs` seconds after 1970-01-01T00:00:00Z lies in
/// the years 0000 to 9999, which are those that RFC 3339 can write.
pub open spec fn writable(secs: int) -> bool {
    FIRST_WRITABLE_SECOND <= secs <= LAST_WRITABLE_SECOND
}

/// The lower bound of the window that ends at `now`, as a request states
/// it: nothing where the bound lies outside the years 0000 to 9999, and
/// else what chrono writes for it.
pub open spec fn since_text(now: int) -> Option<Seq<char>> {
    if writable(window_start(now)) {
        rfc3339_seconds(window_start(now))
    } else {
        None
    }
}

/// Writes the lower bound of the window that ends at `now`, given in
/// seconds since 1970-01-01T00:00:00Z, as an RFC 3339 time in UTC with
/// whole seconds.
///
/// There is no such text where the bound lies outside the years 0000 to
/// 9999: a year of more than four digits, or one before 0000, is no year of
/// RFC 3339.
pub fn since_parameter(now: i64) -> (text: Option<String>)
    ensures
        text.deep_view() == since_text(now as int),
{
    match lower_bound(now) {
        Some(since) => {
            if FIRST_WRITABLE_SECOND <= since && since <= LAST_WRITABLE_SECOND {
                format_utc_seconds(since)
            } else {
                None
            }
        },
        None => None,
    }
}

} // verus!
