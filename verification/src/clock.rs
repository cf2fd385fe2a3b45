//! The current time, read through chrono.

use vstd::prelude::*;

verus! {

/// A time written by chrono's `to_rfc3339` for an instant in UTC: a date of
/// at least 10 characters, `T`, a time of 8, maybe a fraction, and the offset
/// `+00:00` at the end (25 characters at the least).
pub open spec fn is_utc_time_text(t: Seq<char>) -> bool {
    t.len() >= 25 && t.subrange(t.len() - 6, t.len() as int) == "+00:00"@
}

/// `chrono::Utc::now()` written by `DateTime::to_rfc3339`. Which time it is
/// depends on the clock and is not stated; what is stated is the form that
/// chrono's writer gives every UTC instant (`write_rfc3339`: a year of four
/// digits, or a sign and at least four, the rest of the date and the time in
/// fixed width, and an offset of zero written `+00:00`, as `Z` is not asked
/// for).
#[verifier::external_body]
pub(crate) fn utc_now_rfc3339() -> (r: String)
    ensures
        is_utc_time_text(r@),
{
    chrono::Utc::now().to_rfc3339()
}

/// The local time of day, `chrono::Local::now().time()`, as the number of
/// seconds since midnight (`Timelike::num_seconds_from_midnight`) and the
/// nanoseconds within the second (`Timelike::nanosecond`). chrono documents a
/// `NaiveTime` as under 86 400 seconds, with up to two seconds' worth of
/// nanoseconds to stand for a leap second; nothing more is stated, as the
/// value depends on the clock.
#[verifier::external_body]
pub(crate) fn local_time_of_day() -> (r: (u32, u32))
    ensures
        r.0 < 86_400,
        r.1 < 2_000_000_000,
{
    let t = chrono::Local::now().time();
    (chrono::Timelike::num_seconds_from_midnight(&t), chrono::Timelike::nanosecond(&t))
}

/// The bounds of today in the local time zone, as instants written the way
/// the store writes times: the local midnight that starts today
/// (`chrono::Local::now().date_naive()` at 00:00:00, placed in
/// `chrono::Local` by `and_local_timezone(..).earliest()`) and the one that
/// starts tomorrow (`NaiveDate::succ_opt`), each turned to UTC
/// (`with_timezone(&chrono::Utc)`) and written by `DateTime::to_rfc3339`.
/// `None` where one of these midnights does not exist in the local zone (a
/// clock change skips it) or the date has no successor. Which day it is
/// depends on the clock and the zone and is not stated; what is stated is the
/// form in which chrono writes both instants, in UTC (`is_utc_time_text`).
#[verifier::external_body]
pub(crate) fn local_day_bounds() -> (r: Option<(String, String)>)
    ensures
        r matches Some(b) ==> is_utc_time_text(b.0@) && is_utc_time_text(b.1@),
{
    let today = chrono::Local::now().date_naive();
    let start = today.and_hms_opt(0, 0, 0)?.and_local_timezone(chrono::Local).earliest()?;
    let end = today.succ_opt()?.and_hms_opt(0, 0, 0)?.and_local_timezone(chrono::Local).earliest()?;
    Some((start.with_timezone(&chrono::Utc).to_rfc3339(), end.with_timezone(&chrono::Utc).to_rfc3339()))
}

} // verus!
