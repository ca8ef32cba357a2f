use vstd::prelude::*;
use chrono::{Datelike, TimeZone};
use crate::model::VideoUploadRequest;

verus! {

/// A day of the proleptic Gregorian calendar.
#[derive(Debug, Clone, Copy, PartialEq, Eq)]
pub struct CivilDate {
    pub year: i32,
    pub month: u32,
    pub day: u32,
}

/// The earliest and latest years that the calendar computations cover.
pub open spec fn year_in_range(y: int) -> bool {
    -262142 <= y <= 262141
}

pub open spec fn is_leap_year(y: int) -> bool {
    (y % 4 == 0 && y % 100 != 0) || y % 400 == 0
}

pub open spec fn days_in_month(y: int, m: int) -> int {
    if m == 2 {
        if is_leap_year(y) {
            29
        } else {
            28
        }
    } else if m == 4 || m == 6 || m == 9 || m == 11 {
        30
    } else {
        31
    }
}

/// A date that exists in the calendar, within the years covered.
pub open spec fn valid_date(d: CivilDate) -> bool {
    &&& year_in_range(d.year as int)
    &&& 1 <= d.month <= 12
    &&& 1 <= d.day <= days_in_month(d.year as int, d.month as int)
}

/// The day after `d`.
pub open spec fn next_day(d: CivilDate) -> CivilDate {
    if (d.day as int) < days_in_month(d.year as int, d.month as int) {
        CivilDate { day: (d.day + 1) as u32, ..d }
    } else if d.month < 12 {
        CivilDate { month: (d.month + 1) as u32, day: 1, ..d }
    } else {
        CivilDate { year: (d.year + 1) as i32, month: 1, day: 1 }
    }
}

/// The decimal digit `n`, for `0 <= n < 10`.
pub open spec fn digit(n: int) -> char {
    seq!['0', '1', '2', '3', '4', '5', '6', '7', '8', '9'][n]
}

/// `n`, for `0 <= n < 100`, in two digits.
pub open spec fn two_digits(n: int) -> Seq<char> {
    seq![digit(n / 10), digit(n % 10)]
}

/// The decimal digits of `n`.
pub open spec fn decimal(n: nat) -> Seq<char>
    decreases n,
{
    if n < 10 {
        seq![digit(n as int)]
    } else {
        decimal(n / 10) + seq![digit((n % 10) as int)]
    }
}

/// `n` in at least four digits.
pub open spec fn four_digits(n: nat) -> Seq<char> {
    if n < 10000 {
        two_digits((n / 100) as int) + two_digits((n % 100) as int)
    } else {
        decimal(n)
    }
}

/// How a year is written: four digits within 0..=9999, else a sign and at least four digits.
pub open spec fn year_text(y: int) -> Seq<char> {
    if 0 <= y <= 9999 {
        four_digits(y as nat)
    } else if y > 9999 {
        seq!['+'] + four_digits(y as nat)
    } else {
        seq!['-'] + four_digits((-y) as nat)
    }
}

/// How an offset east of UTC, in seconds, is written: a sign, then hours and
/// minutes with the seconds rounded to the nearest minute.
pub open spec fn offset_text(offset_seconds: int) -> Seq<char> {
    let a = if offset_seconds < 0 {
        -offset_seconds
    } else {
        offset_seconds
    };
    let minutes = (a + 30) / 60;
    seq![if offset_seconds < 0 { '-' } else { '+' }] + two_digits(minutes / 60) + seq![':']
        + two_digits(minutes % 60)
}

/// Local midnight at the start of the given day under a fixed offset, in RFC 3339
/// as chrono writes it: `YYYY-MM-DDT00:00:00+HH:MM`.
pub open spec fn midnight_rfc3339(year: int, month: int, day: int, offset_seconds: int) -> Seq<
    char,
> {
    year_text(year) + seq!['-'] + two_digits(month) + seq!['-'] + two_digits(day)
        + seq!['T', '0', '0', ':', '0', '0', ':', '0', '0'] + offset_text(offset_seconds)
}

/// Relies on chrono's `NaiveDate::from_ymd_opt` and `NaiveDate::succ_opt`: the
/// following calendar day, absent only past the last date chrono represents.
#[verifier::external_body]
fn following_day(d: CivilDate) -> (r: Option<CivilDate>)
    ensures
        valid_date(d) ==> r == Some(next_day(d)),
{
    let next = chrono::NaiveDate::from_ymd_opt(d.year, d.month, d.day)?.succ_opt()?;
    Some(CivilDate { year: next.year(), month: next.month(), day: next.day() })
}

/// Relies on chrono's `FixedOffset::east_opt`, `TimeZone::with_ymd_and_hms` and
/// `DateTime::to_rfc3339` (which writes through chrono's `write_rfc3339`):
/// midnight of the day under the offset, in RFC 3339.
#[verifier::external_body]
fn midnight_stamp(d: CivilDate, offset_seconds: i32) -> (r: Option<String>)
    ensures
        r matches Some(s) ==> s@ == midnight_rfc3339(
            d.year as int,
            d.month as int,
            d.day as int,
            offset_seconds as int,
        ),
        valid_date(d) && -86400 < offset_seconds < 86400 ==> r is Some,
        !(-86400 < offset_seconds < 86400) ==> r is None,
{
    let offset = chrono::FixedOffset::east_opt(offset_seconds)?;
    let at = offset.with_ymd_and_hms(d.year, d.month, d.day, 0, 0, 0).single()?;
    Some(at.to_rfc3339())
}

/// The default release time of a new upload when today is `today` and the
/// local offset at the coming midnight is `offset_seconds` east of UTC:
/// midnight at the start of the next day, never the same day.
pub fn default_publish_at(today: CivilDate, offset_seconds: i32) -> (r: Option<String>)
    ensures
        valid_date(today) && year_in_range(today.year + 1) && -86400 < offset_seconds < 86400
            ==> r is Some,
        !(-86400 < offset_seconds < 86400) ==> r is None,
        r is Some ==> year_in_range(today.year + 1),
        r matches Some(s) ==> valid_date(today) && ({
            let n = next_day(today);
            s@ == midnight_rfc3339(n.year as int, n.month as int, n.day as int, offset_seconds as int)
        }),
{
    if !(-262142 <= today.year && today.year <= 262140 && 1 <= today.month && today.month <= 12
        && 1 <= today.day && today.day <= month_length(today.year, today.month)) {
        return None;
    }
    let next = match following_day(today) {
        Some(n) => n,
        None => return None,
    };
    midnight_stamp(next, offset_seconds)
}

/// The number of days of month `m` of year `y`.
pub fn month_length(y: i32, m: u32) -> (r: u32)
    ensures
        r as int == days_in_month(y as int, m as int),
{
    if m == 2 {
        if (y % 4 == 0 && y % 100 != 0) || y % 400 == 0 {
            29
        } else {
            28
        }
    } else if m == 4 || m == 6 || m == 9 || m == 11 {
        30
    } else {
        31
    }
}

/// Relies on std's `SystemTime::duration_since`: the time now as whole seconds
/// and nanoseconds since the Unix epoch, or none when the clock reads earlier.
#[verifier::external_body]
fn unix_time_now() -> (r: Option<(u64, u32)>)
    ensures
        r matches Some(p) ==> p.1 < 1_000_000_000,
{
    let since = std::time::SystemTime::now().duration_since(std::time::UNIX_EPOCH).ok()?;
    Some((since.as_secs(), since.subsec_nanos()))
}

/// Relies on chrono's `DateTime::from_timestamp`, `DateTime::with_timezone` to
/// `Local`, and `Datelike`: the local date, on this machine's time zone, of the
/// instant that many seconds and nanoseconds after the Unix epoch; none past the
/// dates chrono represents.
#[verifier::external_body]
fn local_date_at(secs: i64, nanos: u32) -> (r: Option<CivilDate>)
    ensures
        r matches Some(d) ==> 1 <= d.month <= 12 && 1 <= d.day <= days_in_month(
            d.year as int,
            d.month as int,
        ),
{
    let at = chrono::DateTime::<chrono::Utc>::from_timestamp(secs, nanos)?.with_timezone(&chrono::Local);
    Some(CivilDate { year: at.year(), month: at.month(), day: at.day() })
}

/// Relies on chrono's `Local` time zone: the offset east of UTC, in seconds,
/// that applies at local midnight at the start of the day, if that midnight exists.
#[verifier::external_body]
fn local_midnight_offset(d: CivilDate) -> (r: Option<i32>)
    ensures
        r matches Some(o) ==> -86400 < o < 86400,
{
    let at = chrono::Local.with_ymd_and_hms(d.year, d.month, d.day, 0, 0, 0).earliest()?;
    Some(at.offset().local_minus_utc())
}

/// The default release time of a new upload, from this machine's clock and time
/// zone: the next local midnight, or none where the clock reads before 1970 or
/// that midnight does not exist.
pub fn tomorrow() -> (r: Option<String>)
    ensures
        r is Some ==> exists|today: CivilDate, o: int|
            valid_date(today) && -86400 < o < 86400 && r->0@ == #[trigger] midnight_rfc3339(
                next_day(today).year as int,
                next_day(today).month as int,
                next_day(today).day as int,
                o,
            ),
{
    let (secs, nanos) = match unix_time_now() {
        Some(p) => p,
        None => return None,
    };
    if secs > i64::MAX as u64 {
        return None;
    }
    let today = match local_date_at(secs as i64, nanos) {
        Some(d) => d,
        None => return None,
    };
    let next = match following_day(today) {
        Some(n) => n,
        None => return None,
    };
    let offset = match local_midnight_offset(next) {
        Some(o) => o,
        None => return None,
    };
    default_publish_at(today, offset)
}

/// The instant that an RFC 3339 text names, as whole seconds since the Unix
/// epoch and nanoseconds within the second; none when the text does not parse.
pub uninterp spec fn rfc3339_instant(s: Seq<char>) -> Option<(int, int)>;

/// Relies on chrono's `DateTime::parse_from_rfc3339`, `timestamp` and
/// `timestamp_subsec_nanos`: the instant the text names, or none when it does not parse.
#[verifier::external_body]
fn parse_instant(s: &str) -> (r: Option<(i64, u32)>)
    ensures
        match r {
            Some(p) => rfc3339_instant(s@) == Some((p.0 as int, p.1 as int)),
            None => rfc3339_instant(s@) is None,
        },
        s@.len() == 0 ==> r is None,
{
    let at = chrono::DateTime::parse_from_rfc3339(s).ok()?;
    Some((at.timestamp(), at.timestamp_subsec_nanos()))
}

/// When a request asks to be released: the instant its `publish_at` names, as
/// seconds and nanoseconds since the Unix epoch, or none when `publish_at` does
/// not parse as RFC 3339 (the platform then applies its own default).
pub fn release_instant(request: &VideoUploadRequest) -> (r: Option<(i64, u32)>)
    ensures
        match r {
            Some(p) => rfc3339_instant(request.publish_at@) == Some((p.0 as int, p.1 as int)),
            None => rfc3339_instant(request.publish_at@) is None,
        },
        request.publish_at@.len() == 0 ==> r is None,
{
    parse_instant(request.publish_at.as_str())
}

} // verus!
