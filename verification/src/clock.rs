//! Instants and calendar dates.
//!
//! An instant is an `i128`: nanoseconds since 1970-01-01T00:00:00Z.

use vstd::prelude::*;

use crate::number;
use crate::text;

verus! {

pub const NANOS_PER_SECOND: i128 = 1_000_000_000;

pub const NANOS_PER_DAY: i128 = 86_400_000_000_000;

/// The Julian day of 1970-01-01.
pub const EPOCH_JULIAN_DAY: i128 = 2_440_588;

/// Midnight of -9999-01-01, the first representable date.
pub const FIRST_INSTANT: i128 = -377_705_116_800_000_000_000;

/// Midnight of 0000-01-01, the first instant that RFC 3339 can write.
pub const FIRST_RFC3339: i128 = -62_167_219_200_000_000_000;

/// Midnight after 9999-12-31, the last representable date.
pub const END_INSTANT: i128 = 253_402_300_800_000_000_000;

/// The Julian day of -9999-01-01, the first representable date.
pub const FIRST_JULIAN_DAY: i64 = -1_930_999;

/// The Julian day of 9999-12-31, the last representable date.
pub const LAST_JULIAN_DAY: i64 = 5_373_484;

// ---------------------------------------------------------------------------
// The proleptic Gregorian calendar
// ---------------------------------------------------------------------------

pub open spec fn is_leap(year: int) -> bool {
    year % 4 == 0 && (year % 100 != 0 || year % 400 == 0)
}

pub open spec fn days_in_month(year: int, month: int) -> int {
    if month == 2 {
        if is_leap(year) {
            29
        } else {
            28
        }
    } else if month == 4 || month == 6 || month == 9 || month == 11 {
        30
    } else {
        31
    }
}

/// Whether year, month and day make a date between the years -9999 and 9999.
pub open spec fn is_date(year: int, month: int, day: int) -> bool {
    -9999 <= year <= 9999 && 1 <= month <= 12 && 1 <= day <= days_in_month(year, month)
}

/// The days of a year before the first of `month`.
pub open spec fn days_before_month(year: int, month: int) -> int
    decreases month,
{
    if month <= 1 {
        0
    } else {
        days_before_month(year, month - 1) + days_in_month(year, month - 1)
    }
}

/// The days from 1970-01-01 to the first of January of `year`.
pub open spec fn days_before_year(year: int) -> int {
    let y = year - 1;
    365 * (year - 1970) + (y / 4 - y / 100 + y / 400) - 477
}

/// The Julian day of a date.
pub open spec fn julian_day(year: int, month: int, day: int) -> int {
    days_before_year(year) + days_before_month(year, month) + (day - 1) + EPOCH_JULIAN_DAY
}

/// The date, as year, month and day, with the given Julian day.
pub open spec fn calendar(julian: int) -> (int, int, int) {
    choose|date: (int, int, int)| #[trigger]
        is_date(date.0, date.1, date.2) && julian_day(date.0, date.1, date.2) == julian
}

/// The Julian day on which an instant falls in UTC.
pub open spec fn julian_of(nanos: int) -> int {
    nanos / (NANOS_PER_DAY as int) + EPOCH_JULIAN_DAY
}

/// The instant of a UTC date and a time of day.
pub open spec fn instant_of(year: int, month: int, day: int, hour: int, minute: int) -> int {
    (julian_day(year, month, day) - EPOCH_JULIAN_DAY) * (NANOS_PER_DAY as int) + (hour * 3600
        + minute * 60) * (NANOS_PER_SECOND as int)
}

proof fn lemma_quotient_step_4(year: int)
    ensures
        year / 4 == (year - 1) / 4 + (if year % 4 == 0 {
            1int
        } else {
            0int
        }),
{
}

proof fn lemma_quotient_step_100(year: int)
    ensures
        year / 100 == (year - 1) / 100 + (if year % 100 == 0 {
            1int
        } else {
            0int
        }),
{
}

proof fn lemma_quotient_step_400(year: int)
    ensures
        year / 400 == (year - 1) / 400 + (if year % 400 == 0 {
            1int
        } else {
            0int
        }),
{
}

proof fn lemma_leap_cycle(year: int)
    ensures
        year % 400 == 0 ==> year % 100 == 0,
        year % 100 == 0 ==> year % 4 == 0,
{
}

/// A year's days add up to the start of the next year.
pub proof fn lemma_year_length(year: int)
    ensures
        days_before_year(year + 1) == days_before_year(year) + 365 + (if is_leap(year) {
            1int
        } else {
            0int
        }),
{
    lemma_quotient_step_4(year);
    lemma_quotient_step_100(year);
    lemma_quotient_step_400(year);
    lemma_leap_cycle(year);
}

proof fn lemma_years_increase(a: int, b: int)
    requires
        a < b,
    ensures
        days_before_year(a) + 365 + (if is_leap(a) {
            1int
        } else {
            0int
        }) <= days_before_year(b),
    decreases b - a,
{
    lemma_year_length(b - 1);
    if a < b - 1 {
        lemma_years_increase(a, b - 1);
    }
    lemma_year_length(a);
}

proof fn lemma_day_of_year(year: int, month: int, day: int)
    requires
        1 <= month <= 12,
        1 <= day <= days_in_month(year, month),
    ensures
        0 <= days_before_month(year, month) + day - 1 < 365 + (if is_leap(year) {
            1int
        } else {
            0int
        }),
{
    reveal_with_fuel(days_before_month, 13);
}

proof fn lemma_months_increase(year: int, a: int, b: int)
    requires
        1 <= a < b <= 12,
    ensures
        days_before_month(year, a) + days_in_month(year, a) <= days_before_month(year, b),
    decreases b - a,
{
    if a < b - 1 {
        lemma_months_increase(year, a, b - 1);
    }
}

/// No two dates share a Julian day.
pub proof fn lemma_julian_day_injective(y1: int, m1: int, d1: int, y2: int, m2: int, d2: int)
    requires
        is_date(y1, m1, d1),
        is_date(y2, m2, d2),
        julian_day(y1, m1, d1) == julian_day(y2, m2, d2),
    ensures
        y1 == y2 && m1 == m2 && d1 == d2,
{
    lemma_day_of_year(y1, m1, d1);
    lemma_day_of_year(y2, m2, d2);
    if y1 < y2 {
        lemma_years_increase(y1, y2);
    } else if y2 < y1 {
        lemma_years_increase(y2, y1);
    } else if m1 < m2 {
        lemma_months_increase(y1, m1, m2);
    } else if m2 < m1 {
        lemma_months_increase(y1, m2, m1);
    }
}

/// The calendar date of a date's Julian day is that date.
pub proof fn lemma_calendar(year: int, month: int, day: int)
    requires
        is_date(year, month, day),
    ensures
        calendar(julian_day(year, month, day)) == (year, month, day),
{
    let julian = julian_day(year, month, day);
    let date = (year, month, day);
    assert(is_date(date.0, date.1, date.2));
    let c = calendar(julian);
    lemma_julian_day_injective(c.0, c.1, c.2, year, month, day);
}

/// `time::Date::from_calendar_date` accepts exactly the dates of the
/// proleptic Gregorian calendar between the years -9999 and 9999;
/// `Date::to_julian_day` counts their days.
#[verifier::external_body]
fn date_to_julian(year: i32, month: u8, day: u8) -> (r: Option<i32>)
    ensures
        match r {
            Some(julian) => is_date(year as int, month as int, day as int) && julian == julian_day(
                year as int,
                month as int,
                day as int,
            ),
            None => !is_date(year as int, month as int, day as int),
        },
{
    let month = time::Month::try_from(month).ok()?;
    let date = time::Date::from_calendar_date(year, month, day).ok()?;
    Some(date.to_julian_day())
}

/// `time::Date::from_julian_day` finds the date with a Julian day, for the
/// days of the years -9999 to 9999.
#[verifier::external_body]
fn julian_to_date(julian: i32) -> (r: Option<(i32, u8, u8)>)
    ensures
        match r {
            Some((year, month, day)) => is_date(year as int, month as int, day as int)
                && julian_day(year as int, month as int, day as int) == julian,
            None => julian < julian_day(-9999, 1, 1) || julian > julian_day(9999, 12, 31),
        },
{
    let date = time::Date::from_julian_day(julian).ok()?;
    Some((date.year(), u8::from(date.month()), date.day()))
}

/// The instant of a UTC date and time of day, if there is such a date and time.
pub open spec fn civil(year: int, month: int, day: int, hour: int, minute: int) -> Option<int> {
    if is_date(year, month, day) && hour < 24 && minute < 60 {
        Some(instant_of(year, month, day, hour, minute))
    } else {
        None
    }
}

proof fn lemma_julian_range(year: int, month: int, day: int)
    requires
        is_date(year, month, day),
    ensures
        julian_day(-9999, 1, 1) <= julian_day(year, month, day) <= julian_day(9999, 12, 31),
        julian_day(-9999, 1, 1) == -1_930_999,
        julian_day(9999, 12, 31) == 5_373_484,
{
    reveal_with_fuel(days_before_month, 13);
    lemma_day_of_year(year, month, day);
    if -9999 < year {
        lemma_years_increase(-9999, year);
    }
    if year < 9999 {
        lemma_years_increase(year, 9999);
    }
    lemma_day_of_year(9999, 12, 31);
}

pub fn civil_instant(year: i32, month: u8, day: u8, hour: u8, minute: u8) -> (r: Option<i128>)
    ensures
        match r {
            Some(n) => civil(
                year as int,
                month as int,
                day as int,
                hour as int,
                minute as int,
            ) == Some(n as int) && FIRST_INSTANT <= n < END_INSTANT,
            None => civil(
                year as int,
                month as int,
                day as int,
                hour as int,
                minute as int,
            ) is None,
        },
{
    if hour >= 24 || minute >= 60 {
        return None;
    }
    match date_to_julian(year, month, day) {
        Some(julian) => {
            proof {
                lemma_julian_range(year as int, month as int, day as int);
            }
            let days: i128 = julian as i128 - EPOCH_JULIAN_DAY;
            let seconds: i128 = hour as i128 * 3600 + minute as i128 * 60;
            Some(days * NANOS_PER_DAY + seconds * NANOS_PER_SECOND)
        },
        None => None,
    }
}

/// The UTC date, as year, month and day, of a representable instant.
pub fn date_of(nanos: i128) -> (r: (i32, u8, u8))
    requires
        FIRST_INSTANT <= nanos < END_INSTANT,
    ensures
        is_date(r.0 as int, r.1 as int, r.2 as int),
        julian_day(r.0 as int, r.1 as int, r.2 as int) == julian_of(nanos as int),
        calendar(julian_of(nanos as int)) == (r.0 as int, r.1 as int, r.2 as int),
{
    let days: i128 = floor_div(nanos, NANOS_PER_DAY);
    proof {
        assert(is_date(-9999, 1, 1)) by {
            reveal_with_fuel(days_before_month, 13);
        }
        lemma_julian_range(-9999, 1, 1);
    }
    match julian_to_date((days + EPOCH_JULIAN_DAY) as i32) {
        Some(date) => {
            proof {
                lemma_calendar(date.0 as int, date.1 as int, date.2 as int);
            }
            date
        },
        None => {
            assert(false);
            (1970, 1, 1)
        },
    }
}

/// The Julian day on which a representable instant falls in UTC.
pub fn julian_day_of(nanos: i128) -> (r: i64)
    requires
        FIRST_INSTANT <= nanos < END_INSTANT,
    ensures
        r == julian_of(nanos as int),
        FIRST_JULIAN_DAY <= r <= LAST_JULIAN_DAY,
{
    let days: i128 = floor_div(nanos, NANOS_PER_DAY);
    (days + EPOCH_JULIAN_DAY) as i64
}

/// The date of a representable Julian day.
pub fn date_of_julian(julian: i64) -> (r: (i32, u8, u8))
    requires
        FIRST_JULIAN_DAY <= julian <= LAST_JULIAN_DAY,
    ensures
        is_date(r.0 as int, r.1 as int, r.2 as int),
        calendar(julian as int) == (r.0 as int, r.1 as int, r.2 as int),
{
    proof {
        assert(is_date(-9999, 1, 1)) by {
            reveal_with_fuel(days_before_month, 13);
        }
        lemma_julian_range(-9999, 1, 1);
    }
    match julian_to_date(julian as i32) {
        Some(date) => {
            proof {
                lemma_calendar(date.0 as int, date.1 as int, date.2 as int);
            }
            date
        },
        None => {
            assert(false);
            (1970, 1, 1)
        },
    }
}

/// The quotient of `a` by a positive `b`, rounded down.
pub fn floor_div(a: i128, b: i128) -> (r: i128)
    requires
        b > 0,
        a > i128::MIN + b,
    ensures
        r == a as int / (b as int),
{
    if a >= 0 {
        a / b
    } else {
        let q: i128 = (-(a + 1)) / b;
        proof {
            let m = -(a + 1);
            assert(m / (b as int) * b + m % (b as int) == m) by (nonlinear_arith)
                requires
                    b > 0,
            ;
            assert(a as int / (b as int) == -(m / (b as int)) - 1) by (nonlinear_arith)
                requires
                    b > 0,
                    m == -(a + 1),
                    m >= 0,
                    m / (b as int) * b + m % (b as int) == m,
                    0 <= m % (b as int) < b,
            ;
        }
        -q - 1
    }
}

// ---------------------------------------------------------------------------
// Durations
// ---------------------------------------------------------------------------

/// The whole seconds of a duration, rounded toward zero.
pub open spec fn whole_seconds(nanos: int) -> int {
    if nanos >= 0 {
        nanos / (NANOS_PER_SECOND as int)
    } else {
        -((-nanos) / (NANOS_PER_SECOND as int))
    }
}

/// Whether an instant lies in the span in which differences are exact.
pub open spec fn in_span(nanos: int) -> bool {
    -400_000_000_000_000_000_000 < nanos < 400_000_000_000_000_000_000
}

/// The whole seconds from `from` to `to`, rounded toward zero.
pub fn seconds_between(from: i128, to: i128) -> (r: i64)
    requires
        in_span(from as int),
        in_span(to as int),
    ensures
        r == whole_seconds(to - from),
{
    let delta: i128 = to - from;
    if delta >= 0 {
        (delta / NANOS_PER_SECOND) as i64
    } else {
        -(((-delta) / NANOS_PER_SECOND) as i64)
    }
}

// ---------------------------------------------------------------------------
// RFC 3339
// ---------------------------------------------------------------------------

/// What reading a text as RFC 3339 gives: the instant in nanoseconds and the
/// UTC offset in seconds that it was written with, or the reason why it stands
/// for none.
pub uninterp spec fn rfc3339_reading(s: Seq<char>) -> Result<(int, int), Seq<char>>;

/// What an RFC 3339 text stands for: instant and UTC offset.
pub open spec fn rfc3339(s: Seq<char>) -> Option<(int, int)> {
    match rfc3339_reading(s) {
        Ok(t) => Some(t),
        Err(_) => None,
    }
}

/// Whether a UTC offset in seconds is one that RFC 3339 can write.
pub open spec fn is_offset(offset: int) -> bool {
    -86_400 < offset < 86_400 && offset % 60 == 0
}

/// `time::OffsetDateTime::parse` with the `Rfc3339` description. The result,
/// the text of the error too, is a function of the text alone. The local date
/// and time it names lie in the years 0000 to 9999, and the offset is in whole
/// minutes, less than a day.
#[verifier::external_body]
pub(crate) fn parse_rfc3339(s: &str) -> (r: Result<(i128, i32), String>)
    ensures
        match r {
            Ok((nanos, offset)) => rfc3339_reading(s@) == Ok::<(int, int), Seq<char>>(
                (nanos as int, offset as int),
            ) && is_offset(offset as int) && FIRST_RFC3339 <= nanos + offset * NANOS_PER_SECOND
                < END_INSTANT,
            Err(e) => rfc3339_reading(s@) == Err::<(int, int), Seq<char>>(e@),
        },
{
    let format = &time::format_description::well_known::Rfc3339;
    match time::OffsetDateTime::parse(s, format) {
        Ok(value) => Ok((value.unix_timestamp_nanos(), value.offset().whole_seconds())),
        Err(err) => Err(err.to_string()),
    }
}

/// The digits of a fraction of a second without trailing zeros.
pub open spec fn fraction_digits(s: Seq<char>) -> Seq<char>
    decreases s.len(),
{
    if s.len() > 0 && s.last() == '0' {
        fraction_digits(s.drop_last())
    } else {
        s
    }
}

/// The RFC 3339 text of an instant as seen at a UTC offset.
pub open spec fn rfc3339_text(nanos: int, offset: int) -> Seq<char> {
    let local = nanos + offset * NANOS_PER_SECOND;
    let date = calendar(julian_of(local));
    let of_day = local % (NANOS_PER_DAY as int);
    let second = of_day / (NANOS_PER_SECOND as int);
    let fraction = of_day % (NANOS_PER_SECOND as int);
    let minutes = (if offset < 0 {
        -offset
    } else {
        offset
    }) / 60;
    date_text(date, "-"@) + "T"@ + number::padded((second / 3600) as nat, 2) + ":"@
        + number::padded((second / 60 % 60) as nat, 2) + ":"@ + number::padded(
        (second % 60) as nat,
        2,
    ) + (if fraction == 0 {
        Seq::empty()
    } else {
        "."@ + fraction_digits(number::padded(fraction as nat, 9))
    }) + (if offset == 0 {
        "Z"@
    } else {
        (if offset < 0 {
            "-"@
        } else {
            "+"@
        }) + number::padded((minutes / 60) as nat, 2) + ":"@ + number::padded(
            (minutes % 60) as nat,
            2,
        )
    })
}

/// The RFC 3339 text of an instant in UTC.
pub open spec fn utc_text(nanos: int) -> Seq<char> {
    rfc3339_text(nanos, 0)
}

/// Year in four digits, month and day in two, with `sep` between.
pub open spec fn date_text(date: (int, int, int), sep: Seq<char>) -> Seq<char> {
    number::padded(date.0 as nat, 4) + sep + number::padded(date.1 as nat, 2) + sep
        + number::padded(date.2 as nat, 2)
}

/// The year of an instant that RFC 3339 can write is not negative.
proof fn lemma_writable_year(nanos: int, year: int, month: int, day: int)
    requires
        writable(nanos),
        is_date(year, month, day),
        julian_day(year, month, day) == julian_of(nanos),
    ensures
        0 <= year,
{
    assert(days_before_year(0) == -719_528);
    if year < 0 {
        lemma_day_of_year(year, month, day);
        lemma_years_increase(year, 0);
    }
}

/// Writes the date of an instant, with `sep` between year, month and day.
pub fn write_date(nanos: i128, sep: &str) -> (r: String)
    requires
        writable(nanos as int),
    ensures
        r@ == date_text(calendar(julian_of(nanos as int)), sep@),
{
    let (year, month, day) = date_of(nanos);
    proof {
        lemma_writable_year(nanos as int, year as int, month as int, day as int);
    }
    let mut v = number::to_padded(year as u64, 4);
    text::push_str(&mut v, sep);
    let m = number::to_padded(month as u64, 2);
    text::push_all(&mut v, m.as_slice());
    text::push_str(&mut v, sep);
    let d = number::to_padded(day as u64, 2);
    text::push_all(&mut v, d.as_slice());
    assert(v@ =~= date_text(calendar(julian_of(nanos as int)), sep@));
    text::to_text(v.as_slice())
}

/// Whether RFC 3339 can write an instant in UTC.
pub open spec fn writable(nanos: int) -> bool {
    FIRST_RFC3339 <= nanos < END_INSTANT
}

/// Whether RFC 3339 can write an instant as seen at a UTC offset.
pub open spec fn writable_at(nanos: int, offset: int) -> bool {
    writable(nanos + offset * NANOS_PER_SECOND)
}

/// Why a time cannot be written as RFC 3339, in the words of the `time` crate:
/// its local year is not one of 0000 to 9999.
pub const UNWRITABLE_YEAR: &'static str =
    "The year component cannot be formatted into the requested format.";

/// `time::OffsetDateTime::format` with the `Rfc3339` description, for a local
/// time at a UTC offset. Where the local year is one of 0000 to 9999 it is
/// written with four digits for the year, two for each further part, the
/// fraction of a second only where it is not zero, and `Z` for a zero offset;
/// reading the text gives instant and offset back.
#[verifier::external_body]
fn format_local(local: i128, offset: i32) -> (r: Option<String>)
    requires
        is_offset(offset as int),
    ensures
        match r {
            Some(s) => writable(local as int) && s@ == rfc3339_text(
                local - offset * NANOS_PER_SECOND,
                offset as int,
            ) && rfc3339_reading(s@) == Ok::<(int, int), Seq<char>>(
                (local - offset * NANOS_PER_SECOND, offset as int),
            ),
            None => !writable(local as int),
        },
{
    let format = &time::format_description::well_known::Rfc3339;
    let value = time::OffsetDateTime::from_unix_timestamp_nanos(local).ok()?;
    let offset = time::UtcOffset::from_whole_seconds(offset).ok()?;
    value.replace_offset(offset).format(format).ok()
}

/// The RFC 3339 text of an instant as seen at a UTC offset, if it can be
/// written; reading the text gives instant and offset back.
pub fn format_rfc3339(nanos: i128, offset: i32) -> (r: Option<String>)
    requires
        is_offset(offset as int),
    ensures
        match r {
            Some(s) => writable_at(nanos as int, offset as int) && s@ == rfc3339_text(
                nanos as int,
                offset as int,
            ) && rfc3339(s@) == Some((nanos as int, offset as int)),
            None => !writable_at(nanos as int, offset as int),
        },
{
    if nanos <= -400_000_000_000_000_000_000 || nanos >= 400_000_000_000_000_000_000 {
        return None;
    }
    format_local(nanos + offset as i128 * NANOS_PER_SECOND, offset)
}

/// The RFC 3339 text of an instant, if it can be written.
pub open spec fn written(nanos: Option<int>) -> Option<Seq<char>> {
    match nanos {
        Some(n) => if writable(n) {
            Some(utc_text(n))
        } else {
            None
        },
        None => None,
    }
}

/// The instant that an optional RFC 3339 text names.
pub open spec fn read_instant(s: Option<Seq<char>>) -> Option<int> {
    match s {
        Some(t) => match rfc3339(t) {
            Some((nanos, offset)) => Some(nanos),
            None => None,
        },
        None => None,
    }
}

/// An optional exec instant as a mathematical one.
pub open spec fn opt_int(n: Option<i128>) -> Option<int> {
    match n {
        Some(v) => Some(v as int),
        None => None,
    }
}

/// Writes an instant; reading the text gives the instant back.
pub fn write_opt(nanos: Option<i128>) -> (r: Option<String>)
    ensures
        r.deep_view() == written(opt_int(nanos)),
        r is Some ==> read_instant(r.deep_view()) == opt_int(nanos),
{
    match nanos {
        Some(n) => format_rfc3339(n, 0),
        None => None,
    }
}

/// Reads the instant of an optional RFC 3339 text.
pub fn read_opt(s: &Option<String>) -> (r: Option<i128>)
    ensures
        opt_int(r) == read_instant(s.deep_view()),
        r matches Some(n) ==> in_span(n as int),
{
    match s {
        Some(t) => match parse_rfc3339(t.as_str()) {
            Ok((nanos, _)) => Some(nanos),
            Err(_) => None,
        },
        None => None,
    }
}

} // verus!
