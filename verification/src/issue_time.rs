//! Inference of issue times from WMO day-of-month and time groups.

use vstd::prelude::*;

use crate::clock;
use crate::header;
use crate::number;
use crate::text;
use crate::vtec::{Pvtec, PvtecView};

verus! {

/// Whether an instant is one of a representable date.
pub open spec fn representable(n: int) -> bool {
    clock::FIRST_INSTANT <= n < clock::END_INSTANT
}

pub open spec fn opt_representable(n: Option<i128>) -> bool {
    n matches Some(v) ==> representable(v as int)
}

/// The year and month `offset` months after the given month.
pub open spec fn shifted_month(year: int, month: int, offset: int) -> (int, int) {
    let total = year * 12 + (month - 1) + offset;
    (total / 12, total % 12 + 1)
}

pub fn month_with_offset(year: i32, month: u8, offset: i8) -> (r: (i32, u8))
    requires
        i32::MIN + 11 <= year <= i32::MAX - 11,
        1 <= month <= 12,
    ensures
        (r.0 as int, r.1 as int) == shifted_month(year as int, month as int, offset as int),
        1 <= r.1 <= 12,
        year - 11 <= r.0 <= year + 11,
{
    let ghost total = year * 12 + (month - 1) + offset;
    let mut y: i32 = year;
    let mut m: i16 = month as i16 + offset as i16;
    while m < 1
        invariant
            y * 12 + (m - 1) == total,
            -127 <= m <= 139,
            year - 11 <= y <= year,
            -127 <= m + 12 * (y - year) <= 139,
            i32::MIN + 11 <= year <= i32::MAX - 11,
        decreases 200 - m,
    {
        m += 12;
        y -= 1;
    }
    while m > 12
        invariant
            y * 12 + (m - 1) == total,
            1 <= m <= 139,
            year - 11 <= y <= year + 11,
            -127 <= m + 12 * (y - year) <= 139,
            i32::MIN + 11 <= year <= i32::MAX - 11,
        decreases m,
    {
        m -= 12;
        y += 1;
    }
    (y, m as u8)
}

/// The instant of the day-of-month and time group in the month `offset`
/// months after that of the reference.
pub open spec fn candidate(yygggg: Seq<char>, reference: int, offset: int) -> Option<int> {
    let date = clock::calendar(clock::julian_of(reference));
    let (year, month) = shifted_month(date.0, date.1, offset);
    clock::civil(
        year,
        month,
        header::two_digits(yygggg, 0),
        header::two_digits(yygggg, 2),
        header::two_digits(yygggg, 4),
    )
}

/// The whole seconds between two instants.
pub open spec fn distance(a: int, b: int) -> int {
    let d = clock::whole_seconds(a - b);
    if d < 0 {
        -d
    } else {
        d
    }
}

/// Whether `b` is a better guess than `a`: nearer, or as near and not later
/// than the reference where `a` is.
pub open spec fn better(a: int, b: int, reference: int) -> bool {
    distance(b, reference) < distance(a, reference) || (distance(b, reference) == distance(
        a,
        reference,
    ) && a > reference && b <= reference)
}

/// The better of a guess so far and a new one, if there is a new one.
pub open spec fn pick(best: Option<int>, new: Option<int>, reference: int) -> Option<int> {
    match (best, new) {
        (Some(a), Some(b)) => if better(a, b, reference) {
            Some(b)
        } else {
            Some(a)
        },
        (None, b) => b,
        (a, None) => a,
    }
}

/// The instant nearest to the reference among those that the group names in
/// the month of the reference and its neighbours.
pub open spec fn inferred(yygggg: Seq<char>, reference: int) -> Option<int> {
    if yygggg.len() != 6 || !number::all_digits(yygggg) {
        None
    } else {
        pick(
            pick(candidate(yygggg, reference, -1), candidate(yygggg, reference, 0), reference),
            candidate(yygggg, reference, 1),
            reference,
        )
    }
}

/// No instant that the group names in the three months is nearer than the
/// inferred one, and among equally near ones the future is not chosen over
/// the past.
pub proof fn inferred_is_nearest(yygggg: Seq<char>, reference: int, offset: int)
    requires
        yygggg.len() == 6,
        number::all_digits(yygggg),
        -1 <= offset <= 1,
        candidate(yygggg, reference, offset) is Some,
    ensures
        inferred(yygggg, reference) matches Some(best) && {
            let other = candidate(yygggg, reference, offset)->0;
            &&& distance(best, reference) <= distance(other, reference)
            &&& (distance(best, reference) == distance(other, reference) && best > reference
                ==> other > reference)
        },
{
    let a = candidate(yygggg, reference, -1);
    let b = candidate(yygggg, reference, 0);
    let c = candidate(yygggg, reference, 1);
    let first = pick(a, b, reference);
    let second = pick(first, c, reference);
    assert(inferred(yygggg, reference) == second);
    assert(offset == -1 || offset == 0 || offset == 1);
}

fn distance_of(a: i128, b: i128) -> (r: u64)
    requires
        representable(a as int),
        representable(b as int),
    ensures
        r == distance(a as int, b as int),
{
    let d: i64 = clock::seconds_between(b, a);
    if d < 0 {
        (-d) as u64
    } else {
        d as u64
    }
}

fn pick_of(best: Option<i128>, new: Option<i128>, reference: i128) -> (r: Option<i128>)
    requires
        opt_representable(best),
        opt_representable(new),
        representable(reference as int),
    ensures
        clock::opt_int(r) == pick(clock::opt_int(best), clock::opt_int(new), reference as int),
        opt_representable(r),
{
    match (best, new) {
        (Some(a), Some(b)) => {
            let da: u64 = distance_of(a, reference);
            let db: u64 = distance_of(b, reference);
            if db < da || (db == da && a > reference && b <= reference) {
                Some(b)
            } else {
                Some(a)
            }
        },
        (None, b) => b,
        (a, None) => a,
    }
}

/// Infers the instant of a day-of-month and time group near a reference.
pub fn infer_wmo_issue_time(yygggg: &str, reference: i128) -> (r: Option<i128>)
    requires
        representable(reference as int),
    ensures
        clock::opt_int(r) == inferred(yygggg@, reference as int),
        opt_representable(r),
{
    let chars = text::to_chars(yygggg);
    if chars.len() != 6 || !number::only_digits(chars.as_slice()) {
        return None;
    }
    let day: u8 = header::read_two_digits(chars.as_slice(), 0);
    let hour: u8 = header::read_two_digits(chars.as_slice(), 2);
    let minute: u8 = header::read_two_digits(chars.as_slice(), 4);
    let date = clock::date_of(reference);
    let (y0, m0) = month_with_offset(date.0, date.1, -1);
    let (y1, m1) = month_with_offset(date.0, date.1, 0);
    let (y2, m2) = month_with_offset(date.0, date.1, 1);
    let a = clock::civil_instant(y0, m0, day, hour, minute);
    let b = clock::civil_instant(y1, m1, day, hour, minute);
    let c = clock::civil_instant(y2, m2, day, hour, minute);
    let first = pick_of(a, b, reference);
    pick_of(first, c, reference)
}

/// The first of several guesses that is one.
pub open spec fn or_int(a: Option<int>, b: Option<int>) -> Option<int> {
    match a {
        Some(_) => a,
        None => b,
    }
}

pub open spec fn inferred_near(yygggg: Seq<char>, anchor: Option<int>) -> Option<int> {
    match anchor {
        Some(n) => inferred(yygggg, n),
        None => None,
    }
}

/// The issue time of a warning: that of the wrapper, else the heading's time
/// near the query time, else near the start, else near the end of the event.
pub open spec fn issue_time(
    yygggg: Seq<char>,
    wrapper_issue: Option<int>,
    query_time: Option<int>,
    pvtec: PvtecView,
) -> Option<int> {
    or_int(
        wrapper_issue,
        or_int(
            inferred_near(yygggg, query_time),
            or_int(inferred_near(yygggg, pvtec.start), inferred_near(yygggg, pvtec.end)),
        ),
    )
}

fn infer_near(yygggg: &str, anchor: Option<i128>) -> (r: Option<i128>)
    requires
        opt_representable(anchor),
    ensures
        clock::opt_int(r) == inferred_near(yygggg@, clock::opt_int(anchor)),
        opt_representable(r),
{
    match anchor {
        Some(n) => infer_wmo_issue_time(yygggg, n),
        None => None,
    }
}

pub fn issue_time_for_record(
    yygggg: &str,
    wrapper_issue: Option<i128>,
    query_time: Option<i128>,
    pvtec: &Pvtec,
) -> (r: Option<i128>)
    requires
        opt_representable(query_time),
    ensures
        clock::opt_int(r) == issue_time(
            yygggg@,
            clock::opt_int(wrapper_issue),
            clock::opt_int(query_time),
            pvtec.deep_view(),
        ),
{
    if wrapper_issue.is_some() {
        return wrapper_issue;
    }
    let by_query = infer_near(yygggg, query_time);
    if by_query.is_some() {
        return by_query;
    }
    let by_start = infer_near(yygggg, pvtec.start_time().datetime());
    if by_start.is_some() {
        return by_start;
    }
    infer_near(yygggg, pvtec.end_time().datetime())
}

} // verus!
