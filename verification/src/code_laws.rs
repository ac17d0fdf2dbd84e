//! What codes promise: every part of a VTEC line, an area or a position is
//! what its place in the text says.

use vstd::prelude::*;

use crate::clock;
use crate::geo;
use crate::geo::GeoPoint;
use crate::header;
use crate::number;
use crate::text;
use crate::ugc;
use crate::ugc::{UgcArea, UgcCode, UgcKind, UgcState};
use crate::vtec;
use crate::vtec::{EventClass, Phenomenon, PvtecView, Significance, VtecAction};

verus! {

// ---------------------------------------------------------------------------
// Dates
// ---------------------------------------------------------------------------

proof fn lemma_year_step(year: int)
    ensures
        clock::days_before_year(year + 1) == clock::days_before_year(year) + (if clock::is_leap(
            year,
        ) {
            366int
        } else {
            365int
        }),
{
    let y = year;
    assert(y / 4 == (y - 1) / 4 + (if y % 4 == 0 {
        1int
    } else {
        0int
    }));
    assert(y / 100 == (y - 1) / 100 + (if y % 100 == 0 {
        1int
    } else {
        0int
    }));
    assert(y / 400 == (y - 1) / 400 + (if y % 400 == 0 {
        1int
    } else {
        0int
    }));
    assert(y % 400 == 0 ==> y % 100 == 0);
    assert(y % 100 == 0 ==> y % 4 == 0);
}

/// Days are counted one by one: the day behind a date has the next number,
/// over the ends of months and years too, and the count goes by the first of
/// January 1970.
pub proof fn days_follow_each_other(year: int, month: int, day: int)
    requires
        clock::is_date(year, month, day),
    ensures
        clock::julian_day(1970, 1, 1) == 2_440_588,
        clock::julian_day(year, month, day + 1) == clock::julian_day(year, month, day) + 1,
        month < 12 && day == clock::days_in_month(year, month) ==> clock::julian_day(
            year,
            month + 1,
            1,
        ) == clock::julian_day(year, month, day) + 1,
        month == 12 && day == 31 ==> clock::julian_day(year + 1, 1, 1) == clock::julian_day(
            year,
            month,
            day,
        ) + 1,
{
    reveal_with_fuel(clock::days_before_month, 14);
    lemma_year_step(year);
}

/// The days of a month: thirty in April, June, September and November, in
/// February twenty-eight or, in leap years, twenty-nine, else thirty-one. Leap
/// years are those that four divides, but of full centuries only those that
/// four hundred divides.
pub proof fn months_have_their_days(year: int, month: int)
    requires
        1 <= month <= 12,
    ensures
        clock::days_in_month(year, month) == 30 <==> month == 4 || month == 6 || month == 9 || month
            == 11,
        clock::days_in_month(year, month) == 29 <==> month == 2 && year % 4 == 0 && !(year % 100
            == 0 && year % 400 != 0),
        clock::days_in_month(year, month) == 28 <==> month == 2 && !(year % 4 == 0 && !(year % 100
            == 0 && year % 400 != 0)),
        clock::days_in_month(year, month) == 31 <==> month == 1 || month == 3 || month == 5 || month
            == 7 || month == 8 || month == 10 || month == 12,
{
}

/// An instant of a date and a time of day is as many nanoseconds behind the
/// first of January 1970 as lie between them.
pub proof fn instants_count_nanoseconds(year: int, month: int, day: int, hour: int, minute: int)
    ensures
        clock::civil(year, month, day, hour, minute) is Some <==> clock::is_date(year, month, day)
            && hour < 24 && minute < 60,
        clock::civil(year, month, day, hour, minute) matches Some(n) ==> n == ((
        clock::julian_day(year, month, day) - 2_440_588) * 86_400 + hour * 3_600 + minute * 60)
            * 1_000_000_000,
{
    let d = clock::julian_day(year, month, day) - 2_440_588;
    assert(d * 86_400_000_000_000 + (hour * 3_600 + minute * 60) * 1_000_000_000 == (d * 86_400
        + hour * 3_600 + minute * 60) * 1_000_000_000) by (nonlinear_arith);
}

// ---------------------------------------------------------------------------
// VTEC
// ---------------------------------------------------------------------------

/// The letter of a class.
pub open spec fn class_letter(c: EventClass) -> char {
    match c {
        EventClass::Operational => 'O',
        EventClass::Test => 'T',
        EventClass::Experimental => 'E',
        EventClass::ExperimentalOperational => 'X',
    }
}

/// The letters of an action.
pub open spec fn action_letters(a: VtecAction) -> Seq<char> {
    match a {
        VtecAction::New => seq!['N', 'E', 'W'],
        VtecAction::Continue => seq!['C', 'O', 'N'],
        VtecAction::ExtendTime => seq!['E', 'X', 'T'],
        VtecAction::ExtendArea => seq!['E', 'X', 'A'],
        VtecAction::ExtendAreaAndTime => seq!['E', 'X', 'B'],
        VtecAction::Upgrade => seq!['U', 'P', 'G'],
        VtecAction::Cancel => seq!['C', 'A', 'N'],
        VtecAction::Expire => seq!['E', 'X', 'P'],
        VtecAction::Correction => seq!['C', 'O', 'R'],
        VtecAction::Routine => seq!['R', 'O', 'U'],
    }
}

/// The letter of a significance.
pub open spec fn significance_letter(s: Significance) -> char {
    match s {
        Significance::Warning => 'W',
        Significance::Watch => 'A',
        Significance::Advisory => 'Y',
        Significance::Statement => 'S',
        Significance::Forecast => 'F',
        Significance::Outlook => 'O',
        Significance::Synopsis => 'N',
    }
}

proof fn lemma_action_letters(a: VtecAction)
    ensures
        a.spec_str() == action_letters(a),
{
    reveal_strlit("NEW");
    reveal_strlit("CON");
    reveal_strlit("EXT");
    reveal_strlit("EXA");
    reveal_strlit("EXB");
    reveal_strlit("UPG");
    reveal_strlit("CAN");
    reveal_strlit("EXP");
    reveal_strlit("COR");
    reveal_strlit("ROU");
    assert(a.spec_str() =~= action_letters(a));
}

/// Three letters stand for an action exactly where they are its letters, which
/// are also those it is written with.
pub proof fn actions_go_by_their_letters(s: Seq<char>, a: VtecAction)
    ensures
        vtec::action_of(s) == Some(a) <==> s == action_letters(a),
        a.spec_str() == action_letters(a),
{
    lemma_action_letters(VtecAction::New);
    lemma_action_letters(VtecAction::Continue);
    lemma_action_letters(VtecAction::ExtendTime);
    lemma_action_letters(VtecAction::ExtendArea);
    lemma_action_letters(VtecAction::ExtendAreaAndTime);
    lemma_action_letters(VtecAction::Upgrade);
    lemma_action_letters(VtecAction::Cancel);
    lemma_action_letters(VtecAction::Expire);
    lemma_action_letters(VtecAction::Correction);
    lemma_action_letters(VtecAction::Routine);
    let n = action_letters(a);
    assert(n[0] == n[0] && n[1] == n[1] && n[2] == n[2]);
}

/// A letter stands for a class or a significance exactly where it is its
/// letter, which is also the one it is written with.
pub proof fn letters_stand_for_class_and_significance(c: char, k: EventClass, s: Significance)
    ensures
        vtec::event_class_of(c) == Some(k) <==> c == class_letter(k),
        k.spec_str() == seq![class_letter(k)],
        vtec::significance_of(c) == Some(s) <==> c == significance_letter(s),
        s.spec_str() == seq![significance_letter(s)],
{
    reveal_strlit("O");
    reveal_strlit("T");
    reveal_strlit("E");
    reveal_strlit("X");
    reveal_strlit("W");
    reveal_strlit("A");
    reveal_strlit("Y");
    reveal_strlit("S");
    reveal_strlit("F");
    reveal_strlit("N");
    assert(k.spec_str() =~= seq![class_letter(k)]);
    assert(s.spec_str() =~= seq![significance_letter(s)]);
}

/// Two letters name one phenomenon, which is written with them; those with a
/// name of their own are told apart from the rest.
pub proof fn phenomena_go_by_their_letters(a: char, b: char)
    ensures
        vtec::phenomenon_of(a, b).code() == (a, b),
        vtec::phenomenon_of(a, b).spec_str() == seq![a, b],
        vtec::phenomenon_of('T', 'O') == Phenomenon::Tornado,
        vtec::phenomenon_of('S', 'V') == Phenomenon::SevereThunderstorm,
        vtec::phenomenon_of('F', 'F') == Phenomenon::FlashFlood,
        vtec::phenomenon_of('F', 'A') == Phenomenon::Flood,
        vtec::phenomenon_of('F', 'L') == Phenomenon::FloodForecastPoint,
        vtec::phenomenon_of('M', 'A') == Phenomenon::Marine,
        vtec::phenomenon_of('S', 'C') == Phenomenon::SmallCraft,
        vtec::phenomenon_of('G', 'L') == Phenomenon::Gale,
        vtec::phenomenon_of('S', 'R') == Phenomenon::Storm,
        vtec::phenomenon_of('H', 'F') == Phenomenon::HurricaneForceWind,
{
}

/// The number of the two digits at position `i`.
pub open spec fn pair_at(s: Seq<char>, i: int) -> int {
    (s[i] as int - 48) * 10 + (s[i + 1] as int - 48)
}

/// Whether the characters from `i` to `j` are digits.
pub open spec fn digits_at(s: Seq<char>, i: int, j: int) -> bool {
    forall|k: int| i <= k < j ==> '0' <= #[trigger] s[k] <= '9'
}

proof fn lemma_digits_at(s: Seq<char>, i: int, j: int)
    requires
        0 <= i <= j <= s.len(),
    ensures
        digits_at(s, i, j) == number::all_digits(s.subrange(i, j)),
{
    let t = s.subrange(i, j);
    if digits_at(s, i, j) {
        assert forall|k: int| 0 <= k < t.len() implies text::is_digit(#[trigger] t[k]) by {
            assert(t[k] == s[i + k]);
        }
    }
    if number::all_digits(t) {
        assert forall|k: int| i <= k < j implies '0' <= #[trigger] s[k] <= '9' by {
            assert(t[k - i] == s[k]);
            assert(text::is_digit(t[k - i]));
        }
    }
}

/// Whether a text is the VTEC time of an instant: year of the century, month
/// and day, `T`, hour and minute, `Z`.
pub open spec fn is_vtec_time(s: Seq<char>, n: int) -> bool {
    &&& s.len() == 12
    &&& digits_at(s, 0, 6) && s[6] == 'T' && digits_at(s, 7, 11) && s[11] == 'Z'
    &&& clock::is_date(2000 + pair_at(s, 0), pair_at(s, 2), pair_at(s, 4))
    &&& pair_at(s, 7) < 24 && pair_at(s, 9) < 60
    &&& n == ((clock::julian_day(2000 + pair_at(s, 0), pair_at(s, 2), pair_at(s, 4)) - 2_440_588)
        * 86_400 + pair_at(s, 7) * 3_600 + pair_at(s, 9) * 60) * 1_000_000_000
}

/// A VTEC time is undefined exactly where it is all zeros, and else stands for
/// the instant that its digits name; what names no instant is refused.
pub proof fn vtec_times_name_instants(s: Seq<char>, n: int)
    ensures
        vtec::parse_time(s) == Some(None::<int>) <==> s == "000000T0000Z"@,
        vtec::parse_time(s) == Some(Some(n)) <==> is_vtec_time(s, n),
{
    reveal_strlit("000000T0000Z");
    if s.len() == 12 {
        lemma_digits_at(s, 0, 6);
        lemma_digits_at(s, 7, 11);
        assert(s.take(6) =~= s.subrange(0, 6));
        instants_count_nanoseconds(
            2000 + pair_at(s, 0),
            pair_at(s, 2),
            pair_at(s, 4),
            pair_at(s, 7),
            pair_at(s, 9),
        );
    }
    if s == "000000T0000Z"@ {
        assert(pair_at(s, 2) == 0);
    }
}

/// Whether a line is the primary VTEC line of a code: every part stands in its
/// place.
pub open spec fn is_pvtec_line(s: Seq<char>, p: PvtecView) -> bool {
    &&& s.len() == 48
    &&& s[0] == '/' && s[2] == '.' && s[6] == '.' && s[11] == '.' && s[14] == '.' && s[16] == '.'
    &&& s[21] == '.' && s[34] == '-' && s[47] == '/'
    &&& p.raw == s
    &&& s[1] == class_letter(p.event_class)
    &&& s.subrange(3, 6) == action_letters(p.action)
    &&& p.office_id == s.subrange(7, 11) && header::is_upper_alnum(p.office_id, 4)
    &&& p.phenomenon == vtec::phenomenon_of(s[12], s[13]) && text::is_upper(s[12])
        && text::is_upper(s[13])
    &&& s[15] == significance_letter(p.significance)
    &&& digits_at(s, 17, 21) && p.event_tracking_number == pair_at(s, 17) * 100 + pair_at(s, 19)
    &&& vtec::parse_time(s.subrange(22, 34)) == Some(p.start)
    &&& vtec::parse_time(s.subrange(35, 47)) == Some(p.end)
}

proof fn lemma_four_digits(s: Seq<char>, i: int)
    requires
        0 <= i,
        i + 4 <= s.len(),
        digits_at(s, i, i + 4),
    ensures
        number::digits_value(s.subrange(i, i + 4)) == pair_at(s, i) * 100 + pair_at(s, i + 2),
        0 <= number::digits_value(s.subrange(i, i + 4)) <= 9999,
{
    let t = s.subrange(i, i + 4);
    lemma_digits_at(s, i, i + 4);
    number::lemma_digits_value_bound(t);
    reveal_with_fuel(number::digits_value, 5);
    assert(t.drop_last().drop_last().drop_last().drop_last() =~= Seq::<char>::empty());
    assert(t[0] == s[i] && t[1] == s[i + 1] && t[2] == s[i + 2] && t[3] == s[i + 3]);
}

/// A line is read as a code exactly where it is the line of that code.
pub proof fn pvtec_lines_are_read_part_by_part(s: Seq<char>, p: PvtecView)
    ensures
        vtec::parse_pvtec(s) == Some(p) <==> is_pvtec_line(s, p),
{
    if s.len() == 48 {
        letters_stand_for_class_and_significance(s[1], p.event_class, p.significance);
        letters_stand_for_class_and_significance(s[15], p.event_class, p.significance);
        actions_go_by_their_letters(s.subrange(3, 6), p.action);
        lemma_digits_at(s, 17, 21);
        let two = s.subrange(12, 14);
        assert(two[0] == s[12] && two[1] == s[13]);
        if text::is_upper(s[12]) && text::is_upper(s[13]) {
            assert(header::is_letters(two, 2));
        }
        if header::is_letters(two, 2) {
            assert(text::is_upper(two[0]) && text::is_upper(two[1]));
        }
        if digits_at(s, 17, 21) {
            lemma_four_digits(s, 17);
        }
    }
}

// ---------------------------------------------------------------------------
// Areas
// ---------------------------------------------------------------------------

/// Whether a part names what follows state and kind: a number of three digits,
/// zero for none in particular; a range of two of them; or all.
pub open spec fn names_code(area: UgcArea, part: Seq<char>, code: UgcCode) -> bool {
    match code {
        UgcCode::All { state, kind } => state == area.state && kind == area.kind && part == seq![
            'A',
            'L',
            'L',
        ],
        UgcCode::Unspecified { state, kind } => state == area.state && kind == area.kind && part
            == seq!['0', '0', '0'],
        UgcCode::Single { state, kind, number } => state == area.state && kind == area.kind
            && part.len() == 3 && digits_at(part, 0, 3) && number == three_at(part, 0) && number
            > 0,
        UgcCode::Range { state, kind, start, end } => state == area.state && kind == area.kind
            && part.len() == 7 && digits_at(part, 0, 3) && part[3] == '>' && digits_at(part, 4, 7)
            && start == three_at(part, 0) && end == three_at(part, 4) && start <= end,
    }
}

/// The number of the three digits at position `i`.
pub open spec fn three_at(s: Seq<char>, i: int) -> int {
    (s[i] as int - 48) * 100 + pair_at(s, i + 1)
}

proof fn lemma_three_digits(s: Seq<char>, i: int)
    requires
        0 <= i,
        i + 3 <= s.len(),
        digits_at(s, i, i + 3),
    ensures
        number::digits_value(s.subrange(i, i + 3)) == three_at(s, i),
        0 <= three_at(s, i) <= 999,
{
    let t = s.subrange(i, i + 3);
    lemma_digits_at(s, i, i + 3);
    number::lemma_digits_value_bound(t);
    reveal_with_fuel(number::digits_value, 4);
    assert(t.drop_last().drop_last().drop_last() =~= Seq::<char>::empty());
    assert(t[0] == s[i] && t[1] == s[i + 1] && t[2] == s[i + 2]);
}

/// A part is read as a code exactly where it names that code.
pub proof fn parts_name_codes(area: UgcArea, part: Seq<char>, code: UgcCode)
    ensures
        ugc::code_in(area, part) == Some(code) <==> names_code(area, part, code),
{
    reveal_strlit("ALL");
    let all = seq!['A', 'L', 'L'];
    assert("ALL"@ =~= all);
    assert(all[0] == 'A');
    if part.len() == 3 {
        lemma_digits_at(part, 0, 3);
        assert(part.subrange(0, 3) =~= part);
        if digits_at(part, 0, 3) {
            lemma_three_digits(part, 0);
            assert('0' <= part[0] <= '9' && '0' <= part[1] <= '9' && '0' <= part[2] <= '9');
            if three_at(part, 0) == 0 {
                assert(part =~= seq!['0', '0', '0']);
            }
        }
        if part == seq!['0', '0', '0'] {
            assert(digits_at(part, 0, 3));
            lemma_three_digits(part, 0);
            assert(three_at(part, 0) == 0);
        }
    }
    if part.len() == 7 {
        lemma_digits_at(part, 0, 3);
        lemma_digits_at(part, 4, 7);
        assert(part.take(3) =~= part.subrange(0, 3));
        assert(part.skip(4) =~= part.subrange(4, 7));
        if digits_at(part, 0, 3) {
            lemma_three_digits(part, 0);
        }
        if digits_at(part, 4, 7) {
            lemma_three_digits(part, 4);
        }
    }
    if names_code(area, part, code) {
        match code {
            UgcCode::Single { state, kind, number } => {
                assert('0' <= part[0] <= '9');
            },
            UgcCode::Unspecified { state, kind } => {
                assert(part[0] == '0');
            },
            _ => {},
        }
    }
}

/// A token begins with a state and a kind exactly where it begins with two
/// letters and `C` for counties or `Z` for zones.
pub proof fn tokens_begin_with_state_and_kind(token: Seq<char>, area: UgcArea)
    ensures
        ugc::area_of(token) == Some(area) <==> token.len() >= 3 && 'A' <= token[0] <= 'Z' && 'A'
            <= token[1] <= 'Z' && area.state == (UgcState { first: token[0], second: token[1] })
            && (area.kind == UgcKind::County ==> token[2] == 'C') && (area.kind == UgcKind::Zone
            ==> token[2] == 'Z'),
{
}

/// Whether the codes are those of the tokens from the first on, each in the
/// area that its token begins with or, where it begins with none, in that of
/// the token before.
pub open spec fn codes_in_turn(
    tokens: Seq<Seq<char>>,
    codes: Seq<UgcCode>,
    areas: Seq<UgcArea>,
) -> bool {
    &&& areas.len() == codes.len()
    &&& forall|k: int|
        0 <= k < codes.len() ==> #[trigger] code_in_turn(tokens, codes, areas, k)
}

/// Whether code `k` is that of token `k`.
pub open spec fn code_in_turn(
    tokens: Seq<Seq<char>>,
    codes: Seq<UgcCode>,
    areas: Seq<UgcArea>,
    k: int,
) -> bool {
    let token = text::trim(tokens[k]);
    match ugc::area_of(token) {
        Some(own) => areas[k] == own && names_code(own, token.skip(3), codes[k]),
        None => k > 0 && areas[k] == areas[k - 1] && names_code(areas[k], token, codes[k]),
    }
}

proof fn lemma_codes_in_turn(
    tokens: Seq<Seq<char>>,
    i: int,
    end: int,
    area: Option<UgcArea>,
    done: Seq<UgcCode>,
    areas: Seq<UgcArea>,
) -> (w: Seq<UgcArea>)
    requires
        0 <= i <= end,
        done.len() == i,
        codes_in_turn(tokens, done, areas),
        area == (if i > 0 {
            Some(areas[i - 1])
        } else {
            None
        }),
        ugc::codes_from(tokens, i, end, area, done) is Some,
    ensures
        (ugc::codes_from(tokens, i, end, area, done)->0).len() == end,
        codes_in_turn(tokens, ugc::codes_from(tokens, i, end, area, done)->0, w),
    decreases end - i,
{
    if i >= end {
        areas
    } else {
        let token = text::trim(tokens[i]);
        let (next, code) = ugc::code_of(token, area)->0;
        if let Some(own) = ugc::area_of(token) {
            parts_name_codes(own, token.skip(3), code);
        } else {
            parts_name_codes(next, token, code);
        }
        let more = done.push(code);
        let w = areas.push(next);
        assert forall|k: int| 0 <= k < more.len() implies #[trigger] code_in_turn(
            tokens,
            more,
            w,
            k,
        ) by {
            if k < i {
                assert(code_in_turn(tokens, done, areas, k));
                assert(more[k] == done[k] && w[k] == areas[k]);
                if k > 0 {
                    assert(w[k - 1] == areas[k - 1]);
                }
            } else if k > 0 {
                assert(w[k - 1] == areas[i - 1]);
            }
        }
        lemma_codes_in_turn(tokens, i + 1, end, Some(next), more, w)
    }
}

/// Every token of a list of areas but the last two is read as one code, in its
/// turn; the last but one is the purge time, and nothing follows it.
pub proof fn every_area_is_read(raw: Seq<char>) -> (w: Seq<UgcArea>)
    requires
        ugc::parse_ugc(raw) is Some,
    ensures
        ({
            let tokens = text::split(raw, '-');
            let u = ugc::parse_ugc(raw)->0;
            let t = text::trim(tokens[tokens.len() - 2]);
            &&& u.raw == raw
            &&& u.codes.len() == tokens.len() - 2
            &&& u.codes.len() > 0
            &&& codes_in_turn(tokens, u.codes, w)
            &&& text::trim(tokens.last()).len() == 0
            &&& t.len() == 6 && digits_at(t, 0, 6)
            &&& u.purge_time.day == pair_at(t, 0) && 1 <= u.purge_time.day <= 31
            &&& u.purge_time.hour == pair_at(t, 2) && u.purge_time.hour <= 23
            &&& u.purge_time.minute == pair_at(t, 4) && u.purge_time.minute <= 59
        }),
{
    let tokens = text::split(raw, '-');
    let t = text::trim(tokens[tokens.len() - 2]);
    lemma_digits_at(t, 0, 6);
    assert(t.subrange(0, 6) =~= t);
    assert('0' <= t[0] <= '9' && '0' <= t[1] <= '9' && '0' <= t[2] <= '9' && '0' <= t[3] <= '9'
        && '0' <= t[4] <= '9' && '0' <= t[5] <= '9');
    lemma_codes_in_turn(tokens, 0, tokens.len() - 2, None, Seq::empty(), Seq::empty())
}

proof fn lemma_codes_accepted(
    tokens: Seq<Seq<char>>,
    i: int,
    end: int,
    area: Option<UgcArea>,
    done: Seq<UgcCode>,
    codes: Seq<UgcCode>,
    areas: Seq<UgcArea>,
)
    requires
        0 <= i <= end,
        codes.len() == end,
        codes_in_turn(tokens, codes, areas),
        done == codes.take(i),
        area == (if i > 0 {
            Some(areas[i - 1])
        } else {
            None
        }),
    ensures
        ugc::codes_from(tokens, i, end, area, done) == Some(codes),
    decreases end - i,
{
    if i >= end {
        assert(done =~= codes);
    } else {
        assert(code_in_turn(tokens, codes, areas, i));
        let token = text::trim(tokens[i]);
        if let Some(own) = ugc::area_of(token) {
            parts_name_codes(own, token.skip(3), codes[i]);
        } else {
            parts_name_codes(areas[i], token, codes[i]);
        }
        let next = done.push(codes[i]);
        assert(next =~= codes.take(i + 1));
        lemma_codes_accepted(tokens, i + 1, end, Some(areas[i]), next, codes, areas);
    }
}

/// A text of codes and a purge time, each followed by a dash, is read as areas
/// with those codes and that purge time.
pub proof fn areas_are_read_wherever_they_stand(
    raw: Seq<char>,
    codes: Seq<UgcCode>,
    areas: Seq<UgcArea>,
)
    requires
        ({
            let tokens = text::split(raw, '-');
            let t = text::trim(tokens[tokens.len() - 2]);
            &&& codes.len() > 0
            &&& tokens.len() == codes.len() + 2
            &&& codes_in_turn(tokens, codes, areas)
            &&& text::trim(tokens.last()).len() == 0
            &&& t.len() == 6 && digits_at(t, 0, 6)
            &&& 1 <= pair_at(t, 0) <= 31 && pair_at(t, 2) <= 23 && pair_at(t, 4) <= 59
        }),
    ensures
        ugc::parse_ugc(raw) matches Some(u) && u.codes == codes && u.raw == raw,
{
    let tokens = text::split(raw, '-');
    let t = text::trim(tokens[tokens.len() - 2]);
    lemma_digits_at(t, 0, 6);
    assert(t.subrange(0, 6) =~= t);
    assert(codes.take(0) =~= Seq::<UgcCode>::empty());
    lemma_codes_accepted(tokens, 0, tokens.len() - 2, None, Seq::empty(), codes, areas);
}

/// The areas of a code are written out: a range gives every number from its
/// first to its last, in order; any other code gives one text.
pub proof fn ranges_are_written_out(state: UgcState, kind: UgcKind, start: u16, end: u16, n: int)
    requires
        start <= n <= end,
    ensures
        ({
            let all = ugc::expand_code(UgcCode::Range { state, kind, start, end });
            &&& all.len() == end - start + 1
            &&& all[n - start] == ugc::area_text(state, kind, n)
            &&& ugc::expand_code(UgcCode::Single { state, kind, number: start }) == seq![
                ugc::area_text(state, kind, start as int),
            ]
            &&& ugc::expand_code(UgcCode::Unspecified { state, kind }) == seq![
                ugc::area_text(state, kind, 0),
            ]
            &&& ugc::expand_code(UgcCode::All { state, kind }) == seq![
                seq![state.first, state.second, ugc::kind_char(kind), 'A', 'L', 'L'],
            ]
        }),
{
    reveal_strlit("ALL");
    let a = seq![state.first, state.second, ugc::kind_char(kind)] + "ALL"@;
    assert(a =~= seq![state.first, state.second, ugc::kind_char(kind), 'A', 'L', 'L']);
}

/// The areas of several codes are those of the first followed by those of the
/// rest: they come in the order of the codes.
pub proof fn areas_come_in_the_order_of_codes(a: Seq<UgcCode>, b: Seq<UgcCode>)
    ensures
        ugc::expand_codes(a + b) == ugc::expand_codes(a) + ugc::expand_codes(b),
    decreases b.len(),
{
    if b.len() == 0 {
        assert(a + b =~= a);
        assert(ugc::expand_codes(a) + ugc::expand_codes(b) =~= ugc::expand_codes(a));
    } else {
        let front = b.drop_last();
        areas_come_in_the_order_of_codes(a, front);
        assert((a + b).drop_last() =~= a + front);
        assert((a + b).last() == b.last());
        assert(ugc::expand_codes(a + b) =~= ugc::expand_codes(a) + ugc::expand_codes(b));
    }
}

/// The text of a numbered area names that area when it is read: its two
/// letters are the state, the third the kind, and the rest the number.
pub proof fn area_texts_read_back(state: UgcState, kind: UgcKind, n: u16, before: Option<UgcArea>)
    requires
        1 <= n <= 999,
        'A' <= state.first <= 'Z',
        'A' <= state.second <= 'Z',
    ensures
        ugc::area_text(state, kind, n as int).len() == 6,
        ugc::code_of(ugc::area_text(state, kind, n as int), before) == Some(
            (UgcArea { state, kind }, UgcCode::Single { state, kind, number: n }),
        ),
        ugc::kind_char(UgcKind::County) == 'C',
        ugc::kind_char(UgcKind::Zone) == 'Z',
{
    reveal_strlit("ALL");
    let t = ugc::area_text(state, kind, n as int);
    let p = number::padded(n as nat, 3);
    number::lemma_padded_reads_back(n as nat, 3);
    lemma_padded_three(n as nat);
    assert(t.skip(3) =~= p);
    assert(text::is_digit(p[0]));
    if p == "ALL"@ {
        assert("ALL"@[0] == 'A');
    }
}

proof fn lemma_padded_three(n: nat)
    requires
        n <= 999,
    ensures
        number::padded(n, 3).len() == 3,
{
    reveal_with_fuel(number::decimal, 4);
}

// ---------------------------------------------------------------------------
// Positions
// ---------------------------------------------------------------------------

/// Whether words are points: latitude and longitude in turn, each of four or
/// five digits.
pub open spec fn words_are_points(words: Seq<Seq<char>>, from: int, points: Seq<GeoPoint>) -> bool {
    &&& words.len() == from + 2 * points.len()
    &&& forall|k: int|
        0 <= k < points.len() ==> {
            &&& is_coordinate(words[from + 2 * k], (#[trigger] points[k]).latitude as int)
            &&& is_coordinate(words[from + 2 * k + 1], points[k].longitude as int)
        }
}

/// Whether a word of four or five digits stands for a number of hundredths.
pub open spec fn is_coordinate(word: Seq<char>, n: int) -> bool {
    &&& 4 <= word.len() <= 5
    &&& digits_at(word, 0, word.len() as int)
    &&& n == (if word.len() == 4 {
        pair_at(word, 0) * 100 + pair_at(word, 2)
    } else {
        (pair_at(word, 0) * 100 + pair_at(word, 2)) * 10 + (word[4] as int - 48)
    })
}

proof fn lemma_coordinate(word: Seq<char>)
    ensures
        match geo::coordinate(word) {
            Some(n) => is_coordinate(word, n as int),
            None => forall|n: int| !#[trigger] is_coordinate(word, n),
        },
{
    if 4 <= word.len() <= 5 {
        lemma_digits_at(word, 0, word.len() as int);
        assert(word.subrange(0, word.len() as int) =~= word);
        if number::all_digits(word) {
            let four = word.subrange(0, 4);
            lemma_four_digits(word, 0);
            if word.len() == 5 {
                assert(word.drop_last() =~= four);
                assert('0' <= word[4] <= '9');
            } else {
                assert(word =~= four);
            }
        }
    }
}

proof fn lemma_points(words: Seq<Seq<char>>, from: int, i: int, done: Seq<GeoPoint>)
    requires
        0 <= from <= i <= words.len(),
        i == from + 2 * done.len(),
        forall|k: int|
            0 <= k < done.len() ==> {
                &&& is_coordinate(words[from + 2 * k], (#[trigger] done[k]).latitude as int)
                &&& is_coordinate(words[from + 2 * k + 1], done[k].longitude as int)
            },
    ensures
        geo::points_from(words, i, done) matches Some(points) ==> words_are_points(
            words,
            from,
            points,
        ),
    decreases words.len() - i,
{
    if i + 1 < words.len() {
        lemma_coordinate(words[i]);
        lemma_coordinate(words[i + 1]);
        if let (Some(latitude), Some(longitude)) = (
            geo::coordinate(words[i]),
            geo::coordinate(words[i + 1]),
        ) {
            lemma_points(words, from, i + 2, done.push(GeoPoint { latitude, longitude }));
        }
    }
}

proof fn lemma_points_accepted(
    words: Seq<Seq<char>>,
    from: int,
    i: int,
    done: Seq<GeoPoint>,
    points: Seq<GeoPoint>,
)
    requires
        0 <= from <= i <= words.len(),
        i == from + 2 * done.len(),
        words_are_points(words, from, points),
        done == points.take(done.len() as int),
        done.len() <= points.len(),
    ensures
        geo::points_from(words, i, done) == Some(points),
    decreases words.len() - i,
{
    let k = done.len() as int;
    if i >= words.len() {
        assert(done =~= points);
    } else {
        let p = points[k];
        assert(is_coordinate(words[from + 2 * k], p.latitude as int));
        assert(is_coordinate(words[from + 2 * k + 1], p.longitude as int));
        lemma_coordinate(words[i]);
        lemma_coordinate(words[i + 1]);
        let next = done.push(p);
        assert(next =~= points.take(k + 1));
        lemma_points_accepted(words, from, i + 2, next, points);
    }
}

/// A text that begins with the word for a polygon and goes on with points is
/// read as a polygon of those points.
pub proof fn polygons_are_read_wherever_they_stand(raw: Seq<char>, points: Seq<GeoPoint>)
    requires
        text::words(raw).len() > 0,
        text::words(raw)[0] == "LAT...LON"@,
        points.len() > 0,
        words_are_points(text::words(raw), 1, points),
    ensures
        geo::parse_lat_lon(raw) matches Some(p) && p.raw == raw && p.points == points,
{
    assert(points.take(0) =~= Seq::<GeoPoint>::empty());
    lemma_points_accepted(text::words(raw), 1, 1, Seq::empty(), points);
}

/// A line that begins with the word for a motion and goes on with a time, a
/// direction, a speed and locations is read as that motion.
pub proof fn motions_are_read_wherever_they_stand(raw: Seq<char>, locations: Seq<GeoPoint>)
    requires
        ({
            let words = text::words(raw);
            &&& words.len() >= 6
            &&& words[0] == "TIME...MOT...LOC"@
            &&& words[1].len() == 5 && digits_at(words[1], 0, 4) && words[1][4] == 'Z'
            &&& pair_at(words[1], 0) <= 23 && pair_at(words[1], 2) <= 59
            &&& words[2].len() > 3 && words[2].skip(words[2].len() - 3) == seq!['D', 'E', 'G']
            &&& number::all_digits(words[2].take(words[2].len() - 3))
            &&& number::digits_value(words[2].take(words[2].len() - 3)) <= 360
            &&& words[3].len() > 2 && words[3].skip(words[3].len() - 2) == seq!['K', 'T']
            &&& number::all_digits(words[3].take(words[3].len() - 2))
            &&& number::digits_value(words[3].take(words[3].len() - 2)) <= 255
            &&& words_are_points(words, 4, locations)
        }),
    ensures
        geo::parse_motion(raw) matches Some(m) && m.locations == locations,
{
    reveal_strlit("DEG");
    reveal_strlit("KT");
    assert("DEG"@ =~= seq!['D', 'E', 'G']);
    assert("KT"@ =~= seq!['K', 'T']);
    let words = text::words(raw);
    let t = words[1];
    lemma_digits_at(t, 0, 4);
    assert(t.take(4) =~= t.subrange(0, 4));
    assert(locations.take(0) =~= Seq::<GeoPoint>::empty());
    lemma_points_accepted(words, 4, 4, Seq::empty(), locations);
}

/// A polygon holds one point for each two words behind its first, latitude
/// before longitude, in their order.
pub proof fn polygons_hold_their_points(raw: Seq<char>)
    ensures
        geo::parse_lat_lon(raw) matches Some(p) ==> {
            let words = text::words(raw);
            &&& p.raw == raw
            &&& words[0] == "LAT...LON"@
            &&& p.points.len() > 0
            &&& words_are_points(words, 1, p.points)
        },
{
    let words = text::words(raw);
    if words.len() >= 3 {
        lemma_points(words, 1, 1, Seq::empty());
    }
}

/// A motion line holds its time, its direction in degrees, its speed in knots
/// and its locations, each from the word in its place.
pub proof fn motion_lines_hold_their_parts(raw: Seq<char>)
    ensures
        geo::parse_motion(raw) matches Some(m) ==> {
            let words = text::words(raw);
            let d = words[2];
            let k = words[3];
            &&& m.raw == raw
            &&& words[0] == "TIME...MOT...LOC"@
            &&& words[1].len() == 5 && digits_at(words[1], 0, 4) && words[1][4] == 'Z'
            &&& m.hour == pair_at(words[1], 0) && m.hour <= 23
            &&& m.minute == pair_at(words[1], 2) && m.minute <= 59
            &&& d.len() > 3 && d.skip(d.len() - 3) == seq!['D', 'E', 'G']
            &&& m.direction_degrees == number::digits_value(d.take(d.len() - 3))
            &&& m.direction_degrees <= 360
            &&& k.len() > 2 && k.skip(k.len() - 2) == seq!['K', 'T']
            &&& m.speed_knots == number::digits_value(k.take(k.len() - 2))
            &&& m.locations.len() > 0
            &&& words_are_points(words, 4, m.locations)
        },
{
    reveal_strlit("DEG");
    reveal_strlit("KT");
    assert("DEG"@ =~= seq!['D', 'E', 'G']);
    assert("KT"@ =~= seq!['K', 'T']);
    let words = text::words(raw);
    if words.len() >= 6 {
        lemma_points(words, 4, 4, Seq::empty());
        let t = words[1];
        if t.len() == 5 {
            lemma_digits_at(t, 0, 4);
            assert(t.take(4) =~= t.subrange(0, 4));
            if digits_at(t, 0, 4) {
                assert('0' <= t[0] <= '9' && '0' <= t[1] <= '9' && '0' <= t[2] <= '9' && '0' <= t[3]
                    <= '9');
            }
        }
        let d = words[2];
        let k = words[3];
        if d.len() > 3 && number::all_digits(d.take(d.len() - 3)) {
            number::lemma_digits_value_bound(d.take(d.len() - 3));
        }
        if k.len() > 2 && number::all_digits(k.take(k.len() - 2)) {
            number::lemma_digits_value_bound(k.take(k.len() - 2));
        }
    }
}

} // verus!
