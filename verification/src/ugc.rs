//! Universal Geographic Code strings.

use vstd::prelude::*;
use vstd::slice::slice_subrange;

use crate::error::{ErrorKind, Field, ParseError, Result};
use crate::header;
use crate::number;
use crate::text;

verus! {

/// Whether a code counts counties or forecast zones.
#[derive(Debug, Clone, Copy, PartialEq, Eq, Structural)]
pub enum UgcKind {
    County,
    Zone,
}

/// The two letters of a state or marine area.
#[derive(Debug, Clone, Copy, PartialEq, Eq, Structural)]
pub struct UgcState {
    pub first: char,
    pub second: char,
}

/// One code of a UGC string.
#[derive(Debug, Clone, Copy, PartialEq, Eq, Structural)]
pub enum UgcCode {
    Single { state: UgcState, kind: UgcKind, number: u16 },
    Range { state: UgcState, kind: UgcKind, start: u16, end: u16 },
    All { state: UgcState, kind: UgcKind },
    Unspecified { state: UgcState, kind: UgcKind },
}

/// Day of month, hour and minute at which a product leaves the system.
#[derive(Debug, Clone, Copy, PartialEq, Eq, Structural)]
pub struct UgcPurgeTime {
    pub day: u8,
    pub hour: u8,
    pub minute: u8,
}

/// A UGC string: codes and a purge time.
#[derive(Debug, Clone, PartialEq, Eq)]
pub struct UgcString {
    raw: String,
    pub codes: Vec<UgcCode>,
    purge_time: UgcPurgeTime,
}

/// What a UGC string holds.
pub struct UgcStringView {
    pub raw: Seq<char>,
    pub codes: Seq<UgcCode>,
    pub purge_time: UgcPurgeTime,
}

impl DeepView for UgcString {
    type V = UgcStringView;

    closed spec fn deep_view(&self) -> UgcStringView {
        UgcStringView { raw: self.raw@, codes: self.codes@, purge_time: self.purge_time }
    }
}

// ---------------------------------------------------------------------------
// Grammar
// ---------------------------------------------------------------------------

/// The state and kind that a code without them inherits.
#[derive(Debug, Clone, Copy, PartialEq, Eq, Structural)]
pub struct UgcArea {
    pub state: UgcState,
    pub kind: UgcKind,
}

/// Reads what follows state and kind: `ALL`, a three-digit number or a range
/// of two such numbers joined by `>`.
pub open spec fn code_in(area: UgcArea, part: Seq<char>) -> Option<UgcCode> {
    let state = area.state;
    let kind = area.kind;
    if part == "ALL"@ {
        Some(UgcCode::All { state, kind })
    } else if part.len() == 3 && number::all_digits(part) {
        if number::digits_value(part) == 0 {
            Some(UgcCode::Unspecified { state, kind })
        } else {
            Some(UgcCode::Single { state, kind, number: number::digits_value(part) as u16 })
        }
    } else if part.len() == 7 && part[3] == '>' && number::all_digits(part.take(3))
        && number::all_digits(part.skip(4)) && number::digits_value(part.take(3))
        <= number::digits_value(part.skip(4)) {
        Some(
            UgcCode::Range {
                state,
                kind,
                start: number::digits_value(part.take(3)) as u16,
                end: number::digits_value(part.skip(4)) as u16,
            },
        )
    } else {
        None
    }
}

/// The state and kind that a token begins with.
pub open spec fn area_of(token: Seq<char>) -> Option<UgcArea> {
    if token.len() >= 3 && text::is_upper(token[0]) && text::is_upper(token[1]) && (token[2] == 'C'
        || token[2] == 'Z') {
        Some(
            UgcArea {
                state: UgcState { first: token[0], second: token[1] },
                kind: if token[2] == 'C' {
                    UgcKind::County
                } else {
                    UgcKind::Zone
                },
            },
        )
    } else {
        None
    }
}

/// Reads one token: a full code, or one that inherits `area`.
pub open spec fn code_of(token: Seq<char>, area: Option<UgcArea>) -> Option<(UgcArea, UgcCode)> {
    match area_of(token) {
        Some(own) => match code_in(own, token.skip(3)) {
            Some(code) => Some((own, code)),
            None => None,
        },
        None => match area {
            Some(inherited) => match code_in(inherited, token) {
                Some(code) => Some((inherited, code)),
                None => None,
            },
            None => None,
        },
    }
}

/// Reads the tokens `i..end`, appending their codes to `done`.
pub open spec fn codes_from(
    tokens: Seq<Seq<char>>,
    i: int,
    end: int,
    area: Option<UgcArea>,
    done: Seq<UgcCode>,
) -> Option<Seq<UgcCode>>
    decreases end - i,
{
    if i >= end {
        Some(done)
    } else {
        match code_of(text::trim(tokens[i]), area) {
            Some((next, code)) => codes_from(tokens, i + 1, end, Some(next), done.push(code)),
            None => None,
        }
    }
}

/// Reads a purge time `ddhhmm`.
pub open spec fn parse_purge(s: Seq<char>) -> Option<UgcPurgeTime> {
    if header::is_day_time(s) {
        Some(
            UgcPurgeTime {
                day: header::two_digits(s, 0) as u8,
                hour: header::two_digits(s, 2) as u8,
                minute: header::two_digits(s, 4) as u8,
            },
        )
    } else {
        None
    }
}

/// Reads a UGC string: codes, then a purge time, each followed by a dash.
pub open spec fn parse_ugc(raw: Seq<char>) -> Option<UgcStringView> {
    let tokens = text::split(raw, '-');
    let n = tokens.len();
    if n < 3 || text::trim(tokens[n - 1]).len() > 0 {
        None
    } else {
        match (
            codes_from(tokens, 0, n - 2, None, Seq::empty()),
            parse_purge(text::trim(tokens[n - 2])),
        ) {
            (Some(codes), Some(purge_time)) => Some(UgcStringView { raw, codes, purge_time }),
            _ => None,
        }
    }
}

fn read_three(s: &[char]) -> (r: u16)
    requires
        s@.len() == 3,
        number::all_digits(s@),
    ensures
        r == number::digits_value(s@),
        r <= 999,
{
    proof {
        number::lemma_digits_value_bound(s@);
    }
    match number::digits_upto(s, 999) {
        Some(v) => v as u16,
        None => 0,
    }
}

fn read_code_in(area: UgcArea, part: &[char]) -> (r: Option<UgcCode>)
    ensures
        r == code_in(area, part@),
{
    let state = area.state;
    let kind = area.kind;
    if text::is_str(part, "ALL") {
        return Some(UgcCode::All { state, kind });
    }
    if part.len() == 3 && number::only_digits(part) {
        let v: u16 = read_three(part);
        return if v == 0 {
            Some(UgcCode::Unspecified { state, kind })
        } else {
            Some(UgcCode::Single { state, kind, number: v })
        };
    }
    if part.len() == 7 && part[3] == '>' {
        let a = slice_subrange(part, 0, 3);
        let b = slice_subrange(part, 4, 7);
        assert(a@ =~= part@.take(3));
        assert(b@ =~= part@.skip(4));
        if number::only_digits(a) && number::only_digits(b) {
            let start: u16 = read_three(a);
            let end: u16 = read_three(b);
            if start <= end {
                return Some(UgcCode::Range { state, kind, start, end });
            }
        }
    }
    None
}

fn read_code(token: &[char], area: Option<UgcArea>) -> (r: Option<(UgcArea, UgcCode)>)
    ensures
        r == code_of(token@, area),
{
    if token.len() >= 3 && text::upper_letter(token[0]) && text::upper_letter(token[1]) && (token[2]
        == 'C' || token[2] == 'Z') {
        let own = UgcArea {
            state: UgcState { first: token[0], second: token[1] },
            kind: if token[2] == 'C' {
                UgcKind::County
            } else {
                UgcKind::Zone
            },
        };
        let part = slice_subrange(token, 3, token.len());
        assert(part@ =~= token@.skip(3));
        return match read_code_in(own, part) {
            Some(code) => Some((own, code)),
            None => None,
        };
    }
    match area {
        Some(inherited) => match read_code_in(inherited, token) {
            Some(code) => Some((inherited, code)),
            None => None,
        },
        None => None,
    }
}

fn read_purge(s: &[char]) -> (r: Option<UgcPurgeTime>)
    ensures
        r == parse_purge(s@),
{
    if !header::day_time(s) {
        return None;
    }
    Some(
        UgcPurgeTime {
            day: header::read_two_digits(s, 0),
            hour: header::read_two_digits(s, 2),
            minute: header::read_two_digits(s, 4),
        },
    )
}

impl UgcString {
    pub fn parse(raw: &[char]) -> (r: Result<UgcString>)
        ensures
            match r {
                Ok(ugc) => parse_ugc(raw@) == Some(ugc.deep_view()),
                Err(e) => parse_ugc(raw@) is None && e.kind == ErrorKind::InvalidField(
                    Field::UgcString,
                ),
            },
    {
        let bad = ParseError::new(ErrorKind::InvalidField(Field::UgcString));
        let tokens = text::split_on(raw, '-');
        let ghost all = text::split(raw@, '-');
        let n: usize = tokens.len();
        assert(all.len() == n);
        assert(forall|k: int| 0 <= k < n ==> all[k] == (#[trigger] tokens@[k])@);
        if n < 3 {
            return Err(bad);
        }
        if text::trim_of(tokens[n - 1].as_slice()).len() > 0 {
            return Err(bad);
        }
        let purge_time = match read_purge(text::trim_of(tokens[n - 2].as_slice())) {
            Some(p) => p,
            None => {
                return Err(bad);
            },
        };
        let mut codes: Vec<UgcCode> = Vec::new();
        let mut area: Option<UgcArea> = None;
        let mut i: usize = 0;
        while i < n - 2
            invariant
                n >= 3,
                i <= n - 2,
                all == text::split(raw@, '-'),
                n == tokens@.len(),
                all.len() == n,
                forall|k: int| 0 <= k < n ==> all[k] == (#[trigger] tokens@[k])@,
                bad.kind == ErrorKind::InvalidField(Field::UgcString),
                codes_from(all, 0, n - 2, None, Seq::empty()) == codes_from(
                    all,
                    i as int,
                    n - 2,
                    area,
                    codes@,
                ),
            decreases n - i,
        {
            match read_code(text::trim_of(tokens[i].as_slice()), area) {
                Some((next, code)) => {
                    area = Some(next);
                    codes.push(code);
                },
                None => {
                    return Err(bad);
                },
            }
            i += 1;
        }
        Ok(UgcString { raw: text::to_text(raw), codes, purge_time })
    }

    /// The string as written.
    pub fn raw(&self) -> (r: &str)
        ensures
            r@ == self.deep_view().raw,
    {
        self.raw.as_str()
    }

    /// The codes in order.
    pub fn codes(&self) -> (r: &Vec<UgcCode>)
        ensures
            r@ == self.deep_view().codes,
    {
        &self.codes
    }

    /// The purge time.
    pub fn purge_time(&self) -> (r: UgcPurgeTime)
        ensures
            r == self.deep_view().purge_time,
    {
        self.purge_time
    }
}

// ---------------------------------------------------------------------------
// Text forms
// ---------------------------------------------------------------------------

/// The letter of a kind.
pub open spec fn kind_char(kind: UgcKind) -> char {
    match kind {
        UgcKind::County => 'C',
        UgcKind::Zone => 'Z',
    }
}

pub fn ugc_kind_char(kind: UgcKind) -> (r: char)
    ensures
        r == kind_char(kind),
{
    match kind {
        UgcKind::County => 'C',
        UgcKind::Zone => 'Z',
    }
}

/// The text of one numbered area, such as `ILC089`.
pub open spec fn area_text(state: UgcState, kind: UgcKind, number: int) -> Seq<char> {
    seq![state.first, state.second, kind_char(kind)] + number::padded(number as nat, 3)
}

fn write_area(state: UgcState, kind: UgcKind, number: u16) -> (r: String)
    ensures
        r@ == area_text(state, kind, number as int),
{
    let mut v: Vec<char> = Vec::new();
    v.push(state.first);
    v.push(state.second);
    v.push(ugc_kind_char(kind));
    let d = number::to_padded(number as u64, 3);
    text::push_all(&mut v, d.as_slice());
    assert(v@ =~= area_text(state, kind, number as int));
    text::to_text(v.as_slice())
}

/// The texts of the areas `start..=end`.
pub open spec fn range_texts(state: UgcState, kind: UgcKind, start: int, end: int) -> Seq<
    Seq<char>,
> {
    Seq::new(
        if start <= end {
            (end - start + 1) as nat
        } else {
            0
        },
        |i: int| area_text(state, kind, start + i),
    )
}

/// The areas that one code names, each as text.
pub open spec fn expand_code(code: UgcCode) -> Seq<Seq<char>> {
    match code {
        UgcCode::Single { state, kind, number } => seq![area_text(state, kind, number as int)],
        UgcCode::Range { state, kind, start, end } => range_texts(
            state,
            kind,
            start as int,
            end as int,
        ),
        UgcCode::All { state, kind } => seq![
            seq![state.first, state.second, kind_char(kind)] + "ALL"@,
        ],
        UgcCode::Unspecified { state, kind } => seq![area_text(state, kind, 0)],
    }
}

/// The areas that a list of codes names, in order, with ranges written out.
pub open spec fn expand_codes(codes: Seq<UgcCode>) -> Seq<Seq<char>>
    decreases codes.len(),
{
    if codes.len() == 0 {
        Seq::empty()
    } else {
        expand_codes(codes.drop_last()) + expand_code(codes.last())
    }
}

/// Lists every area of a UGC string, with ranges written out.
pub fn expand_ugc_codes(ugc: &UgcString) -> (r: Vec<String>)
    ensures
        r.deep_view() == expand_codes(ugc.deep_view().codes),
{
    let codes = ugc.codes();
    let mut values: Vec<String> = Vec::new();
    let mut i: usize = 0;
    assert(values.deep_view() =~= Seq::<Seq<char>>::empty());
    while i < codes.len()
        invariant
            i <= codes@.len(),
            codes@ == ugc.deep_view().codes,
            values.deep_view() == expand_codes(codes@.take(i as int)),
        decreases codes.len() - i,
    {
        assert(codes@.take(i + 1).drop_last() =~= codes@.take(i as int));
        push_code(&mut values, codes[i]);
        i += 1;
    }
    assert(codes@.take(i as int) =~= codes@);
    values
}

fn push_code(values: &mut Vec<String>, code: UgcCode)
    ensures
        final(values).deep_view() == old(values).deep_view() + expand_code(code),
{
    let ghost start_view = values.deep_view();
    match code {
        UgcCode::Single { state, kind, number } => {
            values.push(write_area(state, kind, number));
        },
        UgcCode::Unspecified { state, kind } => {
            values.push(write_area(state, kind, 0));
        },
        UgcCode::All { state, kind } => {
            let mut v: Vec<char> = Vec::new();
            v.push(state.first);
            v.push(state.second);
            v.push(ugc_kind_char(kind));
            text::push_str(&mut v, "ALL");
            assert(v@ =~= seq![state.first, state.second, kind_char(kind)] + "ALL"@);
            values.push(text::to_text(v.as_slice()));
        },
        UgcCode::Range { state, kind, start, end } => {
            if start <= end {
                let mut n: u16 = start;
                loop
                    invariant_except_break
                        values.deep_view() == start_view + range_texts(
                            state,
                            kind,
                            start as int,
                            n - 1,
                        ),
                    invariant
                        start <= n <= end,
                    ensures
                        values.deep_view() == start_view + range_texts(
                            state,
                            kind,
                            start as int,
                            end as int,
                        ),
                    decreases end - n,
                {
                    let ghost mid = values.deep_view();
                    let area = write_area(state, kind, n);
                    values.push(area);
                    proof {
                        assert(values.deep_view() =~= mid.push(area@));
                        assert(range_texts(state, kind, start as int, n as int) =~= range_texts(
                            state,
                            kind,
                            start as int,
                            n - 1,
                        ).push(area@));
                        assert(values.deep_view() =~= start_view + range_texts(
                            state,
                            kind,
                            start as int,
                            n as int,
                        ));
                    }
                    if n == end {
                        break;
                    }
                    n += 1;
                }
            }
        },
    }
    assert(values.deep_view() =~= start_view + expand_code(code));
}

/// The text of a purge time, `ddhhmm`.
pub open spec fn purge_text(p: UgcPurgeTime) -> Seq<char> {
    number::padded(p.day as nat, 2) + number::padded(p.hour as nat, 2) + number::padded(
        p.minute as nat,
        2,
    )
}

impl UgcPurgeTime {
    pub fn to_text(self) -> (r: String)
        ensures
            r@ == purge_text(self),
    {
        let mut v = number::to_padded(self.day as u64, 2);
        let h = number::to_padded(self.hour as u64, 2);
        let m = number::to_padded(self.minute as u64, 2);
        text::push_all(&mut v, h.as_slice());
        text::push_all(&mut v, m.as_slice());
        text::to_text(v.as_slice())
    }
}

} // verus!
