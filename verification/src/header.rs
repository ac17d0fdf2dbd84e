//! WMO abbreviated headings and AWIPS identifiers.

use vstd::prelude::*;
use vstd::slice::slice_subrange;

use crate::error::{ErrorKind, Field, ParseError, Result};
use crate::number;
use crate::text;

verus! {

// ---------------------------------------------------------------------------
// AWIPS identifiers
// ---------------------------------------------------------------------------

/// An AWIPS identifier `NNNxxx`: product category and location.
#[derive(Debug, Clone, PartialEq, Eq)]
pub struct AwipsId {
    raw: String,
}

/// Whether `s` is an AWIPS identifier: four to six upper case letters and
/// digits of which the first is a letter.
pub open spec fn is_awips_id(s: Seq<char>) -> bool {
    4 <= s.len() <= 6 && text::is_upper(s[0]) && forall|i: int|
        0 <= i < s.len() ==> (text::is_upper(#[trigger] s[i]) || text::is_digit(s[i]))
}

impl DeepView for AwipsId {
    type V = Seq<char>;

    closed spec fn deep_view(&self) -> Seq<char> {
        self.raw@
    }
}

impl AwipsId {
    /// Reads an identifier.
    pub fn parse(s: &[char]) -> (r: Option<AwipsId>)
        ensures
            match r {
                Some(id) => is_awips_id(s@) && id.deep_view() == s@,
                None => !is_awips_id(s@),
            },
    {
        if s.len() < 4 || s.len() > 6 || !text::upper_letter(s[0]) {
            return None;
        }
        let mut i: usize = 0;
        while i < s.len()
            invariant
                i <= s@.len(),
                forall|k: int|
                    0 <= k < i ==> (text::is_upper(#[trigger] s@[k]) || text::is_digit(s@[k])),
            decreases s.len() - i,
        {
            if !(text::upper_letter(s[i]) || text::digit(s[i])) {
                return None;
            }
            i += 1;
        }
        Some(AwipsId { raw: text::to_text(s) })
    }

    /// The identifier as written.
    pub fn raw(&self) -> (r: &str)
        ensures
            r@ == self.deep_view(),
    {
        self.raw.as_str()
    }

    /// An equal identifier.
    pub fn copy(&self) -> (r: AwipsId)
        ensures
            r.deep_view() == self.deep_view(),
    {
        AwipsId { raw: self.raw.clone() }
    }

    /// The product category: the first three characters.
    pub fn nnn(&self) -> (r: Vec<char>)
        ensures
            r@ == awips_nnn(self.deep_view()),
    {
        let chars = text::to_chars(self.raw.as_str());
        if chars.len() < 3 {
            return chars;
        }
        let head = slice_subrange(chars.as_slice(), 0, 3);
        assert(head@ =~= chars@.take(3));
        text::copy_chars(head)
    }
}

/// The product category of an identifier: its first three characters.
pub open spec fn awips_nnn(id: Seq<char>) -> Seq<char> {
    if id.len() < 3 {
        id
    } else {
        id.take(3)
    }
}

// ---------------------------------------------------------------------------
// Headings
// ---------------------------------------------------------------------------

/// A WMO abbreviated heading `TTAAii CCCC YYGGgg [BBB]`.
#[derive(Debug, Clone, PartialEq, Eq)]
pub struct WmoHeading {
    raw: String,
    ttaaii: String,
    cccc: String,
    yygggg: String,
    bbb: Option<String>,
}

/// What a heading holds.
pub struct WmoHeadingView {
    pub raw: Seq<char>,
    pub ttaaii: Seq<char>,
    pub cccc: Seq<char>,
    pub yygggg: Seq<char>,
    pub bbb: Option<Seq<char>>,
}

impl DeepView for WmoHeading {
    type V = WmoHeadingView;

    closed spec fn deep_view(&self) -> WmoHeadingView {
        WmoHeadingView {
            raw: self.raw@,
            ttaaii: self.ttaaii@,
            cccc: self.cccc@,
            yygggg: self.yygggg@,
            bbb: self.bbb.deep_view(),
        }
    }
}

pub open spec fn is_letters(s: Seq<char>, n: nat) -> bool {
    s.len() == n && forall|i: int| 0 <= i < n ==> text::is_upper(#[trigger] s[i])
}

pub fn letters(s: &[char], n: usize) -> (r: bool)
    ensures
        r == is_letters(s@, n as nat),
{
    if s.len() != n {
        return false;
    }
    let mut i: usize = 0;
    while i < n
        invariant
            n == s@.len(),
            i <= n,
            forall|k: int| 0 <= k < i ==> text::is_upper(#[trigger] s@[k]),
        decreases n - i,
    {
        if !text::upper_letter(s[i]) {
            return false;
        }
        i += 1;
    }
    true
}

pub open spec fn is_upper_alnum(s: Seq<char>, n: nat) -> bool {
    s.len() == n && forall|i: int|
        0 <= i < n ==> (text::is_upper(#[trigger] s[i]) || text::is_digit(s[i]))
}

pub fn upper_alnum(s: &[char], n: usize) -> (r: bool)
    ensures
        r == is_upper_alnum(s@, n as nat),
{
    if s.len() != n {
        return false;
    }
    let mut i: usize = 0;
    while i < n
        invariant
            n == s@.len(),
            i <= n,
            forall|k: int|
                0 <= k < i ==> (text::is_upper(#[trigger] s@[k]) || text::is_digit(s@[k])),
        decreases n - i,
    {
        if !(text::upper_letter(s[i]) || text::digit(s[i])) {
            return false;
        }
        i += 1;
    }
    true
}

/// Whether `s` is `TTAAii`: four letters and two digits.
pub open spec fn is_ttaaii(s: Seq<char>) -> bool {
    s.len() == 6 && is_letters(s.take(4), 4) && number::all_digits(s.skip(4))
}

/// The two-digit number at position `i`.
pub open spec fn two_digits(s: Seq<char>, i: int) -> int {
    number::digit_value(s[i]) * 10 + number::digit_value(s[i + 1])
}

/// Whether `s` is a day of month, an hour and a minute in two digits each.
pub open spec fn is_day_time(s: Seq<char>) -> bool {
    &&& s.len() == 6
    &&& number::all_digits(s)
    &&& 1 <= two_digits(s, 0) <= 31
    &&& two_digits(s, 2) <= 23
    &&& two_digits(s, 4) <= 59
}

pub fn read_two_digits(s: &[char], i: usize) -> (r: u8)
    requires
        i + 1 < s@.len(),
        text::is_digit(s@[i as int]),
        text::is_digit(s@[i + 1]),
    ensures
        r == two_digits(s@, i as int),
        r <= 99,
{
    let a: u8 = (s[i] as u32 - 48) as u8;
    let b: u8 = (s[i + 1] as u32 - 48) as u8;
    a * 10 + b
}

pub fn day_time(s: &[char]) -> (r: bool)
    ensures
        r == is_day_time(s@),
{
    if s.len() != 6 || !number::only_digits(s) {
        return false;
    }
    let day: u8 = read_two_digits(s, 0);
    1 <= day && day <= 31 && read_two_digits(s, 2) <= 23 && read_two_digits(s, 4) <= 59
}

/// Reads a heading line whose parts are separated by spaces.
pub open spec fn parse_heading(line: Seq<char>) -> Option<WmoHeadingView> {
    let parts = spaced(line);
    if (parts.len() == 3 || parts.len() == 4) && is_ttaaii(parts[0]) && is_upper_alnum(parts[1], 4)
        && is_day_time(parts[2]) && (parts.len() == 4 ==> is_letters(parts[3], 3)) {
        Some(
            WmoHeadingView {
                raw: line,
                ttaaii: parts[0],
                cccc: parts[1],
                yygggg: parts[2],
                bbb: if parts.len() == 4 {
                    Some(parts[3])
                } else {
                    None
                },
            },
        )
    } else {
        None
    }
}

/// The non-empty pieces of `s` between spaces.
pub open spec fn spaced(s: Seq<char>) -> Seq<Seq<char>> {
    non_empty(text::split(s, ' '))
}

pub open spec fn non_empty(pieces: Seq<Seq<char>>) -> Seq<Seq<char>>
    decreases pieces.len(),
{
    if pieces.len() == 0 {
        Seq::empty()
    } else if pieces.last().len() > 0 {
        non_empty(pieces.drop_last()).push(pieces.last())
    } else {
        non_empty(pieces.drop_last())
    }
}

pub fn spaced_of(s: &[char]) -> (r: Vec<Vec<char>>)
    ensures
        text::views(r@) == spaced(s@),
{
    let pieces = text::split_on(s, ' ');
    let mut out: Vec<Vec<char>> = Vec::new();
    let mut i: usize = 0;
    let ghost all = text::views(pieces@);
    assert(text::views(out@) =~= Seq::<Seq<char>>::empty());
    while i < pieces.len()
        invariant
            i <= pieces@.len(),
            all == text::views(pieces@),
            text::views(out@) == non_empty(all.take(i as int)),
        decreases pieces.len() - i,
    {
        let ghost before = out@;
        let ghost upto = all.take(i + 1);
        assert(upto.drop_last() =~= all.take(i as int));
        assert(upto.last() == pieces@[i as int]@);
        if pieces[i].len() > 0 {
            out.push(text::copy_chars(pieces[i].as_slice()));
            assert(text::views(out@) =~= text::views(before).push(pieces@[i as int]@));
        }
        i += 1;
    }
    assert(all.take(i as int) =~= all);
    out
}

impl WmoHeading {
    pub fn parse(line: &[char]) -> (r: Result<WmoHeading>)
        ensures
            match r {
                Ok(h) => parse_heading(line@) == Some(h.deep_view()),
                Err(e) => parse_heading(line@) is None && e.kind == ErrorKind::InvalidField(
                    Field::Heading,
                ),
            },
    {
        let parts = spaced_of(line);
        let ghost p = spaced(line@);
        assert(p.len() == parts@.len());
        assert(forall|i: int| 0 <= i < parts@.len() ==> p[i] == (#[trigger] parts@[i])@);
        let bad = ParseError::new(ErrorKind::InvalidField(Field::Heading));
        if parts.len() != 3 && parts.len() != 4 {
            return Err(bad);
        }
        let ttaaii = parts[0].as_slice();
        if ttaaii.len() != 6 {
            return Err(bad);
        }
        let tt = slice_subrange(ttaaii, 0, 4);
        let ii = slice_subrange(ttaaii, 4, 6);
        assert(tt@ =~= p[0].take(4));
        assert(ii@ =~= p[0].skip(4));
        if !letters(tt, 4) || !number::only_digits(ii) || !upper_alnum(parts[1].as_slice(), 4)
            || !day_time(parts[2].as_slice()) {
            return Err(bad);
        }
        let bbb: Option<String> = if parts.len() == 4 {
            if !letters(parts[3].as_slice(), 3) {
                return Err(bad);
            }
            Some(text::to_text(parts[3].as_slice()))
        } else {
            None
        };
        Ok(
            WmoHeading {
                raw: text::to_text(line),
                ttaaii: text::to_text(parts[0].as_slice()),
                cccc: text::to_text(parts[1].as_slice()),
                yygggg: text::to_text(parts[2].as_slice()),
                bbb,
            },
        )
    }

    /// The heading line as written.
    pub fn raw(&self) -> (r: &str)
        ensures
            r@ == self.deep_view().raw,
    {
        self.raw.as_str()
    }

    /// The data type and area designator.
    pub fn ttaaii(&self) -> (r: &str)
        ensures
            r@ == self.deep_view().ttaaii,
    {
        self.ttaaii.as_str()
    }

    /// The originating office.
    pub fn cccc(&self) -> (r: &str)
        ensures
            r@ == self.deep_view().cccc,
    {
        self.cccc.as_str()
    }

    /// The day of month and UTC time.
    pub fn yygggg(&self) -> (r: &str)
        ensures
            r@ == self.deep_view().yygggg,
    {
        self.yygggg.as_str()
    }

    /// The amendment, correction or delay indicator.
    pub fn bbb(&self) -> (r: Option<String>)
        ensures
            r.deep_view() == self.deep_view().bbb,
    {
        match &self.bbb {
            Some(b) => Some(b.clone()),
            None => None,
        }
    }

    /// The canonical form: the parts with one space between each two.
    pub fn canonical(&self) -> (r: String)
        ensures
            r@ == heading_text(self.deep_view()),
    {
        let mut v: Vec<char> = Vec::new();
        text::push_str(&mut v, self.ttaaii.as_str());
        v.push(' ');
        text::push_str(&mut v, self.cccc.as_str());
        v.push(' ');
        text::push_str(&mut v, self.yygggg.as_str());
        if let Some(b) = &self.bbb {
            v.push(' ');
            text::push_str(&mut v, b.as_str());
        }
        assert(v@ =~= heading_text(self.deep_view()));
        text::to_text(v.as_slice())
    }
}

/// The parts of a heading with one space between each two.
pub open spec fn heading_text(h: WmoHeadingView) -> Seq<char> {
    let base = h.ttaaii + seq![' '] + h.cccc + seq![' '] + h.yygggg;
    match h.bbb {
        Some(b) => base + seq![' '] + b,
        None => base,
    }
}

} // verus!
