//! What bulletins promise: which headings and identifiers are read, how a
//! bulletin is parted into heading, identifier and body, where its lines and
//! the frames of a stream lie, and which family a product belongs to.

use vstd::prelude::*;

use crate::digest;
use crate::families;
use crate::header;
use crate::ingest;
use crate::ingest::IngestHint;
use crate::lines;
use crate::number;
use crate::product;
use crate::product::{ProductFamily, ProductSegmentView};
use crate::stream;
use crate::tag_laws;
use crate::text;
use crate::vtec::Phenomenon;
use crate::wmo;
use crate::wmo::{WmoFrameKind, WmoMessageView};

verus! {

// ---------------------------------------------------------------------------
// Identifiers and numbers
// ---------------------------------------------------------------------------

pub open spec fn capital(c: char) -> bool {
    'A' <= c <= 'Z'
}

pub open spec fn numeral(c: char) -> bool {
    '0' <= c <= '9'
}

/// An AWIPS identifier has four to six characters, the first a capital and
/// the others capitals or digits.
pub proof fn identifiers_are_capitals_and_digits(s: Seq<char>)
    ensures
        header::is_awips_id(s) <==> (4 <= s.len() <= 6 && capital(s[0]) && forall|i: int|
            1 <= i < s.len() ==> capital(#[trigger] s[i]) || numeral(s[i])),
{
}

/// A digit behind a number makes it tenfold and adds to it.
pub proof fn digits_count_tens(s: Seq<char>, c: char)
    ensures
        number::digits_value(Seq::empty()) == 0,
        number::digits_value(s.push(c)) == 10 * number::digits_value(s) + (c as int - 48),
{
    assert(s.push(c).drop_last() =~= s);
}

/// A line is a sequence number exactly if it holds one to five digits and
/// nothing else, and the number is at most 65535.
pub proof fn sequence_numbers_are_short(line: Seq<char>)
    ensures
        wmo::sequence_line(line) is Some <==> (1 <= line.len() <= 5 && (forall|i: int|
            0 <= i < line.len() ==> numeral(#[trigger] line[i])) && number::digits_value(line)
            <= 65535),
        wmo::sequence_line(line) matches Some(n) ==> n == number::digits_value(line),
{
    if forall|i: int| 0 <= i < line.len() ==> numeral(#[trigger] line[i]) {
        assert(number::all_digits(line));
        number::lemma_digits_value_bound(line);
    }
}

// ---------------------------------------------------------------------------
// Headings
// ---------------------------------------------------------------------------

/// So many spaces.
pub open spec fn spaces(n: nat) -> Seq<char> {
    Seq::new(n, |i: int| ' ')
}

/// A text without its spaces.
pub open spec fn closed_up(s: Seq<char>) -> Seq<char> {
    s.filter(|c: char| c != ' ')
}

pub open spec fn no_space(s: Seq<char>) -> bool {
    forall|i: int| 0 <= i < s.len() ==> #[trigger] s[i] != ' '
}

proof fn lemma_non_empty_front(p: Seq<char>, rest: Seq<Seq<char>>)
    ensures
        header::non_empty(seq![p] + rest) == (if p.len() > 0 {
            seq![p]
        } else {
            Seq::empty()
        }) + header::non_empty(rest),
    decreases rest.len(),
{
    let all = seq![p] + rest;
    if rest.len() == 0 {
        assert(all.drop_last() =~= Seq::<Seq<char>>::empty());
        assert(all.last() == p);
        assert(header::non_empty(all.drop_last()) =~= Seq::<Seq<char>>::empty());
        assert(header::non_empty(rest) =~= Seq::<Seq<char>>::empty());
        if p.len() > 0 {
            assert(header::non_empty(all) =~= seq![p] + header::non_empty(rest));
        } else {
            assert(header::non_empty(all) =~= Seq::<Seq<char>>::empty() + header::non_empty(rest));
        }
    } else {
        lemma_non_empty_front(p, rest.drop_last());
        assert(all.drop_last() =~= seq![p] + rest.drop_last());
        assert(all.last() == rest.last());
        let first = if p.len() > 0 {
            seq![p]
        } else {
            Seq::empty()
        };
        assert(header::non_empty(all) =~= first + header::non_empty(rest));
    }
}

proof fn lemma_spaced_space(s: Seq<char>)
    ensures
        header::spaced(seq![' '] + s) == header::spaced(s),
{
    let t = seq![' '] + s;
    text::lemma_index_is(t, ' ', 0, 0);
    assert(t.take(0) =~= Seq::<char>::empty());
    assert(t.skip(1) =~= s);
    lemma_non_empty_front(t.take(0), text::split(s, ' '));
    assert(Seq::<Seq<char>>::empty() + header::spaced(s) =~= header::spaced(s));
}

proof fn lemma_spaced_word(w: Seq<char>, s: Seq<char>)
    requires
        w.len() > 0,
        no_space(w),
    ensures
        header::spaced(w + seq![' '] + s) == seq![w] + header::spaced(s),
{
    let t = w + seq![' '] + s;
    let k = w.len() as int;
    assert(t[k] == ' ');
    assert forall|j: int| 0 <= j < k implies #[trigger] t[j] != ' ' by {
        assert(t[j] == w[j]);
    }
    text::lemma_index_is(t, ' ', 0, k);
    assert(t.take(k) =~= w);
    assert(t.skip(k + 1) =~= s);
    lemma_non_empty_front(w, text::split(s, ' '));
}

proof fn lemma_spaced_last(w: Seq<char>)
    requires
        w.len() > 0,
        no_space(w),
    ensures
        header::spaced(w) == seq![w],
{
    text::lemma_index_from(w, ' ', 0);
    let k = text::index_from(w, ' ', 0);
    if k < w.len() {
        assert(w[k] == ' ');
    }
    let none = Seq::<Seq<char>>::empty();
    assert(text::split(w, ' ') =~= seq![w] + none);
    lemma_non_empty_front(w, none);
    assert(seq![w] + header::non_empty(none) =~= seq![w]);
}

proof fn lemma_spaced_spaces(n: nat, s: Seq<char>)
    ensures
        header::spaced(spaces(n) + s) == header::spaced(s),
    decreases n,
{
    if n == 0 {
        assert(spaces(n) + s =~= s);
    } else {
        let m = (n - 1) as nat;
        assert(spaces(n) + s =~= seq![' '] + (spaces(m) + s));
        lemma_spaced_space(spaces(m) + s);
        lemma_spaced_spaces(m, s);
    }
}

proof fn lemma_spaced_end(w: Seq<char>, n: nat)
    requires
        w.len() > 0,
        no_space(w),
    ensures
        header::spaced(w + spaces(n)) == seq![w],
{
    if n == 0 {
        assert(w + spaces(n) =~= w);
        lemma_spaced_last(w);
    } else {
        let m = (n - 1) as nat;
        assert(w + spaces(n) =~= w + seq![' '] + spaces(m));
        lemma_spaced_word(w, spaces(m));
        let none = Seq::<char>::empty();
        assert(spaces(m) =~= spaces(m) + none);
        lemma_spaced_spaces(m, none);
        text::lemma_index_from(none, ' ', 0);
        let empty = Seq::<Seq<char>>::empty();
        assert(text::split(none, ' ') =~= seq![none] + empty);
        lemma_non_empty_front(none, empty);
        assert(header::spaced(none) =~= empty);
        assert(seq![w] + empty =~= seq![w]);
    }
}

/// Whether the three parts are those of a heading: four capitals and two
/// digits; four capitals or digits; and a day from 1 to 31, an hour below 24
/// and a minute below 60 in two digits each.
pub open spec fn heading_parts(t: Seq<char>, c: Seq<char>, g: Seq<char>) -> bool {
    &&& t.len() == 6
    &&& capital(t[0]) && capital(t[1]) && capital(t[2]) && capital(t[3])
    &&& numeral(t[4]) && numeral(t[5])
    &&& c.len() == 4
    &&& forall|i: int| 0 <= i < 4 ==> capital(#[trigger] c[i]) || numeral(c[i])
    &&& g.len() == 6
    &&& forall|i: int| 0 <= i < 6 ==> numeral(#[trigger] g[i])
    &&& 1 <= (g[0] as int - 48) * 10 + (g[1] as int - 48) <= 31
    &&& (g[2] as int - 48) * 10 + (g[3] as int - 48) < 24
    &&& (g[4] as int - 48) * 10 + (g[5] as int - 48) < 60
}

/// Whether a text is the indicator behind a heading: three capitals.
pub open spec fn is_indicator(b: Seq<char>) -> bool {
    b.len() == 3 && capital(b[0]) && capital(b[1]) && capital(b[2])
}

proof fn lemma_parts_fit(t: Seq<char>, c: Seq<char>, g: Seq<char>)
    ensures
        heading_parts(t, c, g) <==> header::is_ttaaii(t) && header::is_upper_alnum(c, 4)
            && header::is_day_time(g),
        heading_parts(t, c, g) ==> no_space(t) && no_space(c) && no_space(g),
{
    if t.len() == 6 {
        let head = t.take(4);
        let tail = t.skip(4);
        assert(head[0] == t[0] && head[1] == t[1] && head[2] == t[2] && head[3] == t[3]);
        assert(tail[0] == t[4] && tail[1] == t[5]);
    }
    if heading_parts(t, c, g) {
        let head = t.take(4);
        let tail = t.skip(4);
        assert forall|i: int| 0 <= i < 4 implies text::is_upper(#[trigger] head[i]) by {
            assert(i == 0 || i == 1 || i == 2 || i == 3);
        }
        assert forall|i: int| 0 <= i < 2 implies text::is_digit(#[trigger] tail[i]) by {
            assert(i == 0 || i == 1);
        }
        assert(tail.len() == 2);
        assert forall|i: int| 0 <= i < 6 implies #[trigger] t[i] != ' ' by {
            assert(i == 0 || i == 1 || i == 2 || i == 3 || i == 4 || i == 5);
        }
    }
}

/// A heading of three parts is read with whatever spaces before, between and
/// behind them.
pub proof fn headings_are_read_with_any_spacing(
    t: Seq<char>,
    c: Seq<char>,
    g: Seq<char>,
    gaps: (nat, nat, nat, nat),
)
    requires
        heading_parts(t, c, g),
        gaps.1 > 0,
        gaps.2 > 0,
    ensures
        ({
            let line = spaces(gaps.0) + t + spaces(gaps.1) + c + spaces(gaps.2) + g + spaces(
                gaps.3,
            );
            header::parse_heading(line) == Some(
                header::WmoHeadingView { raw: line, ttaaii: t, cccc: c, yygggg: g, bbb: None },
            )
        }),
{
    lemma_parts_fit(t, c, g);
    let line = spaces(gaps.0) + t + spaces(gaps.1) + c + spaces(gaps.2) + g + spaces(gaps.3);
    let one = (gaps.1 - 1) as nat;
    let two = (gaps.2 - 1) as nat;
    let s3 = g + spaces(gaps.3);
    let s2 = c + seq![' '] + (spaces(two) + s3);
    let s1 = t + seq![' '] + (spaces(one) + s2);
    assert(spaces(gaps.1) =~= seq![' '] + spaces(one));
    assert(spaces(gaps.2) =~= seq![' '] + spaces(two));
    assert(line =~= spaces(gaps.0) + s1);
    lemma_spaced_spaces(gaps.0, s1);
    lemma_spaced_word(t, spaces(one) + s2);
    lemma_spaced_spaces(one, s2);
    lemma_spaced_word(c, spaces(two) + s3);
    lemma_spaced_spaces(two, s3);
    lemma_spaced_end(g, gaps.3);
    let parts = header::spaced(line);
    assert(parts =~= seq![t, c, g]);
}

/// A heading of four parts, the last of them an indicator of three capitals,
/// is read with whatever spaces before, between and behind them.
pub proof fn amended_headings_are_read_with_any_spacing(
    t: Seq<char>,
    c: Seq<char>,
    g: Seq<char>,
    b: Seq<char>,
    gaps: (nat, nat, nat, nat, nat),
)
    requires
        heading_parts(t, c, g),
        is_indicator(b),
        gaps.1 > 0,
        gaps.2 > 0,
        gaps.3 > 0,
    ensures
        ({
            let line = spaces(gaps.0) + t + spaces(gaps.1) + c + spaces(gaps.2) + g + spaces(
                gaps.3,
            ) + b + spaces(gaps.4);
            header::parse_heading(line) == Some(
                header::WmoHeadingView { raw: line, ttaaii: t, cccc: c, yygggg: g, bbb: Some(b) },
            )
        }),
{
    lemma_parts_fit(t, c, g);
    let line = spaces(gaps.0) + t + spaces(gaps.1) + c + spaces(gaps.2) + g + spaces(gaps.3) + b
        + spaces(gaps.4);
    let one = (gaps.1 - 1) as nat;
    let two = (gaps.2 - 1) as nat;
    let three = (gaps.3 - 1) as nat;
    let s4 = b + spaces(gaps.4);
    let s3 = g + seq![' '] + (spaces(three) + s4);
    let s2 = c + seq![' '] + (spaces(two) + s3);
    let s1 = t + seq![' '] + (spaces(one) + s2);
    assert(spaces(gaps.1) =~= seq![' '] + spaces(one));
    assert(spaces(gaps.2) =~= seq![' '] + spaces(two));
    assert(spaces(gaps.3) =~= seq![' '] + spaces(three));
    assert(line =~= spaces(gaps.0) + s1);
    lemma_spaced_spaces(gaps.0, s1);
    lemma_spaced_word(t, spaces(one) + s2);
    lemma_spaced_spaces(one, s2);
    lemma_spaced_word(c, spaces(two) + s3);
    lemma_spaced_spaces(two, s3);
    lemma_spaced_word(g, spaces(three) + s4);
    lemma_spaced_spaces(three, s4);
    assert(no_space(b));
    lemma_spaced_end(b, gaps.4);
    let parts = header::spaced(line);
    assert(parts =~= seq![t, c, g, b]);
    assert(header::is_letters(b, 3));
}

/// The pieces one after the other.
pub open spec fn run_of(pieces: Seq<Seq<char>>) -> Seq<char>
    decreases pieces.len(),
{
    if pieces.len() == 0 {
        Seq::empty()
    } else {
        run_of(pieces.drop_last()) + pieces.last()
    }
}

proof fn lemma_run_front(p: Seq<char>, rest: Seq<Seq<char>>)
    ensures
        run_of(seq![p] + rest) == p + run_of(rest),
    decreases rest.len(),
{
    let all = seq![p] + rest;
    if rest.len() == 0 {
        assert(all.drop_last() =~= Seq::<Seq<char>>::empty());
        assert(run_of(all.drop_last()) =~= Seq::<char>::empty());
        assert(run_of(all) =~= p + run_of(rest));
    } else {
        lemma_run_front(p, rest.drop_last());
        assert(all.drop_last() =~= seq![p] + rest.drop_last());
        assert(run_of(all) =~= p + run_of(rest));
    }
}

proof fn lemma_run_non_empty(pieces: Seq<Seq<char>>)
    ensures
        run_of(header::non_empty(pieces)) == run_of(pieces),
    decreases pieces.len(),
{
    if pieces.len() > 0 {
        let rest = pieces.drop_last();
        lemma_run_non_empty(rest);
        if pieces.last().len() > 0 {
            assert(header::non_empty(pieces).drop_last() =~= header::non_empty(rest));
        } else {
            assert(run_of(rest) + pieces.last() =~= run_of(rest));
        }
    }
}

proof fn lemma_run_split(s: Seq<char>)
    ensures
        run_of(text::split(s, ' ')) == closed_up(s),
    decreases s.len(),
{
    let keep = |c: char| c != ' ';
    text::lemma_index_from(s, ' ', 0);
    let k = text::index_from(s, ' ', 0);
    let none = Seq::<Seq<char>>::empty();
    if k < s.len() {
        lemma_run_split(s.skip(k + 1));
        lemma_run_front(s.take(k), text::split(s.skip(k + 1), ' '));
        let a = s.take(k);
        let b = s.skip(k + 1);
        assert(s =~= (a + seq![' ']) + b);
        Seq::filter_distributes_over_add(a + seq![' '], b, keep);
        Seq::filter_distributes_over_add(a, seq![' '], keep);
        lemma_nothing_to_close(a);
        let one = seq![' '];
        reveal_with_fuel(Seq::filter, 2);
        assert(one.last() == ' ');
        assert(one.drop_last() =~= Seq::<char>::empty());
        assert(one.filter(keep) =~= Seq::<char>::empty());
        assert(closed_up(s) =~= a + closed_up(b));
    } else {
        lemma_nothing_to_close(s);
        assert(text::split(s, ' ') =~= seq![s] + none);
        lemma_run_front(s, none);
        assert(s + run_of(none) =~= s);
    }
}

proof fn lemma_nothing_to_close(s: Seq<char>)
    requires
        no_space(s),
    ensures
        closed_up(s) == s,
    decreases s.len(),
{
    reveal(Seq::filter);
    if s.len() > 0 {
        lemma_nothing_to_close(s.drop_last());
        assert(s.last() == s[s.len() - 1]);
        assert(closed_up(s) =~= s.drop_last().push(s.last()));
        assert(s.drop_last().push(s.last()) =~= s);
    } else {
        assert(closed_up(s) =~= s);
    }
}

/// What is read of a heading are the parts of one, and the line holds nothing
/// but them and spaces.
pub proof fn headings_hold_their_parts(line: Seq<char>)
    ensures
        header::parse_heading(line) matches Some(h) ==> {
            &&& h.raw == line
            &&& heading_parts(h.ttaaii, h.cccc, h.yygggg)
            &&& h.bbb is Some ==> is_indicator(h.bbb->0)
            &&& closed_up(line) == h.ttaaii + h.cccc + h.yygggg + (match h.bbb {
                Some(b) => b,
                None => Seq::empty(),
            })
        },
{
    if let Some(h) = header::parse_heading(line) {
        lemma_parts_fit(h.ttaaii, h.cccc, h.yygggg);
        let parts = header::spaced(line);
        lemma_run_split(line);
        lemma_run_non_empty(text::split(line, ' '));
        reveal_with_fuel(run_of, 5);
        if parts.len() == 3 {
            assert(parts =~= seq![h.ttaaii, h.cccc, h.yygggg]);
            assert(run_of(parts) =~= h.ttaaii + h.cccc + h.yygggg);
            assert(h.ttaaii + h.cccc + h.yygggg + Seq::<char>::empty() =~= h.ttaaii + h.cccc
                + h.yygggg);
        } else {
            let b = h.bbb->0;
            assert(header::is_letters(b, 3));
            assert(run_of(parts) =~= h.ttaaii + h.cccc + h.yygggg + b);
        }
    }
}

/// A heading in its canonical form reads back as itself.
pub proof fn canonical_headings_read_back(line: Seq<char>)
    ensures
        header::parse_heading(line) matches Some(h) ==> (header::parse_heading(
            header::heading_text(h),
        ) matches Some(again) && again.ttaaii == h.ttaaii && again.cccc == h.cccc && again.yygggg
            == h.yygggg && again.bbb == h.bbb),
{
    if let Some(h) = header::parse_heading(line) {
        headings_hold_their_parts(line);
        let t = h.ttaaii;
        let c = h.cccc;
        let g = h.yygggg;
        assert(spaces(1) =~= seq![' ']);
        match h.bbb {
            None => {
                headings_are_read_with_any_spacing(t, c, g, (0, 1, 1, 0));
                assert(header::heading_text(h) =~= spaces(0) + t + spaces(1) + c + spaces(1) + g
                    + spaces(0));
            },
            Some(b) => {
                amended_headings_are_read_with_any_spacing(t, c, g, b, (0, 1, 1, 1, 0));
                assert(header::heading_text(h) =~= spaces(0) + t + spaces(1) + c + spaces(1) + g
                    + spaces(1) + b + spaces(0));
            },
        }
    }
}

// ---------------------------------------------------------------------------
// Bulletins
// ---------------------------------------------------------------------------

pub open spec fn one_line(s: Seq<char>) -> bool {
    forall|i: int| 0 <= i < s.len() ==> #[trigger] s[i] != '\n' && s[i] != '\r'
}

proof fn lemma_line_and_rest(a: Seq<char>, b: Seq<char>)
    requires
        one_line(a),
    ensures
        text::first_line(a + seq!['\n'] + b) == a,
        text::after_line(a + seq!['\n'] + b) == b,
{
    let s = a + seq!['\n'] + b;
    let k = a.len() as int;
    assert(s[k] == '\n');
    assert forall|j: int| 0 <= j < k implies #[trigger] s[j] != '\n' by {
        assert(s[j] == a[j]);
    }
    text::lemma_index_is(s, '\n', 0, k);
    assert(s.take(k) =~= a);
    assert(s.skip(k + 1) =~= b);
    if a.len() > 0 {
        assert(a.last() == a[a.len() - 1]);
    }
}

/// A bulletin that begins with a heading line has the heading of that line.
/// The next line is its AWIPS identifier if it is one, and the body is what
/// follows; if it is none, the bulletin has no identifier and the body begins
/// with that line. A bulletin whose first line is neither a sequence number
/// nor a heading is not read.
pub proof fn bulletins_are_heading_identifier_and_body(
    a: Seq<char>,
    b: Seq<char>,
    c: Seq<char>,
)
    requires
        one_line(a),
        one_line(b),
        text::trim(a + seq!['\n'] + (b + seq!['\n'] + c)) == a + seq!['\n'] + (b + seq!['\n'] + c),
        a.len() > 0 ==> a[0] as int != 1,
        wmo::sequence_line(text::trim(a)) is None,
    ensures
        ({
            let whole = a + seq!['\n'] + (b + seq!['\n'] + c);
            match header::parse_heading(text::trim(a)) {
                None => wmo::parse_text(whole) is Err,
                Some(heading) => wmo::parse_text(whole) matches Ok(m) && {
                    &&& m.heading == heading
                    &&& m.bulletin == whole
                    &&& m.frame_kind == WmoFrameKind::Bare
                    &&& m.sequence_number is None
                    &&& header::is_awips_id(text::trim(b)) ==> m.awips_id == Some(text::trim(b))
                        && m.body == c
                    &&& !header::is_awips_id(text::trim(b)) ==> m.awips_id is None && m.body == b
                        + seq!['\n'] + c
                },
            }
        }),
{
    let tail = b + seq!['\n'] + c;
    let whole = a + seq!['\n'] + tail;
    assert(whole[0] == if a.len() > 0 {
        a[0]
    } else {
        '\n'
    });
    lemma_line_and_rest(a, tail);
    lemma_line_and_rest(b, c);
}

/// A line with a sequence number before a bulletin is taken off it: the rest
/// reads as it would by itself, and the number is kept.
pub proof fn sequence_numbers_stand_before_bulletins(q: Seq<char>, rest: Seq<char>, m: WmoMessageView)
    requires
        one_line(q),
        q.len() > 0,
        q[0] as int != 1,
        wmo::sequence_line(text::trim(q)) is Some,
        text::trim(q + seq!['\n'] + rest) == q + seq!['\n'] + rest,
        rest.len() > 0,
        !text::is_white(rest[0]),
        text::trim(rest) == rest,
        rest[0] as int != 1,
        wmo::sequence_line(text::trim(text::first_line(rest))) is None,
        wmo::parse_text(rest) == Ok::<WmoMessageView, crate::error::ErrorKind>(m),
    ensures
        wmo::parse_text(q + seq!['\n'] + rest) matches Ok(n) && {
            &&& n.heading == m.heading
            &&& n.awips_id == m.awips_id
            &&& n.body == m.body
            &&& n.frame_kind == m.frame_kind
            &&& n.bulletin == q + seq!['\n'] + rest
            &&& n.sequence_number == wmo::sequence_line(text::trim(q))
        },
{
    lemma_line_and_rest(q, rest);
    assert(text::trim_start(rest) == rest);
}

/// A frame is two bytes, one before and one behind the bulletin; one that
/// begins and does not end is refused.
pub proof fn frames_have_two_ends(input: Seq<char>)
    ensures
        ({
            let s = text::trim(input);
            &&& s.len() > 0 && s[0] as int == 1 && (s.len() == 1 || s.last() as int != 3)
                ==> wmo::parse_text(input) is Err
            &&& wmo::parse_text(input) matches Ok(m) ==> (m.frame_kind == WmoFrameKind::Framed
                <==> s[0] as int == 1)
            &&& wmo::parse_text(input) matches Ok(m) ==> if m.frame_kind == WmoFrameKind::Framed {
                m.bulletin == text::trim(s.subrange(1, s.len() - 1))
            } else {
                m.bulletin == s
            }
        }),
{
    let s = text::trim(input);
    if s.len() == 0 {
        text::lemma_index_from(s, '\n', 0);
        assert(text::first_line(s) =~= Seq::<char>::empty());
        let none = Seq::<char>::empty();
        assert(text::trim(none) =~= none);
        text::lemma_index_from(none, ' ', 0);
        assert(text::split(none, ' ') =~= seq![none] + Seq::<Seq<char>>::empty());
        lemma_non_empty_front(none, Seq::empty());
        assert(header::spaced(none) =~= Seq::<Seq<char>>::empty());
    }
}

proof fn lemma_strip_cr(s: Seq<char>)
    ensures
        text::strip_cr(s).len() <= s.len(),
        text::strip_cr(s) == s.take(text::strip_cr(s).len() as int),
        forall|i: int| text::strip_cr(s).len() <= i < s.len() ==> #[trigger] s[i] == '\r',
        text::strip_cr(s).len() > 0 ==> text::strip_cr(s).last() != '\r',
    decreases s.len(),
{
    if s.len() > 0 && s.last() == '\r' {
        let t = s.drop_last();
        lemma_strip_cr(t);
        assert(text::strip_cr(s) =~= s.take(text::strip_cr(s).len() as int));
        assert forall|i: int| text::strip_cr(s).len() <= i < s.len() implies #[trigger] s[i]
            == '\r' by {
            if i < t.len() {
                assert(t[i] == s[i]);
            }
        }
    } else {
        assert(s.take(s.len() as int) =~= s);
    }
}

/// Whether the spans are those of the lines of a text from `from` on: the
/// first begins there, each other one behind the line feed that ends the one
/// before it; no line holds a line feed or ends with a carriage return, and
/// only carriage returns stand between its end and its line feed or, for the
/// last line, the end of the text.
pub open spec fn are_lines(s: Seq<char>, spans: Seq<(int, int)>, from: int) -> bool {
    &&& spans.len() > 0
    &&& spans[0].0 == from
    &&& forall|i: int| 0 <= i < spans.len() ==> is_line(s, spans, #[trigger] spans[i], i)
}

pub open spec fn is_line(s: Seq<char>, spans: Seq<(int, int)>, span: (int, int), i: int) -> bool {
    let stop = if i + 1 < spans.len() {
        spans[i + 1].0 - 1
    } else {
        s.len() as int
    };
    &&& 0 <= span.0 <= span.1 <= stop <= s.len()
    &&& i + 1 < spans.len() ==> stop < s.len() && s[stop] == '\n'
    &&& forall|k: int| span.0 <= k < stop ==> #[trigger] s[k] != '\n'
    &&& forall|k: int| span.1 <= k < stop ==> #[trigger] s[k] == '\r'
    &&& span.0 < span.1 ==> s[span.1 - 1] != '\r'
}

proof fn lemma_are_lines(s: Seq<char>, start: int)
    requires
        0 <= start <= s.len(),
    ensures
        are_lines(s, lines::lines_from(s, start), start),
    decreases s.len() - start,
{
    let spans = lines::lines_from(s, start);
    let end = text::index_from(s, '\n', start);
    text::lemma_index_from(s, '\n', start);
    let whole = s.subrange(start, end);
    lemma_strip_cr(whole);
    let line = (start, start + text::strip_cr(whole).len());
    assert forall|k: int| line.1 <= k < end implies #[trigger] s[k] == '\r' by {
        assert(whole[k - start] == s[k]);
    }
    if line.0 < line.1 {
        assert(text::strip_cr(whole).last() == whole[text::strip_cr(whole).len() - 1]);
        assert(whole[text::strip_cr(whole).len() - 1] == s[line.1 - 1]);
    }
    if end < s.len() {
        let more = lines::lines_from(s, end + 1);
        lemma_are_lines(s, end + 1);
        assert(spans =~= seq![line] + more);
        assert forall|i: int| 0 <= i < spans.len() implies is_line(s, spans, #[trigger] spans[i], i) by {
            if i > 0 {
                assert(spans[i] == more[i - 1]);
                assert(is_line(s, more, more[i - 1], i - 1));
                if i + 1 < spans.len() {
                    assert(spans[i + 1] == more[i]);
                }
            } else {
                assert(spans[1] == more[0]);
            }
        }
    } else {
        assert(spans =~= seq![line]);
    }
}

/// The lines of a text are what stands between its line feeds, without the
/// carriage returns before them.
pub proof fn lines_stand_between_line_feeds(s: Seq<char>)
    ensures
        are_lines(s, lines::lines_of(s), 0),
{
    lemma_are_lines(s, 0);
}

// ---------------------------------------------------------------------------
// Streams
// ---------------------------------------------------------------------------

/// Whether a byte stands at none of the places from `from` up to `to`.
pub open spec fn lacks(s: Seq<u8>, b: u8, from: int, to: int) -> bool {
    forall|k: int| from <= k < to ==> #[trigger] s[k] != b
}

/// Whether the ranges are those of the frames of a stream from `from` on:
/// each runs from a start byte to the next end byte, no start byte stands
/// before the first frame or between two, and behind the last one no frame
/// is whole.
pub open spec fn are_frames(s: Seq<u8>, ranges: Seq<(int, int)>, from: int) -> bool {
    let last = if ranges.len() > 0 {
        ranges.last().1
    } else {
        from
    };
    &&& forall|i: int| 0 <= i < ranges.len() ==> is_frame(s, ranges, #[trigger] ranges[i], i, from)
    &&& lacks(s, 1, last, s.len() as int) || exists|k: int|
        last <= k < s.len() && s[k] == 1 && lacks(s, 1, last, k) && #[trigger] lacks(
            s,
            3,
            k,
            s.len() as int,
        )
}

pub open spec fn is_frame(
    s: Seq<u8>,
    ranges: Seq<(int, int)>,
    range: (int, int),
    i: int,
    from: int,
) -> bool {
    let before = if i > 0 {
        ranges[i - 1].1
    } else {
        from
    };
    &&& before <= range.0 < range.1 - 1 < s.len()
    &&& s[range.0] == 1
    &&& s[range.1 - 1] == 3
    &&& lacks(s, 1, before, range.0)
    &&& lacks(s, 3, range.0, range.1 - 1)
}

proof fn lemma_are_frames(s: Seq<u8>, i: int)
    requires
        0 <= i <= s.len(),
    ensures
        are_frames(s, stream::frame_ranges(s, i), i),
    decreases s.len() - i,
{
    let ranges = stream::frame_ranges(s, i);
    let k = stream::byte_from(s, 1, i);
    stream::lemma_byte_from(s, 1, i);
    let e = stream::byte_from(s, 3, k);
    stream::lemma_byte_from(s, 3, k);
    assert(crate::SOH == 1 && crate::ETX == 3);
    if k >= s.len() {
        assert(ranges =~= Seq::<(int, int)>::empty());
        assert(lacks(s, 1, i, s.len() as int));
    } else if e >= s.len() {
        assert(ranges =~= Seq::<(int, int)>::empty());
        assert(lacks(s, 3, k, s.len() as int));
        assert(lacks(s, 1, i, k));
    } else {
        let more = stream::frame_ranges(s, e + 1);
        lemma_are_frames(s, e + 1);
        assert(ranges =~= seq![(k, e + 1)] + more);
        assert forall|j: int| 0 <= j < ranges.len() implies is_frame(
            s,
            ranges,
            #[trigger] ranges[j],
            j,
            i,
        ) by {
            if j > 0 {
                assert(ranges[j] == more[j - 1]);
                assert(is_frame(s, more, more[j - 1], j - 1, e + 1));
                if j > 1 {
                    assert(ranges[j - 1] == more[j - 2]);
                }
            }
        }
        if more.len() > 0 {
            assert(ranges.last() == more.last());
        }
    }
}

/// The frames of a stream are all that run from a start byte to the next end
/// byte, in their order; and what was framed reads as so many messages, each
/// the bytes of its frame.
pub proof fn every_frame_of_a_stream_is_found(s: Seq<u8>)
    ensures
        are_frames(s, stream::frame_ranges(s, 0), 0),
        ({
            let f = ingest::parse_framed(ingest::TransportDescriptor::spec_plain_wmo_text(), s);
            &&& are_frames(s, f.ranges, 0)
            &&& f.messages.len() == f.ranges.len()
            &&& forall|i: int|
                0 <= i < f.messages.len() ==> #[trigger] f.messages[i] == s.subrange(
                    f.ranges[i].0,
                    f.ranges[i].1,
                )
            &&& lacks(s, 1, 0, f.leading_junk_prefix)
            &&& f.leading_junk_prefix < s.len() ==> s[f.leading_junk_prefix] == 1
            &&& f.ranges.len() > 0 ==> f.pending_bytes == s.len() - f.ranges.last().1
            &&& f.ranges.len() == 0 ==> f.pending_bytes == s.len() - f.leading_junk_prefix
        }),
{
    lemma_are_frames(s, 0);
    stream::lemma_byte_from(s, 1, 0);
    assert(crate::SOH == 1);
}

/// The bytes of frames.
pub open spec fn bytes_in(frames: Seq<Seq<u8>>) -> int
    decreases frames.len(),
{
    if frames.len() == 0 {
        0
    } else {
        frames[0].len() + bytes_in(frames.skip(1))
    }
}

/// Every byte of a stream is in a frame, in the frame that has begun and not
/// ended, or junk. The unfinished frame is the end of the stream; it begins
/// with a start byte and holds no end byte.
pub proof fn every_byte_is_framed_pending_or_junk(s: Seq<u8>)
    ensures
        bytes_in(stream::frames(s)) + stream::unfinished(s).len() + stream::junk(s) == s.len(),
        stream::unfinished(s).len() <= s.len(),
        stream::unfinished(s) == s.skip(s.len() - stream::unfinished(s).len()),
        stream::unfinished(s).len() > 0 ==> stream::unfinished(s)[0] == 1,
        lacks(stream::unfinished(s), 3, 0, stream::unfinished(s).len() as int),
    decreases s.len(),
{
    let k = stream::byte_from(s, 1, 0);
    stream::lemma_byte_from(s, 1, 0);
    let e = stream::byte_from(s, 3, k);
    stream::lemma_byte_from(s, 3, k);
    assert(crate::SOH == 1 && crate::ETX == 3);
    if k >= s.len() {
        assert(s.skip(s.len() as int) =~= Seq::<u8>::empty());
    } else if e >= s.len() {
        let u = stream::unfinished(s);
        assert(u =~= s.skip(k));
        assert forall|j: int| 0 <= j < u.len() implies #[trigger] u[j] != 3 by {
            assert(u[j] == s[k + j]);
        }
    } else {
        let rest = s.skip(e + 1);
        every_byte_is_framed_pending_or_junk(rest);
        let all = stream::frames(s);
        assert(all.skip(1) =~= stream::frames(rest));
        assert(all[0] == s.subrange(k, e + 1));
        let u = stream::unfinished(s);
        assert(rest.skip(rest.len() - u.len()) =~= s.skip(s.len() - u.len()));
    }
}

/// Whether a byte is white space.
pub open spec fn is_blank(b: u8) -> bool {
    b == 9 || b == 10 || b == 12 || b == 13 || b == 32
}

proof fn lemma_first_visible(s: Seq<u8>, i: int)
    requires
        0 <= i <= s.len(),
    ensures
        i <= ingest::first_visible(s, i) <= s.len(),
        forall|k: int| i <= k < ingest::first_visible(s, i) ==> is_blank(#[trigger] s[k]),
        ingest::first_visible(s, i) < s.len() ==> !is_blank(s[ingest::first_visible(s, i)]),
    decreases s.len() - i,
{
    if i < s.len() && is_blank(s[i]) {
        lemma_first_visible(s, i + 1);
    }
}

/// An input is markup if its first visible byte, at `i` here, is the opening
/// bracket. Any other one is a framed stream if it holds a start byte, and a
/// bulletin if it holds none. Without any visible byte the same goes.
pub proof fn inputs_show_what_they_are(s: Seq<u8>, i: int)
    requires
        0 <= i <= s.len(),
        forall|k: int| 0 <= k < i ==> is_blank(#[trigger] s[k]),
        i < s.len() ==> !is_blank(s[i]),
    ensures
        ingest::detect(s) == IngestHint::OpenInterface <==> (i < s.len() && s[i] == 0x3c),
        ingest::detect(s) == IngestHint::SatellitePid201 <==> !(i < s.len() && s[i] == 0x3c)
            && s.contains(1u8),
        ingest::detect(s) == IngestHint::RawBulletin <==> !(i < s.len() && s[i] == 0x3c)
            && !s.contains(1u8),
{
    lemma_first_visible(s, 0);
    let v = ingest::first_visible(s, 0);
    if v < i {
        assert(is_blank(s[v]));
    }
    if i < v {
        assert(is_blank(s[i]));
    }
    assert(v == i);
    stream::lemma_byte_from(s, 1, 0);
    let k = stream::byte_from(s, 1, 0);
    assert(crate::SOH == 1);
    if k < s.len() {
        assert(s[k] == 1);
        assert(s.contains(1u8));
    } else if s.contains(1u8) {
        let j = choose|j: int| 0 <= j < s.len() && s[j] == 1u8;
        assert(s[j] != 1);
    }
}

// ---------------------------------------------------------------------------
// Families
// ---------------------------------------------------------------------------

/// A text of three characters.
pub open spec fn three(a: char, b: char, c: char) -> Seq<char> {
    seq![a, b, c]
}

/// The families by the first three letters of the AWIPS identifier.
pub proof fn categories_have_their_families(nnn: Seq<char>)
    ensures
        ({
            let f = product::awips_family(nnn);
            &&& f == ProductFamily::Tornado <==> nnn == three('T', 'O', 'R')
            &&& f == ProductFamily::SevereThunderstorm <==> nnn == three('S', 'V', 'R')
            &&& f == ProductFamily::FlashFlood <==> nnn == three('F', 'F', 'W')
            &&& f == ProductFamily::Flood <==> nnn == three('F', 'L', 'W') || nnn == three('F', 'L', 'S')
            &&& f == ProductFamily::Marine <==> nnn == three('M', 'W', 'W') || nnn == three('S', 'M', 'W')
            &&& f == ProductFamily::Discussion <==> nnn == three('A', 'F', 'D')
            &&& f == ProductFamily::Statement <==> nnn == three('S', 'P', 'S') || nnn == three('S', 'V', 'S')
            &&& f == ProductFamily::Hydrology <==> nnn == three('R', 'V', 'S') || nnn == three('R', 'V', 'D') || nnn == three('R', 'V', 'A') || nnn == three('R', 'W', 'R')
            &&& f == ProductFamily::Advisory <==> nnn == three('H', 'W', 'O') || nnn == three('N', 'P', 'W') || nnn == three('C', 'F', 'W')
            &&& f == ProductFamily::Watch <==> nnn == three('W', 'S', 'W') || nnn == three('F', 'F', 'A')
            &&& f == ProductFamily::Administrative <==> nnn == three('P', 'N', 'S')
            &&& f != ProductFamily::Forecast
        }),
{
    reveal_strlit("TOR");
    reveal_strlit("SVR");
    reveal_strlit("FFW");
    reveal_strlit("FLW");
    reveal_strlit("FLS");
    reveal_strlit("MWW");
    reveal_strlit("SMW");
    reveal_strlit("AFD");
    reveal_strlit("SPS");
    reveal_strlit("SVS");
    reveal_strlit("RVS");
    reveal_strlit("RVD");
    reveal_strlit("RVA");
    reveal_strlit("RWR");
    reveal_strlit("HWO");
    reveal_strlit("NPW");
    reveal_strlit("CFW");
    reveal_strlit("WSW");
    reveal_strlit("FFA");
    reveal_strlit("PNS");
    assert("TOR"@ =~= three('T', 'O', 'R'));
    assert("SVR"@ =~= three('S', 'V', 'R'));
    assert("FFW"@ =~= three('F', 'F', 'W'));
    assert("FLW"@ =~= three('F', 'L', 'W'));
    assert("FLS"@ =~= three('F', 'L', 'S'));
    assert("MWW"@ =~= three('M', 'W', 'W'));
    assert("SMW"@ =~= three('S', 'M', 'W'));
    assert("AFD"@ =~= three('A', 'F', 'D'));
    assert("SPS"@ =~= three('S', 'P', 'S'));
    assert("SVS"@ =~= three('S', 'V', 'S'));
    assert("RVS"@ =~= three('R', 'V', 'S'));
    assert("RVD"@ =~= three('R', 'V', 'D'));
    assert("RVA"@ =~= three('R', 'V', 'A'));
    assert("RWR"@ =~= three('R', 'W', 'R'));
    assert("HWO"@ =~= three('H', 'W', 'O'));
    assert("NPW"@ =~= three('N', 'P', 'W'));
    assert("CFW"@ =~= three('C', 'F', 'W'));
    assert("WSW"@ =~= three('W', 'S', 'W'));
    assert("FFA"@ =~= three('F', 'F', 'A'));
    assert("PNS"@ =~= three('P', 'N', 'S'));
    lemma_three_letters(nnn);
}

/// The three characters of a text of three.
proof fn lemma_three_letters(s: Seq<char>)
    ensures
        forall|a: char, b: char, c: char| #![trigger three(a, b, c)]
            (s == three(a, b, c)) == (s.len() == 3 && s[0] == a && s[1] == b && s[2] == c),
{
    assert forall|a: char, b: char, c: char| #![trigger three(a, b, c)]
        (s == three(a, b, c)) == (s.len() == 3 && s[0] == a && s[1] == b && s[2] == c) by {
        let t = three(a, b, c);
        assert(t.len() == 3 && t[0] == a && t[1] == b && t[2] == c);
        if s.len() == 3 && s[0] == a && s[1] == b && s[2] == c {
            assert(s =~= t);
        }
    }
}

/// The families by the letters of a phenomenon.
pub proof fn phenomena_have_their_families(p: Phenomenon, a: char, b: char)
    requires
        p.code() == (a, b),
    ensures
        ({
            let f = product::phenomenon_family(p);
            &&& f == ProductFamily::Tornado <==> a == 'T' && b == 'O'
            &&& f == ProductFamily::SevereThunderstorm <==> a == 'S' && b == 'V'
            &&& f == ProductFamily::FlashFlood <==> a == 'F' && b == 'F'
            &&& f == ProductFamily::Flood <==> a == 'F' && b == 'L'
            &&& f == ProductFamily::Marine <==> (a == 'M' && b == 'A') || (a == 'S' && b == 'C')
                || (a == 'G' && b == 'L') || (a == 'S' && b == 'R') || (a == 'H' && b == 'F')
            &&& f == ProductFamily::Tornado || f == ProductFamily::SevereThunderstorm || f
                == ProductFamily::FlashFlood || f == ProductFamily::Flood || f
                == ProductFamily::Marine || f == ProductFamily::Unknown
        }),
{
}

proof fn lemma_first_pvtec(segments: Seq<ProductSegmentView>, i: int, k: int)
    requires
        0 <= i <= k <= segments.len(),
        forall|j: int| i <= j < k ==> (#[trigger] segments[j]).pvtec.len() == 0,
        k < segments.len() ==> segments[k].pvtec.len() > 0,
    ensures
        product::first_pvtec(segments, i) == if k < segments.len() {
            Some(segments[k].pvtec[0])
        } else {
            None
        },
    decreases k - i,
{
    if i < k {
        assert(segments[i].pvtec.len() == 0);
        lemma_first_pvtec(segments, i + 1, k);
    }
}

/// A product with an AWIPS identifier belongs to the family of its first
/// three letters. One without belongs to that of the first VTEC line of the
/// first segment that has one, segment `k` here. Where none has one, the first
/// line before the segments tells, by what it says in any case.
pub proof fn families_come_from_identifier_vtec_or_first_line(
    awips_id: Option<Seq<char>>,
    segments: Seq<ProductSegmentView>,
    preamble: Seq<Seq<char>>,
    k: int,
)
    requires
        0 <= k <= segments.len(),
        forall|j: int| 0 <= j < k ==> (#[trigger] segments[j]).pvtec.len() == 0,
        k < segments.len() ==> segments[k].pvtec.len() > 0,
    ensures
        ({
            let f = product::family_of(awips_id, segments, preamble);
            &&& awips_id is Some && awips_id->0.len() >= 3 ==> f == product::awips_family(
                seq![awips_id->0[0], awips_id->0[1], awips_id->0[2]],
            )
            &&& awips_id is None && k < segments.len() ==> f == product::phenomenon_family(
                segments[k].pvtec[0].phenomenon,
            )
            &&& awips_id is None && k == segments.len() && preamble.len() > 0 ==> {
                let tornado = tag_laws::says(preamble[0], "TORNADO WARNING"@);
                let severe = tag_laws::says(preamble[0], "SEVERE THUNDERSTORM WARNING"@);
                let flash = tag_laws::says(preamble[0], "FLASH FLOOD WARNING"@);
                &&& tornado ==> f == ProductFamily::Tornado
                &&& !tornado && severe ==> f == ProductFamily::SevereThunderstorm
                &&& !tornado && !severe && flash ==> f == ProductFamily::FlashFlood
                &&& !tornado && !severe && !flash ==> f == ProductFamily::Unknown
            }
            &&& awips_id is None && k == segments.len() && preamble.len() == 0 ==> f
                == ProductFamily::Unknown
        }),
{
    lemma_first_pvtec(segments, 0, k);
    if awips_id is Some && awips_id->0.len() >= 3 {
        let id = awips_id->0;
        assert(id.take(3) =~= seq![id[0], id[1], id[2]]);
    }
    if preamble.len() > 0 {
        reveal_strlit("TORNADO WARNING");
        reveal_strlit("SEVERE THUNDERSTORM WARNING");
        reveal_strlit("FLASH FLOOD WARNING");
        tag_laws::searches_find_what_is_said(preamble[0], "TORNADO WARNING"@);
        tag_laws::searches_find_what_is_said(preamble[0], "SEVERE THUNDERSTORM WARNING"@);
        tag_laws::searches_find_what_is_said(preamble[0], "FLASH FLOOD WARNING"@);
    }
}

/// The name and the slug of a family say the same words, with hyphens in the
/// one and underscores in the other; the family that a phenomenon names is
/// that of its letters, areal floods among the floods.
pub proof fn families_go_by_one_name(f: ProductFamily, p: Phenomenon, i: int)
    ensures
        families::family_text(f).len() == families::family_slug_text(f).len(),
        0 <= i < families::family_text(f).len() ==> {
            let name = families::family_text(f)[i];
            let slug = families::family_slug_text(f)[i];
            if slug == '_' {
                name == '-'
            } else {
                name == slug
            }
        },
        p.code() == ('F', 'A') && p is Flood ==> families::phenomenon_text(p) == Some(
            families::family_text(ProductFamily::Flood),
        ),
        !(p is Other) && !(p is Flood) ==> families::phenomenon_text(p) == Some(
            families::family_text(product::phenomenon_family(p)),
        ),
        p is Other ==> families::phenomenon_text(p) is None,
{
    reveal_strlit("tornado");
    reveal_strlit("severe-thunderstorm");
    reveal_strlit("flash-flood");
    reveal_strlit("severe_thunderstorm");
    reveal_strlit("flash_flood");
    reveal_strlit("flood");
    reveal_strlit("marine");
    reveal_strlit("discussion");
    reveal_strlit("forecast");
    reveal_strlit("statement");
    reveal_strlit("hydrology");
    reveal_strlit("watch");
    reveal_strlit("advisory");
    reveal_strlit("administrative");
    reveal_strlit("unknown");
}

// ---------------------------------------------------------------------------
// Fingerprints
// ---------------------------------------------------------------------------

pub open spec fn no_return(s: Seq<char>) -> bool {
    forall|i: int| 0 <= i < s.len() ==> #[trigger] s[i] != '\r'
}

proof fn lemma_replace_nothing(s: Seq<char>, p: Seq<char>, c: char, i: int, done: Seq<char>)
    requires
        0 <= i <= s.len(),
        p.len() > 0,
        p[0] == '\r',
        no_return(s),
    ensures
        digest::replace_from(s, p, c, i, done) == done + s.skip(i),
    decreases s.len() - i,
{
    if i < s.len() {
        assert(s[i] != '\r');
        if text::occurs_at(s, p, i) {
            assert(s.subrange(i, i + p.len())[0] == s[i]);
            assert(p[0] == s[i]);
        }
        lemma_replace_nothing(s, p, c, i + 1, done.push(s[i]));
        assert(done.push(s[i]) + s.skip(i + 1) =~= done + s.skip(i));
    } else {
        assert(done + s.skip(i) =~= done);
    }
}

/// The text that a fingerprint is taken of holds the heading line, the AWIPS
/// line where there is one, and the body; a body without carriage returns
/// stands in it as it is.
pub proof fn fingerprints_cover_heading_identifier_and_body(m: WmoMessageView)
    requires
        no_return(m.body),
    ensures
        m.awips_id is None ==> digest::canonical_text(m) == m.heading.raw + seq!['\n'] + m.body,
        m.awips_id is Some ==> digest::canonical_text(m) == m.heading.raw + seq!['\n']
            + m.awips_id->0 + seq!['\n'] + m.body,
        digest::fingerprint(m) == digest::blake3_hex(
            vstd::utf8::encode_utf8(digest::canonical_text(m)),
        ),
{
    reveal_strlit("\r\r\n");
    reveal_strlit("\r\n");
    reveal_strlit("\r");
    let none = Seq::<char>::empty();
    lemma_replace_nothing(m.body, "\r\r\n"@, '\n', 0, none);
    assert(none + m.body.skip(0) =~= m.body);
    lemma_replace_nothing(m.body, "\r\n"@, '\n', 0, none);
    lemma_replace_nothing(m.body, "\r"@, '\n', 0, none);
}

proof fn lemma_no_return_left(s: Seq<char>, i: int, done: Seq<char>)
    requires
        0 <= i <= s.len(),
        no_return(done),
    ensures
        no_return(digest::replace_from(s, "\r"@, '\n', i, done)),
    decreases s.len() - i,
{
    reveal_strlit("\r");
    if i < s.len() {
        if s[i] == '\r' {
            assert(s.subrange(i, i + 1) =~= "\r"@);
            assert(text::occurs_at(s, "\r"@, i));
        }
        if text::occurs_at(s, "\r"@, i) {
            lemma_no_return_left(s, i + 1, done.push('\n'));
        } else {
            lemma_no_return_left(s, i + 1, done.push(s[i]));
        }
    }
}

/// No carriage return is left where line ends are made alike.
pub proof fn fingerprints_know_no_carriage_return(s: Seq<char>)
    ensures
        no_return(digest::normalized_newlines(s)),
{
    reveal_strlit("\r\r\n");
    reveal_strlit("\r\n");
    let t = digest::replace(digest::replace(s, "\r\r\n"@, '\n'), "\r\n"@, '\n');
    lemma_no_return_left(t, 0, Seq::empty());
}

} // verus!
