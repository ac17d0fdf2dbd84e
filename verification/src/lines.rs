//! The lines of a text as spans.

use vstd::prelude::*;
use vstd::slice::slice_subrange;

use crate::text;

verus! {

/// Where a line begins and ends, without its line separator.
#[derive(Debug, Clone, Copy, PartialEq, Eq, Structural)]
pub struct LineRef {
    pub start: usize,
    pub end: usize,
}

/// The spans of the lines of `s` from position `start` on. Lines end at line
/// feeds; carriage returns before a line feed belong to the separator.
pub open spec fn lines_from(s: Seq<char>, start: int) -> Seq<(int, int)>
    decreases s.len() - start,
    when 0 <= start <= s.len()
    via lines_from_decreases
{
    let end = text::index_from(s, '\n', start);
    let line = (start, start + text::strip_cr(s.subrange(start, end)).len());
    if end < s.len() {
        seq![line] + lines_from(s, end + 1)
    } else {
        seq![line]
    }
}

#[via_fn]
proof fn lines_from_decreases(s: Seq<char>, start: int) {
    text::lemma_index_from(s, '\n', start);
}

/// The spans of the lines of `s`.
pub open spec fn lines_of(s: Seq<char>) -> Seq<(int, int)> {
    lines_from(s, 0)
}

pub open spec fn spans(v: Seq<LineRef>) -> Seq<(int, int)> {
    Seq::new(v.len(), |i: int| (v[i].start as int, v[i].end as int))
}

/// Whether the spans lie within `n` characters, in order.
pub open spec fn valid(n: int, lines: Seq<(int, int)>) -> bool {
    &&& forall|i: int|
        0 <= i < lines.len() ==> 0 <= (#[trigger] lines[i]).0 <= lines[i].1 <= n
    &&& forall|i: int, j: int|
        #![trigger lines[i], lines[j]]
        0 <= i < j < lines.len() ==> lines[i].1 <= lines[j].0
}

/// The text of line `i`.
pub open spec fn text_at(body: Seq<char>, lines: Seq<(int, int)>, i: int) -> Seq<char> {
    body.subrange(lines[i].0, lines[i].1)
}

/// The text of line `i` without surrounding white space.
pub open spec fn trimmed_at(body: Seq<char>, lines: Seq<(int, int)>, i: int) -> Seq<char> {
    text::trim(text_at(body, lines, i))
}

pub fn line_refs(s: &[char]) -> (r: Vec<LineRef>)
    ensures
        spans(r@) == lines_of(s@),
        valid(s@.len() as int, spans(r@)),
{
    let n: usize = s.len();
    let mut out: Vec<LineRef> = Vec::new();
    let mut start: usize = 0;
    assert(spans(out@) + lines_from(s@, 0) =~= lines_of(s@));
    loop
        invariant
            n == s@.len(),
            start <= n,
            spans(out@) + lines_from(s@, start as int) == lines_of(s@),
            valid(n as int, spans(out@)),
            forall|i: int| 0 <= i < out@.len() ==> (#[trigger] out@[i]).end <= start,
        decreases n - start,
    {
        let ghost before = out@;
        let end: usize = text::index_of_char(s, '\n', start);
        let kept = text::strip_cr_of(slice_subrange(s, start, end));
        let line = LineRef { start, end: start + kept.len() };
        out.push(line);
        proof {
            assert(spans(out@) =~= spans(before).push((line.start as int, line.end as int)));
            assert forall|i: int, j: int|
                #![trigger spans(out@)[i], spans(out@)[j]]
                0 <= i < j < spans(out@).len() implies spans(out@)[i].1 <= spans(out@)[j].0 by {
                if j == before.len() {
                    assert(out@[i] == before[i]);
                } else {
                    assert(spans(out@)[i] == spans(before)[i]);
                    assert(spans(out@)[j] == spans(before)[j]);
                }
            }
            assert forall|i: int| 0 <= i < spans(out@).len() implies 0 <= (#[trigger] spans(
                out@,
            )[i]).0 <= spans(out@)[i].1 <= n by {
                if i < before.len() {
                    assert(spans(out@)[i] == spans(before)[i]);
                }
            }
        }
        if end == n {
            assert(spans(out@) =~= lines_of(s@));
            return out;
        }
        proof {
            assert(lines_from(s@, start as int) =~= seq![(line.start as int, line.end as int)]
                + lines_from(s@, end + 1));
            assert(spans(out@) + lines_from(s@, end + 1) =~= spans(before) + lines_from(
                s@,
                start as int,
            ));
        }
        start = end + 1;
    }
}

/// Whether a text begins with a line separator: carriage returns, if any, and
/// a line feed.
pub open spec fn at_separator(s: Seq<char>) -> bool
    decreases s.len(),
{
    s.len() > 0 && (s[0] == '\n' || (s[0] == '\r' && at_separator(s.skip(1))))
}

/// A text in which a line feed alone separates lines: the carriage returns
/// before line feeds are left out.
pub open spec fn lf_text(s: Seq<char>) -> Seq<char>
    decreases s.len(),
{
    if s.len() == 0 {
        Seq::empty()
    } else if s[0] == '\r' && at_separator(s) {
        lf_text(s.skip(1))
    } else {
        seq![s[0]] + lf_text(s.skip(1))
    }
}

fn separator_at(s: &[char], i: usize) -> (r: bool)
    requires
        i <= s@.len(),
    ensures
        r == at_separator(s@.skip(i as int)),
{
    let mut j: usize = i;
    while j < s.len() && s[j] == '\r'
        invariant
            i <= j <= s@.len(),
            at_separator(s@.skip(i as int)) == at_separator(s@.skip(j as int)),
        decreases s.len() - j,
    {
        assert(s@.skip(j as int).skip(1) =~= s@.skip(j + 1));
        j += 1;
    }
    j < s.len() && s[j] == '\n'
}

/// Writes a text with a line feed alone between lines.
pub fn with_line_feeds(s: &str) -> (r: String)
    ensures
        r@ == lf_text(s@),
{
    let chars = text::to_chars(s);
    let normal = to_lf_text(chars.as_slice());
    text::to_text(normal.as_slice())
}

/// The characters of a text with a line feed alone between lines.
pub fn to_lf_text(s: &[char]) -> (r: Vec<char>)
    ensures
        r@ == lf_text(s@),
{
    let n: usize = s.len();
    let mut out: Vec<char> = Vec::new();
    let mut i: usize = 0;
    assert(s@.skip(0) =~= s@);
    assert(out@ + lf_text(s@) =~= lf_text(s@));
    while i < n
        invariant
            n == s@.len(),
            i <= n,
            out@ + lf_text(s@.skip(i as int)) == lf_text(s@),
        decreases n - i,
    {
        let ghost rest = s@.skip(i as int);
        assert(rest.skip(1) =~= s@.skip(i + 1));
        if !(s[i] == '\r' && separator_at(s, i)) {
            let ghost before = out@;
            out.push(s[i]);
            assert(out@ + lf_text(rest.skip(1)) =~= before + (seq![rest[0]] + lf_text(
                rest.skip(1),
            )));
        }
        i += 1;
    }
    assert(out@ + lf_text(s@.skip(n as int)) =~= out@);
    out
}

/// The text of line `i`.
pub fn line_at<'a>(body: &'a [char], lines: &Vec<LineRef>, i: usize) -> (r: &'a [char])
    requires
        valid(body@.len() as int, spans(lines@)),
        i < lines@.len(),
    ensures
        r@ == text_at(body@, spans(lines@), i as int),
{
    let ghost all = spans(lines@);
    assert(0 <= all[i as int].0 <= all[i as int].1 <= body@.len());
    slice_subrange(body, lines[i].start, lines[i].end)
}

/// The text from the start of line `i` to the end of line `j`.
pub fn between<'a>(body: &'a [char], lines: &Vec<LineRef>, i: usize, j: usize) -> (r: &'a [char])
    requires
        valid(body@.len() as int, spans(lines@)),
        i <= j < lines@.len(),
    ensures
        r@ == body@.subrange(spans(lines@)[i as int].0, spans(lines@)[j as int].1),
{
    let ghost all = spans(lines@);
    assert(0 <= all[i as int].0 <= all[i as int].1 <= body@.len());
    assert(0 <= all[j as int].0 <= all[j as int].1 <= body@.len());
    slice_subrange(body, lines[i].start, lines[j].end)
}

} // verus!
