//! Bulletins read the same whether their lines end in line feeds alone or in
//! carriage returns and line feeds.

use vstd::prelude::*;

use crate::error::ErrorKind;
use crate::framing;
use crate::geo;
use crate::geo::LatLonBlockView;
use crate::header;
use crate::lines;
use crate::number;
use crate::product;
use crate::product::{NwsProductView, ProductSegmentView};
use crate::text;
use crate::ugc;
use crate::ugc::{UgcArea, UgcCode, UgcStringView};
use crate::vtec;
use crate::vtec::PvtecView;
use crate::wmo;
use crate::wmo::{WmoFrameKind, WmoMessageView};

verus! {

// ---------------------------------------------------------------------------
// Texts with line feeds alone
// ---------------------------------------------------------------------------

proof fn lemma_no_separator(s: Seq<char>)
    requires
        forall|i: int| 0 <= i < s.len() ==> #[trigger] s[i] != '\n',
    ensures
        !lines::at_separator(s),
    decreases s.len(),
{
    if s.len() > 0 {
        let t = s.skip(1);
        assert forall|i: int| 0 <= i < t.len() implies #[trigger] t[i] != '\n' by {
            assert(t[i] == s[i + 1]);
        }
        lemma_no_separator(t);
    }
}

/// Without a line feed nothing is left out.
proof fn lemma_lf_line(s: Seq<char>)
    requires
        forall|i: int| 0 <= i < s.len() ==> #[trigger] s[i] != '\n',
    ensures
        lines::lf_text(s) == s,
    decreases s.len(),
{
    if s.len() > 0 {
        let t = s.skip(1);
        assert forall|i: int| 0 <= i < t.len() implies #[trigger] t[i] != '\n' by {
            assert(t[i] == s[i + 1]);
        }
        lemma_no_separator(s);
        lemma_lf_line(t);
        assert(seq![s[0]] + t =~= s);
    } else {
        assert(lines::lf_text(s) =~= s);
    }
}

proof fn lemma_separator_append(a: Seq<char>, b: Seq<char>)
    requires
        a.len() > 0,
        a.last() != '\r' || !lines::at_separator(b),
    ensures
        lines::at_separator(a + b) == lines::at_separator(a),
    decreases a.len(),
{
    let t = a.skip(1);
    assert((a + b).skip(1) =~= t + b);
    if a[0] == '\r' {
        if a.len() == 1 {
            assert(t + b =~= b);
            assert(!lines::at_separator(t));
        } else {
            assert(t.last() == a.last());
            lemma_separator_append(t, b);
        }
    }
}

/// A text can be taken apart where no line separator is cut.
pub proof fn lemma_lf_append(a: Seq<char>, b: Seq<char>)
    requires
        a.len() == 0 || a.last() != '\r' || !lines::at_separator(b),
    ensures
        lines::lf_text(a + b) == lines::lf_text(a) + lines::lf_text(b),
    decreases a.len(),
{
    if a.len() == 0 {
        assert(a + b =~= b);
        assert(lines::lf_text(a) + lines::lf_text(b) =~= lines::lf_text(b));
    } else {
        let t = a.skip(1);
        assert((a + b).skip(1) =~= t + b);
        lemma_separator_append(a, b);
        if a.len() > 1 {
            assert(t.last() == a.last());
        }
        lemma_lf_append(t, b);
        if !(a[0] == '\r' && lines::at_separator(a)) {
            assert(seq![a[0]] + (lines::lf_text(t) + lines::lf_text(b)) =~= lines::lf_text(a)
                + lines::lf_text(b));
        }
    }
}

proof fn lemma_strip_cons(c: char, t: Seq<char>)
    ensures
        text::strip_cr(seq![c] + t) == (if c == '\r' && text::strip_cr(t).len() == 0 {
            Seq::<char>::empty()
        } else {
            seq![c] + text::strip_cr(t)
        }),
    decreases t.len(),
{
    let s = seq![c] + t;
    if t.len() == 0 {
        assert(s =~= seq![c]);
        assert(s.drop_last() =~= Seq::<char>::empty());
        assert(text::strip_cr(Seq::<char>::empty()) =~= Seq::<char>::empty());
        assert(text::strip_cr(t) =~= Seq::<char>::empty());
        assert(seq![c] + text::strip_cr(t) =~= seq![c]);
    } else {
        assert(s.last() == t.last());
        if t.last() == '\r' {
            assert(s.drop_last() =~= seq![c] + t.drop_last());
            lemma_strip_cons(c, t.drop_last());
        }
    }
}

proof fn lemma_strip_twice(s: Seq<char>)
    ensures
        text::strip_cr(text::strip_cr(s)) == text::strip_cr(s),
        text::strip_cr(s).len() <= s.len(),
        text::strip_cr(s) == s.take(text::strip_cr(s).len() as int),
    decreases s.len(),
{
    if s.len() > 0 && s.last() == '\r' {
        lemma_strip_twice(s.drop_last());
        let n = text::strip_cr(s).len() as int;
        assert(s.drop_last().take(n) =~= s.take(n));
    } else {
        assert(s.take(s.len() as int) =~= s);
    }
}

proof fn lemma_line_is_separator(line: Seq<char>)
    requires
        forall|i: int| 0 <= i < line.len() ==> #[trigger] line[i] != '\n',
    ensures
        lines::at_separator(line + seq!['\n']) == (text::strip_cr(line).len() == 0),
    decreases line.len(),
{
    let s = line + seq!['\n'];
    if line.len() == 0 {
        assert(s[0] == '\n');
    } else {
        let t = line.skip(1);
        assert(s.skip(1) =~= t + seq!['\n']);
        assert(line =~= seq![line[0]] + t);
        lemma_strip_cons(line[0], t);
        assert forall|i: int| 0 <= i < t.len() implies #[trigger] t[i] != '\n' by {
            assert(t[i] == line[i + 1]);
        }
        lemma_line_is_separator(t);
    }
}

proof fn lemma_lf_one_line(line: Seq<char>)
    requires
        forall|i: int| 0 <= i < line.len() ==> #[trigger] line[i] != '\n',
    ensures
        lines::lf_text(line + seq!['\n']) == text::strip_cr(line) + seq!['\n'],
    decreases line.len(),
{
    let s = line + seq!['\n'];
    if line.len() == 0 {
        assert(s.skip(1) =~= Seq::<char>::empty());
        assert(lines::lf_text(Seq::<char>::empty()) =~= Seq::<char>::empty());
        assert(lines::lf_text(s) =~= seq!['\n']);
        assert(text::strip_cr(line) + seq!['\n'] =~= seq!['\n']);
    } else {
        let t = line.skip(1);
        assert(s.skip(1) =~= t + seq!['\n']);
        assert(line =~= seq![line[0]] + t);
        lemma_strip_cons(line[0], t);
        assert forall|i: int| 0 <= i < t.len() implies #[trigger] t[i] != '\n' by {
            assert(t[i] == line[i + 1]);
        }
        lemma_lf_one_line(t);
        lemma_line_is_separator(line);
        if line[0] == '\r' && text::strip_cr(t).len() == 0 {
            assert(text::strip_cr(t) =~= text::strip_cr(line));
        } else {
            assert(s[0] == line[0]);
            assert(seq![line[0]] + (text::strip_cr(t) + seq!['\n']) =~= text::strip_cr(line)
                + seq!['\n']);
        }
    }
}

/// The first line of a text, and what follows it.
proof fn lemma_lf_lines(s: Seq<char>)
    ensures
        ({
            let k = text::index_from(s, '\n', 0);
            &&& k < s.len() ==> lines::lf_text(s) == text::strip_cr(s.take(k)) + seq!['\n']
                + lines::lf_text(s.skip(k + 1))
            &&& k >= s.len() ==> lines::lf_text(s) == s
        }),
{
    let k = text::index_from(s, '\n', 0);
    text::lemma_index_from(s, '\n', 0);
    if k < s.len() {
        let line = s.take(k);
        assert(forall|i: int| 0 <= i < line.len() ==> #[trigger] line[i] == s[i]);
        assert(s =~= (line + seq!['\n']) + s.skip(k + 1));
        lemma_lf_append(line + seq!['\n'], s.skip(k + 1));
        lemma_lf_one_line(line);
    } else {
        lemma_lf_line(s);
    }
}

/// First lines are the same, and what follows them is the same but for line
/// separators.
pub proof fn lemma_lf_first_line(s: Seq<char>)
    ensures
        text::first_line(lines::lf_text(s)) == text::first_line(s),
        text::after_line(lines::lf_text(s)) == lines::lf_text(text::after_line(s)),
{
    let k = text::index_from(s, '\n', 0);
    text::lemma_index_from(s, '\n', 0);
    lemma_lf_lines(s);
    if k < s.len() {
        let line = text::strip_cr(s.take(k));
        let rest = lines::lf_text(s.skip(k + 1));
        let t = lines::lf_text(s);
        lemma_strip_twice(s.take(k));
        assert(forall|i: int| 0 <= i < line.len() ==> #[trigger] line[i] == s[i]);
        let n = line.len() as int;
        assert(t[n] == '\n');
        assert(forall|i: int| 0 <= i < n ==> #[trigger] t[i] == line[i]);
        text::lemma_index_is(t, '\n', 0, n);
        assert(t.take(n) =~= line);
        assert(t.skip(n + 1) =~= rest);
    }
}

/// Every character that is kept was there.
proof fn lemma_lf_chars(s: Seq<char>)
    ensures
        forall|i: int| 0 <= i < lines::lf_text(s).len() ==> s.contains(#[trigger] lines::lf_text(s)[i]),
        s.contains('\n') ==> lines::lf_text(s).contains('\n'),
        s.len() > 0 ==> lines::lf_text(s).len() > 0,
        s.len() > 0 && text::is_white(s[0]) ==> text::is_white(lines::lf_text(s)[0]),
        s.len() > 0 && !text::is_white(s[0]) ==> lines::lf_text(s)[0] == s[0],
    decreases s.len(),
{
    if s.len() > 0 {
        let t = s.skip(1);
        lemma_lf_chars(t);
        let r = lines::lf_text(s);
        let q = lines::lf_text(t);
        assert(forall|i: int| 0 <= i < t.len() ==> #[trigger] t[i] == s[i + 1]);
        assert forall|i: int| 0 <= i < r.len() implies s.contains(#[trigger] r[i]) by {
            if s[0] == '\r' && lines::at_separator(s) {
                assert(t.contains(q[i]));
                let m = choose|m: int| 0 <= m < t.len() && t[m] == q[i];
                assert(s[m + 1] == r[i]);
            } else if i > 0 {
                assert(r[i] == q[i - 1]);
                assert(t.contains(q[i - 1]));
                let m = choose|m: int| 0 <= m < t.len() && t[m] == q[i - 1];
                assert(s[m + 1] == r[i]);
            } else {
                assert(r[0] == s[0]);
            }
        }
        if s.contains('\n') {
            let m = choose|m: int| 0 <= m < s.len() && s[m] == '\n';
            if m == 0 {
                assert(r[0] == '\n');
            } else {
                assert(t[m - 1] == '\n');
                let j = choose|j: int| 0 <= j < q.len() && q[j] == '\n';
                if s[0] == '\r' && lines::at_separator(s) {
                    assert(r[j] == '\n');
                } else {
                    assert(r[j + 1] == '\n');
                }
            }
        }
        if s[0] == '\r' && lines::at_separator(s) {
            assert(lines::at_separator(t));
            assert(text::is_white(t[0]));
        }
    }
}

// ---------------------------------------------------------------------------
// Trimming, splitting, words
// ---------------------------------------------------------------------------

pub proof fn lemma_lf_trim_start(s: Seq<char>)
    ensures
        text::trim_start(lines::lf_text(s)) == lines::lf_text(text::trim_start(s)),
    decreases s.len(),
{
    if s.len() > 0 {
        let t = s.skip(1);
        let r = lines::lf_text(s);
        if text::is_white(s[0]) {
            lemma_lf_trim_start(t);
            if !(s[0] == '\r' && lines::at_separator(s)) {
                assert(r.skip(1) =~= lines::lf_text(t));
            }
        } else {
            lemma_lf_chars(s);
        }
    }
}

pub proof fn lemma_trim_end_parts(s: Seq<char>)
    ensures
        ({
            let core = text::trim_end(s);
            &&& core.len() <= s.len()
            &&& core == s.take(core.len() as int)
            &&& core.len() > 0 ==> !text::is_white(core.last())
            &&& forall|i: int| core.len() <= i < s.len() ==> text::is_white(#[trigger] s[i])
        }),
    decreases s.len(),
{
    if s.len() > 0 && text::is_white(s.last()) {
        let t = s.drop_last();
        lemma_trim_end_parts(t);
        let n = text::trim_end(t).len() as int;
        assert(t.take(n) =~= s.take(n));
        assert forall|i: int| n <= i < s.len() implies text::is_white(#[trigger] s[i]) by {
            if i < t.len() {
                assert(t[i] == s[i]);
            }
        }
    } else {
        assert(s.take(s.len() as int) =~= s);
    }
}

proof fn lemma_trim_end_white(a: Seq<char>, w: Seq<char>)
    requires
        forall|i: int| 0 <= i < w.len() ==> text::is_white(#[trigger] w[i]),
    ensures
        text::trim_end(a + w) == text::trim_end(a),
    decreases w.len(),
{
    if w.len() == 0 {
        assert(a + w =~= a);
    } else {
        assert((a + w).last() == w[w.len() - 1]);
        assert((a + w).drop_last() =~= a + w.drop_last());
        lemma_trim_end_white(a, w.drop_last());
    }
}

pub proof fn lemma_lf_last(s: Seq<char>)
    requires
        s.len() > 0,
        !text::is_white(s.last()),
    ensures
        lines::lf_text(s).len() > 0,
        lines::lf_text(s).last() == s.last(),
{
    let a = s.drop_last();
    let c = seq![s.last()];
    assert(s =~= a + c);
    assert(!lines::at_separator(c));
    lemma_lf_append(a, c);
    assert(c.skip(1) =~= Seq::<char>::empty());
    assert(lines::lf_text(Seq::<char>::empty()) =~= Seq::<char>::empty());
    assert(lines::lf_text(c) =~= c);
}

proof fn lemma_lf_trim_end(s: Seq<char>)
    ensures
        text::trim_end(lines::lf_text(s)) == lines::lf_text(text::trim_end(s)),
{
    let core = text::trim_end(s);
    lemma_trim_end_parts(s);
    let w = s.skip(core.len() as int);
    assert(s =~= core + w);
    lemma_lf_append(core, w);
    lemma_lf_chars(w);
    let r = lines::lf_text(w);
    assert forall|i: int| 0 <= i < r.len() implies text::is_white(#[trigger] r[i]) by {
        assert(w.contains(r[i]));
        let m = choose|m: int| 0 <= m < w.len() && w[m] == r[i];
        assert(w[m] == s[core.len() + m]);
    }
    lemma_trim_end_white(lines::lf_text(core), r);
    if core.len() > 0 {
        lemma_lf_last(core);
    }
}

pub proof fn lemma_lf_trim(s: Seq<char>)
    ensures
        text::trim(lines::lf_text(s)) == lines::lf_text(text::trim(s)),
{
    lemma_lf_trim_start(s);
    lemma_lf_trim_end(text::trim_start(s));
}

/// The parts with line feeds alone.
spec fn lf_parts(parts: Seq<Seq<char>>) -> Seq<Seq<char>> {
    Seq::new(parts.len(), |i: int| lines::lf_text(parts[i]))
}

proof fn lemma_lf_split(s: Seq<char>)
    ensures
        text::split(lines::lf_text(s), '-') == lf_parts(text::split(s, '-')),
    decreases s.len(),
{
    let k = text::index_from(s, '-', 0);
    text::lemma_index_from(s, '-', 0);
    let r = lines::lf_text(s);
    if k < s.len() {
        let a = s.take(k);
        let b = s.skip(k + 1);
        let dash = seq!['-'];
        assert(s =~= a + (dash + b));
        assert(!lines::at_separator(dash + b));
        lemma_lf_append(a, dash + b);
        assert((dash + b).skip(1) =~= b);
        let x = lines::lf_text(a);
        let y = lines::lf_text(b);
        assert(r =~= x + dash + y);
        lemma_lf_chars(a);
        let n = x.len() as int;
        assert forall|i: int| 0 <= i < n implies #[trigger] r[i] != '-' by {
            assert(r[i] == x[i]);
            assert(a.contains(x[i]));
            let m = choose|m: int| 0 <= m < a.len() && a[m] == x[i];
            assert(a[m] == s[m]);
        }
        assert(r[n] == '-');
        text::lemma_index_is(r, '-', 0, n);
        assert(r.take(n) =~= x);
        assert(r.skip(n + 1) =~= y);
        lemma_lf_split(b);
        assert(lf_parts(text::split(s, '-')) =~= seq![x] + lf_parts(text::split(b, '-')));
    } else {
        lemma_lf_chars(s);
        text::lemma_index_from(r, '-', 0);
        let m = text::index_from(r, '-', 0);
        if m < r.len() {
            assert(s.contains(r[m]));
            let j = choose|j: int| 0 <= j < s.len() && s[j] == r[m];
            assert(s[j] == '-');
        }
        assert(text::split(r, '-') =~= lf_parts(text::split(s, '-')));
    }
}

proof fn lemma_word_len_is(s: Seq<char>, n: int)
    requires
        0 <= n <= s.len(),
        forall|i: int| 0 <= i < n ==> !text::is_white(#[trigger] s[i]),
        n < s.len() ==> text::is_white(s[n]),
    ensures
        text::word_len(s) == n,
{
    text::lemma_word_len(s);
    if text::word_len(s) < n {
        assert(!text::is_white(s[text::word_len(s)]));
    }
}

proof fn lemma_lf_words(s: Seq<char>)
    ensures
        text::words(lines::lf_text(s)) == text::words(s),
    decreases s.len(),
{
    let t = text::trim_start(s);
    let r = lines::lf_text(s);
    lemma_lf_trim_start(s);
    text::lemma_trim_start(s);
    lemma_lf_chars(t);
    if t.len() > 0 {
        let w = text::word_len(t);
        text::lemma_word_len(t);
        let word = t.take(w);
        let rest = t.skip(w);
        assert(w > 0);
        assert(t =~= word + rest);
        assert(!text::is_white(word[w - 1]));
        lemma_lf_append(word, rest);
        assert forall|i: int| 0 <= i < word.len() implies #[trigger] word[i] != '\n' by {
            assert(!text::is_white(t[i]));
        }
        lemma_lf_line(word);
        lemma_lf_chars(rest);
        let q = lines::lf_text(t);
        assert(q =~= word + lines::lf_text(rest));
        if w < q.len() {
            assert(rest.len() > 0);
            assert(rest[0] == t[w]);
            assert(q[w] == lines::lf_text(rest)[0]);
        }
        assert forall|i: int| 0 <= i < w implies !text::is_white(#[trigger] q[i]) by {
            assert(q[i] == t[i]);
        }
        lemma_word_len_is(q, w);
        assert(q.take(w) =~= word);
        assert(q.skip(w) =~= lines::lf_text(rest));
        lemma_lf_words(rest);
    } else {
        assert(t =~= Seq::<char>::empty());
        assert(lines::lf_text(t) =~= t);
    }
}

// ---------------------------------------------------------------------------
// UGC strings and polygons
// ---------------------------------------------------------------------------

proof fn lemma_code_in_one_line(area: UgcArea, part: Seq<char>)
    requires
        part.contains('\n'),
    ensures
        ugc::code_in(area, part) is None,
{
    reveal_strlit("ALL");
    let k = choose|k: int| 0 <= k < part.len() && part[k] == '\n';
    if part == "ALL"@ {
        assert("ALL"@[k] == '\n');
    }
    if part.len() == 3 && number::all_digits(part) {
        assert(text::is_digit(part[k]));
    }
    if part.len() == 7 && part[3] == '>' && number::all_digits(part.take(3)) && number::all_digits(
        part.skip(4),
    ) {
        if k < 3 {
            assert(text::is_digit(part.take(3)[k]));
        } else if k > 3 {
            assert(text::is_digit(part.skip(4)[k - 4]));
        }
    }
}

proof fn lemma_code_of_one_line(token: Seq<char>, area: Option<UgcArea>)
    requires
        token.contains('\n'),
    ensures
        ugc::code_of(token, area) is None,
{
    let k = choose|k: int| 0 <= k < token.len() && token[k] == '\n';
    match ugc::area_of(token) {
        Some(own) => {
            assert(k >= 3);
            assert(token.skip(3)[k - 3] == '\n');
            lemma_code_in_one_line(own, token.skip(3));
        },
        None => {
            if let Some(inherited) = area {
                lemma_code_in_one_line(inherited, token);
            }
        },
    }
}

proof fn lemma_no_line_feed(s: Seq<char>)
    requires
        !s.contains('\n'),
    ensures
        lines::lf_text(s) == s,
{
    assert forall|i: int| 0 <= i < s.len() implies #[trigger] s[i] != '\n' by {
        if s[i] == '\n' {
            assert(s.contains('\n'));
        }
    }
    lemma_lf_line(s);
}

proof fn lemma_lf_code(token: Seq<char>, area: Option<UgcArea>)
    ensures
        ugc::code_of(lines::lf_text(token), area) == ugc::code_of(token, area),
{
    if token.contains('\n') {
        lemma_lf_chars(token);
        lemma_code_of_one_line(token, area);
        lemma_code_of_one_line(lines::lf_text(token), area);
    } else {
        lemma_no_line_feed(token);
    }
}

proof fn lemma_lf_codes(
    tokens: Seq<Seq<char>>,
    i: int,
    end: int,
    area: Option<UgcArea>,
    done: Seq<UgcCode>,
)
    requires
        0 <= i,
        end <= tokens.len(),
    ensures
        ugc::codes_from(lf_parts(tokens), i, end, area, done) == ugc::codes_from(
            tokens,
            i,
            end,
            area,
            done,
        ),
    decreases end - i,
{
    if i < end {
        lemma_lf_trim(tokens[i]);
        lemma_lf_code(text::trim(tokens[i]), area);
        if let Some((next, code)) = ugc::code_of(text::trim(tokens[i]), area) {
            lemma_lf_codes(tokens, i + 1, end, Some(next), done.push(code));
        }
    }
}

proof fn lemma_lf_purge(s: Seq<char>)
    ensures
        ugc::parse_purge(lines::lf_text(s)) == ugc::parse_purge(s),
{
    if s.contains('\n') {
        lemma_lf_chars(s);
        let t = lines::lf_text(s);
        let k = choose|k: int| 0 <= k < s.len() && s[k] == '\n';
        let j = choose|j: int| 0 <= j < t.len() && t[j] == '\n';
        if header::is_day_time(s) {
            assert(text::is_digit(s[k]));
        }
        if header::is_day_time(t) {
            assert(text::is_digit(t[j]));
        }
    } else {
        lemma_no_line_feed(s);
    }
}

/// A UGC string says the same whatever separates its lines.
pub proof fn lemma_lf_ugc(raw: Seq<char>)
    ensures
        match ugc::parse_ugc(raw) {
            Some(u) => ugc::parse_ugc(lines::lf_text(raw)) == Some(
                UgcStringView { raw: lines::lf_text(raw), ..u },
            ),
            None => ugc::parse_ugc(lines::lf_text(raw)) is None,
        },
{
    let tokens = text::split(raw, '-');
    let n = tokens.len();
    lemma_lf_split(raw);
    if n >= 3 {
        lemma_lf_trim(tokens[n - 1]);
        lemma_lf_chars(text::trim(tokens[n - 1]));
        lemma_lf_codes(tokens, 0, n - 2, None, Seq::empty());
        lemma_lf_trim(tokens[n - 2]);
        lemma_lf_purge(text::trim(tokens[n - 2]));
        if text::trim(tokens[n - 1]).len() == 0 {
            assert(lines::lf_text(text::trim(tokens[n - 1])).len() == 0);
        }
    }
}

/// A polygon is the same whatever separates its lines.
pub proof fn lemma_lf_lat_lon(raw: Seq<char>)
    ensures
        match geo::parse_lat_lon(raw) {
            Some(b) => geo::parse_lat_lon(lines::lf_text(raw)) == Some(
                LatLonBlockView { raw: lines::lf_text(raw), ..b },
            ),
            None => geo::parse_lat_lon(lines::lf_text(raw)) is None,
        },
{
    lemma_lf_words(raw);
}

// ---------------------------------------------------------------------------
// Lines
// ---------------------------------------------------------------------------

/// The spans moved by `by` positions.
spec fn shifted(spans: Seq<(int, int)>, by: int) -> Seq<(int, int)> {
    Seq::new(spans.len(), |i: int| (spans[i].0 + by, spans[i].1 + by))
}

proof fn lemma_index_shift(s: Seq<char>, c: char, start: int, i: int)
    requires
        0 <= start,
        0 <= i,
        start + i <= s.len(),
    ensures
        text::index_from(s, c, start + i) == start + text::index_from(s.skip(start), c, i),
    decreases s.len() - start - i,
{
    if start + i < s.len() {
        assert(s.skip(start)[i] == s[start + i]);
        if s[start + i] != c {
            lemma_index_shift(s, c, start, i + 1);
        }
    }
}

proof fn lemma_lines_shift(s: Seq<char>, by: int, start: int)
    requires
        0 <= by,
        0 <= start,
        by + start <= s.len(),
    ensures
        lines::lines_from(s, by + start) == shifted(lines::lines_from(s.skip(by), start), by),
    decreases s.len() - by - start,
{
    let t = s.skip(by);
    text::lemma_index_from(s, '\n', by + start);
    text::lemma_index_from(t, '\n', start);
    lemma_index_shift(s, '\n', by, start);
    let end = text::index_from(t, '\n', start);
    assert(s.subrange(by + start, by + end) =~= t.subrange(start, end));
    if end < t.len() {
        lemma_lines_shift(s, by, end + 1);
        assert(lines::lines_from(s, by + start) =~= shifted(lines::lines_from(t, start), by));
    } else {
        assert(lines::lines_from(s, by + start) =~= shifted(lines::lines_from(t, start), by));
    }
}

/// The lines of a text that has more than one: the first, and those of the
/// rest.
proof fn lemma_lines_cons(s: Seq<char>, k: int)
    requires
        0 <= k < s.len(),
        k == text::index_from(s, '\n', 0),
    ensures
        lines::lines_of(s) == seq![(0int, text::strip_cr(s.take(k)).len() as int)] + shifted(
            lines::lines_of(s.skip(k + 1)),
            k + 1,
        ),
{
    assert(s.subrange(0, k) =~= s.take(k));
    lemma_lines_shift(s, k + 1, 0);
}

/// Whether two texts have the same lines, and what reaches over several lines
/// is the same but for the line separators.
pub open spec fn same_lines(
    a: Seq<char>,
    la: Seq<(int, int)>,
    b: Seq<char>,
    lb: Seq<(int, int)>,
) -> bool {
    &&& la.len() == lb.len()
    &&& forall|i: int|
        0 <= i < la.len() ==> #[trigger] lines::text_at(a, la, i) == lines::text_at(b, lb, i)
    &&& forall|i: int, j: int|
        #![trigger la[i], la[j]]
        0 <= i <= j < la.len() ==> b.subrange(lb[i].0, lb[j].1) == lines::lf_text(
            a.subrange(la[i].0, la[j].1),
        )
}

/// Whether the spans lie within `n` characters, in order, from the first one
/// on.
spec fn proper_spans(n: int, spans: Seq<(int, int)>) -> bool {
    &&& spans.len() > 0
    &&& spans[0].0 == 0
    &&& forall|i: int| 0 <= i < spans.len() ==> 0 <= (#[trigger] spans[i]).0 <= spans[i].1 <= n
    &&& forall|i: int, j: int|
        #![trigger spans[i], spans[j]]
        0 <= i <= j < spans.len() ==> spans[i].0 <= spans[j].0
}

proof fn lemma_proper_spans(s: Seq<char>)
    ensures
        proper_spans(s.len() as int, lines::lines_of(s)),
    decreases s.len(),
{
    let la = lines::lines_of(s);
    let k = text::index_from(s, '\n', 0);
    text::lemma_index_from(s, '\n', 0);
    if k >= s.len() {
        assert(s.subrange(0, k) =~= s);
        lemma_strip_twice(s);
        assert(la =~= seq![(0int, text::strip_cr(s).len() as int)]);
    } else {
        let rest = s.skip(k + 1);
        let ra = lines::lines_of(rest);
        lemma_strip_twice(s.take(k));
        lemma_lines_cons(s, k);
        lemma_proper_spans(rest);
        assert forall|i: int| 0 <= i < la.len() implies 0 <= (#[trigger] la[i]).0 <= la[i].1
            <= s.len() by {
            if i > 0 {
                assert(la[i] == (ra[i - 1].0 + k + 1, ra[i - 1].1 + k + 1));
            }
        }
        assert forall|i: int, j: int|
            #![trigger la[i], la[j]]
            0 <= i <= j < la.len() implies la[i].0 <= la[j].0 by {
            if i > 0 {
                assert(la[i] == (ra[i - 1].0 + k + 1, ra[i - 1].1 + k + 1));
            }
            if j > 0 {
                assert(la[j] == (ra[j - 1].0 + k + 1, ra[j - 1].1 + k + 1));
            }
        }
    }
}

proof fn lemma_lf_same_lines(s: Seq<char>)
    ensures
        same_lines(
            s,
            lines::lines_of(s),
            lines::lf_text(s),
            lines::lines_of(lines::lf_text(s)),
        ),
    decreases s.len(),
{
    let t = lines::lf_text(s);
    let la = lines::lines_of(s);
    let lb = lines::lines_of(t);
    let k = text::index_from(s, '\n', 0);
    text::lemma_index_from(s, '\n', 0);
    lemma_lf_lines(s);
    if k >= s.len() {
        assert(s.subrange(0, k) =~= s);
        lemma_strip_twice(s);
        let line = text::strip_cr(s);
        assert(la =~= seq![(0int, line.len() as int)]);
        assert(s.subrange(0, line.len() as int) =~= line);
        assert forall|i: int| 0 <= i < line.len() implies #[trigger] line[i] != '\n' by {
            assert(line[i] == s[i]);
        }
        lemma_lf_line(line);
    } else {
        let line = text::strip_cr(s.take(k));
        let n = line.len() as int;
        let rest = s.skip(k + 1);
        let more = lines::lf_text(rest);
        lemma_strip_twice(s.take(k));
        assert(forall|i: int| 0 <= i < line.len() ==> #[trigger] line[i] == s[i]);
        assert(t[n] == '\n');
        assert(forall|i: int| 0 <= i < n ==> #[trigger] t[i] == line[i]);
        text::lemma_index_is(t, '\n', 0, n);
        assert(t.take(n) =~= line);
        assert(t.skip(n + 1) =~= more);
        lemma_lines_cons(s, k);
        lemma_lines_cons(t, n);
        lemma_lf_same_lines(rest);
        lemma_proper_spans(rest);
        lemma_proper_spans(more);
        assert(s.take(k).take(n) =~= s.take(n));
        lemma_same_lines_cons(s, k, line, rest, more, t);
    }
}

proof fn lemma_same_lines_cons(
    s: Seq<char>,
    k: int,
    line: Seq<char>,
    rest: Seq<char>,
    more: Seq<char>,
    t: Seq<char>,
)
    requires
        0 <= k < s.len(),
        k == text::index_from(s, '\n', 0),
        line == text::strip_cr(s.take(k)),
        line == s.take(line.len() as int),
        line.len() <= k,
        rest == s.skip(k + 1),
        more == lines::lf_text(rest),
        t == line + seq!['\n'] + more,
        t == lines::lf_text(s),
        lines::lines_of(s) == seq![(0int, line.len() as int)] + shifted(
            lines::lines_of(rest),
            k + 1,
        ),
        lines::lines_of(t) == seq![(0int, line.len() as int)] + shifted(
            lines::lines_of(more),
            line.len() as int + 1,
        ),
        same_lines(rest, lines::lines_of(rest), more, lines::lines_of(more)),
        proper_spans(rest.len() as int, lines::lines_of(rest)),
        proper_spans(more.len() as int, lines::lines_of(more)),
    ensures
        same_lines(s, lines::lines_of(s), t, lines::lines_of(t)),
{
    let n = line.len() as int;
    let la = lines::lines_of(s);
    let lb = lines::lines_of(t);
    let ra = lines::lines_of(rest);
    let rb = lines::lines_of(more);
    text::lemma_index_from(s, '\n', 0);
    assert forall|i: int| 0 <= i < line.len() implies #[trigger] line[i] != '\n' by {
        assert(line[i] == s[i]);
    }
    lemma_lf_line(line);
    assert forall|i: int| 0 <= i < la.len() implies #[trigger] lines::text_at(s, la, i)
        == lines::text_at(t, lb, i) by {
        if i == 0 {
            assert(s.subrange(0, n) =~= line);
            assert(t.subrange(0, n) =~= line);
        } else {
            assert(la[i] == (ra[i - 1].0 + k + 1, ra[i - 1].1 + k + 1));
            assert(lb[i] == (rb[i - 1].0 + n + 1, rb[i - 1].1 + n + 1));
            assert(lines::text_at(s, la, i) =~= lines::text_at(rest, ra, i - 1));
            assert(lines::text_at(t, lb, i) =~= lines::text_at(more, rb, i - 1));
        }
    }
    assert forall|i: int, j: int|
        #![trigger la[i], la[j]]
        0 <= i <= j < la.len() implies t.subrange(lb[i].0, lb[j].1) == lines::lf_text(
        s.subrange(la[i].0, la[j].1),
    ) by {
        if j > 0 {
            assert(la[j] == (ra[j - 1].0 + k + 1, ra[j - 1].1 + k + 1));
            assert(lb[j] == (rb[j - 1].0 + n + 1, rb[j - 1].1 + n + 1));
        }
        if i > 0 {
            assert(la[i] == (ra[i - 1].0 + k + 1, ra[i - 1].1 + k + 1));
            assert(lb[i] == (rb[i - 1].0 + n + 1, rb[i - 1].1 + n + 1));
            assert(s.subrange(la[i].0, la[j].1) =~= rest.subrange(ra[i - 1].0, ra[j - 1].1));
            assert(t.subrange(lb[i].0, lb[j].1) =~= more.subrange(rb[i - 1].0, rb[j - 1].1));
        } else if j == 0 {
            assert(s.subrange(0, n) =~= line);
            assert(t.subrange(0, n) =~= line);
        } else {
            let head = s.take(k) + seq!['\n'];
            let x = rest.subrange(ra[0].0, ra[j - 1].1);
            let y = more.subrange(rb[0].0, rb[j - 1].1);
            assert(s.subrange(0, la[j].1) =~= head + x);
            lemma_lf_append(head, x);
            assert forall|m: int| 0 <= m < s.take(k).len() implies #[trigger] s.take(k)[m]
                != '\n' by {
                assert(s.take(k)[m] == s[m]);
            }
            lemma_lf_one_line(s.take(k));
            assert(y == lines::lf_text(x));
            assert(t.subrange(0, lb[j].1) =~= line + seq!['\n'] + y);
        }
    }
}

// ---------------------------------------------------------------------------
// Products
// ---------------------------------------------------------------------------

/// Whether two segments say the same: what was written over several lines may
/// differ in line separators.
pub open spec fn alike(a: ProductSegmentView, b: ProductSegmentView) -> bool {
    &&& b.ugc.codes == a.ugc.codes
    &&& b.ugc.purge_time == a.ugc.purge_time
    &&& b.pvtec == a.pvtec
    &&& b.hvtec == a.hvtec
    &&& b.headline == a.headline
    &&& b.body_lines == a.body_lines
    &&& same_outline(a.lat_lon, b.lat_lon)
    &&& b.time_mot_loc == a.time_mot_loc
    &&& b.tags == a.tags
    &&& b.boundaries == a.boundaries
}

/// Whether two polygons have the same points.
pub open spec fn same_outline(a: Option<LatLonBlockView>, b: Option<LatLonBlockView>) -> bool {
    match (a, b) {
        (Some(x), Some(y)) => x.points == y.points,
        (None, None) => true,
        _ => false,
    }
}

/// Whether the segments are alike, one by one.
pub open spec fn all_alike(a: Seq<ProductSegmentView>, b: Seq<ProductSegmentView>) -> bool {
    &&& a.len() == b.len()
    &&& forall|i: int| #![trigger a[i]] #![trigger b[i]] 0 <= i < a.len() ==> alike(a[i], b[i])
}

proof fn lemma_trimmed(
    a: Seq<char>,
    la: Seq<(int, int)>,
    b: Seq<char>,
    lb: Seq<(int, int)>,
    i: int,
)
    requires
        same_lines(a, la, b, lb),
        0 <= i < la.len(),
    ensures
        lines::trimmed_at(a, la, i) == lines::trimmed_at(b, lb, i),
        lines::text_at(a, la, i) == lines::text_at(b, lb, i),
{
}

proof fn lemma_ugc_block_to(
    a: Seq<char>,
    la: Seq<(int, int)>,
    b: Seq<char>,
    lb: Seq<(int, int)>,
    start: int,
    end: int,
)
    requires
        same_lines(a, la, b, lb),
        0 <= start <= end,
    ensures
        match product::ugc_block_to(a, la, start, end) {
            Some((u, next)) => product::ugc_block_to(b, lb, start, end) matches Some((v, after))
                && after == next && v.codes == u.codes && v.purge_time == u.purge_time,
            None => product::ugc_block_to(b, lb, start, end) is None,
        },
    decreases la.len() - end,
{
    if end < la.len() {
        let raw = a.subrange(la[start].0, la[end].1);
        assert(b.subrange(lb[start].0, lb[end].1) == lines::lf_text(raw));
        lemma_lf_ugc(raw);
        if end + 1 < la.len() {
            lemma_trimmed(a, la, b, lb, end + 1);
            lemma_ugc_block_to(a, la, b, lb, start, end + 1);
        }
    }
}

proof fn lemma_ugc_block(
    a: Seq<char>,
    la: Seq<(int, int)>,
    b: Seq<char>,
    lb: Seq<(int, int)>,
    start: int,
)
    requires
        same_lines(a, la, b, lb),
        0 <= start,
    ensures
        match product::ugc_block(a, la, start) {
            Some((u, next)) => product::ugc_block(b, lb, start) matches Some((v, after)) && after
                == next && v.codes == u.codes && v.purge_time == u.purge_time && start < next
                <= la.len(),
            None => product::ugc_block(b, lb, start) is None,
        },
{
    if start < la.len() {
        lemma_trimmed(a, la, b, lb, start);
        lemma_ugc_block_to(a, la, b, lb, start, start);
        product::lemma_ugc_block(a, la, start, start);
    }
}

proof fn lemma_segment_end(
    a: Seq<char>,
    la: Seq<(int, int)>,
    b: Seq<char>,
    lb: Seq<(int, int)>,
    i: int,
)
    requires
        same_lines(a, la, b, lb),
        0 <= i <= la.len(),
    ensures
        product::segment_end(a, la, i) == product::segment_end(b, lb, i),
        i <= product::segment_end(a, la, i) <= la.len(),
    decreases la.len() - i,
{
    if i < la.len() {
        lemma_trimmed(a, la, b, lb, i);
        lemma_ugc_block(a, la, b, lb, i);
        lemma_segment_end(a, la, b, lb, i + 1);
    }
}

proof fn lemma_pvtec_run(
    a: Seq<char>,
    la: Seq<(int, int)>,
    b: Seq<char>,
    lb: Seq<(int, int)>,
    i: int,
    to: int,
    done: Seq<PvtecView>,
)
    requires
        same_lines(a, la, b, lb),
        0 <= i,
        to <= la.len(),
    ensures
        product::pvtec_run(a, la, i, to, done) == product::pvtec_run(b, lb, i, to, done),
        i <= product::pvtec_run(a, la, i, to, done).1,
    decreases to - i,
{
    if i < to {
        lemma_trimmed(a, la, b, lb, i);
        if let Some(code) = vtec::parse_pvtec(lines::trimmed_at(a, la, i)) {
            lemma_pvtec_run(a, la, b, lb, i + 1, to, done.push(code));
        }
    }
}

proof fn lemma_hvtec_run(
    a: Seq<char>,
    la: Seq<(int, int)>,
    b: Seq<char>,
    lb: Seq<(int, int)>,
    i: int,
    to: int,
    done: Seq<Seq<char>>,
)
    requires
        same_lines(a, la, b, lb),
        0 <= i,
        to <= la.len(),
    ensures
        product::hvtec_run(a, la, i, to, done) == product::hvtec_run(b, lb, i, to, done),
        i <= product::hvtec_run(a, la, i, to, done).1,
    decreases to - i,
{
    if i < to {
        lemma_trimmed(a, la, b, lb, i);
        let t = lines::trimmed_at(a, la, i);
        if vtec::is_hvtec(t) {
            lemma_hvtec_run(a, la, b, lb, i + 1, to, done.push(t));
        }
    }
}

proof fn lemma_lat_lon_end(
    a: Seq<char>,
    la: Seq<(int, int)>,
    b: Seq<char>,
    lb: Seq<(int, int)>,
    e: int,
    to: int,
)
    requires
        same_lines(a, la, b, lb),
        0 <= e < to <= la.len(),
    ensures
        product::lat_lon_end(a, la, e, to) == product::lat_lon_end(b, lb, e, to),
        e <= product::lat_lon_end(a, la, e, to) < to,
    decreases to - e,
{
    if e + 1 < to {
        lemma_trimmed(a, la, b, lb, e + 1);
        lemma_lat_lon_end(a, la, b, lb, e + 1, to);
    }
}

proof fn lemma_lat_lon_in(
    a: Seq<char>,
    la: Seq<(int, int)>,
    b: Seq<char>,
    lb: Seq<(int, int)>,
    i: int,
    to: int,
)
    requires
        same_lines(a, la, b, lb),
        0 <= i,
        to <= la.len(),
    ensures
        match product::lat_lon_in(a, la, i, to) {
            Ok(x) => product::lat_lon_in(b, lb, i, to) matches Ok(y) && same_outline(x, y),
            Err(kind) => product::lat_lon_in(b, lb, i, to) == Err::<
                Option<LatLonBlockView>,
                ErrorKind,
            >(kind),
        },
    decreases to - i,
{
    if i < to {
        lemma_trimmed(a, la, b, lb, i);
        lemma_lat_lon_end(a, la, b, lb, i, to);
        let e = product::lat_lon_end(a, la, i, to);
        let raw = a.subrange(la[i].0, la[e].1);
        assert(b.subrange(lb[i].0, lb[e].1) == lines::lf_text(raw));
        lemma_lf_lat_lon(raw);
        lemma_lat_lon_in(a, la, b, lb, i + 1, to);
    }
}

proof fn lemma_motion_in(
    a: Seq<char>,
    la: Seq<(int, int)>,
    b: Seq<char>,
    lb: Seq<(int, int)>,
    i: int,
    to: int,
)
    requires
        same_lines(a, la, b, lb),
        0 <= i,
        to <= la.len(),
    ensures
        product::motion_in(a, la, i, to) == product::motion_in(b, lb, i, to),
    decreases to - i,
{
    if i < to {
        lemma_trimmed(a, la, b, lb, i);
        lemma_motion_in(a, la, b, lb, i + 1, to);
    }
}

proof fn lemma_andand(
    a: Seq<char>,
    la: Seq<(int, int)>,
    b: Seq<char>,
    lb: Seq<(int, int)>,
    from: int,
    to: int,
)
    requires
        same_lines(a, la, b, lb),
        0 <= from,
        to <= la.len(),
    ensures
        product::has_andand(a, la, from, to) == product::has_andand(b, lb, from, to),
{
    if product::has_andand(a, la, from, to) {
        let i = choose|i: int|
            from <= i < to && #[trigger] lines::trimmed_at(a, la, i) == "&&"@;
        lemma_trimmed(a, la, b, lb, i);
        assert(lines::trimmed_at(b, lb, i) == "&&"@);
    }
    if product::has_andand(b, lb, from, to) {
        let i = choose|i: int|
            from <= i < to && #[trigger] lines::trimmed_at(b, lb, i) == "&&"@;
        lemma_trimmed(a, la, b, lb, i);
        assert(lines::trimmed_at(a, la, i) == "&&"@);
    }
}

proof fn lemma_parse_segment(
    a: Seq<char>,
    la: Seq<(int, int)>,
    b: Seq<char>,
    lb: Seq<(int, int)>,
    from: int,
    content: int,
    to: int,
    u: UgcStringView,
    v: UgcStringView,
)
    requires
        same_lines(a, la, b, lb),
        0 <= from <= content <= to <= la.len(),
        u.codes == v.codes,
        u.purge_time == v.purge_time,
    ensures
        match product::parse_segment(a, la, from, content, to, u) {
            Ok(x) => product::parse_segment(b, lb, from, content, to, v) matches Ok(y) && alike(
                x,
                y,
            ),
            Err(kind) => product::parse_segment(b, lb, from, content, to, v) == Err::<
                ProductSegmentView,
                ErrorKind,
            >(kind),
        },
{
    lemma_pvtec_run(a, la, b, lb, content, to, Seq::empty());
    let after = product::pvtec_run(a, la, content, to, Seq::empty()).1;
    lemma_hvtec_run(a, la, b, lb, after, to, Seq::empty());
    let start = product::hvtec_run(a, la, after, to, Seq::empty()).1;
    assert(product::texts(a, la, start, to) =~= product::texts(b, lb, start, to)) by {
        assert forall|i: int| 0 <= i < product::texts(a, la, start, to).len() implies product::texts(
            a,
            la,
            start,
            to,
        )[i] == product::texts(b, lb, start, to)[i] by {
            lemma_trimmed(a, la, b, lb, start + i);
        }
    }
    lemma_lat_lon_in(a, la, b, lb, start, to);
    lemma_motion_in(a, la, b, lb, start, to);
    lemma_andand(a, la, b, lb, from, to);
    if to < la.len() {
        lemma_trimmed(a, la, b, lb, to);
    }
}

proof fn lemma_alike_push(
    a: Seq<ProductSegmentView>,
    b: Seq<ProductSegmentView>,
    x: ProductSegmentView,
    y: ProductSegmentView,
)
    requires
        all_alike(a, b),
        alike(x, y),
    ensures
        all_alike(a.push(x), b.push(y)),
{
    let p = a.push(x);
    let q = b.push(y);
    assert forall|i: int| #![trigger p[i]] #![trigger q[i]] 0 <= i < p.len() implies alike(
        p[i],
        q[i],
    ) by {
        if i < a.len() {
            assert(p[i] == a[i] && q[i] == b[i]);
        }
    }
}

proof fn lemma_parse_lines(
    a: Seq<char>,
    la: Seq<(int, int)>,
    b: Seq<char>,
    lb: Seq<(int, int)>,
    cursor: int,
    preamble: Seq<Seq<char>>,
    sa: Seq<ProductSegmentView>,
    sb: Seq<ProductSegmentView>,
)
    requires
        same_lines(a, la, b, lb),
        0 <= cursor,
        all_alike(sa, sb),
    ensures
        match product::parse_lines(a, la, cursor, preamble, sa) {
            Ok((p, x)) => product::parse_lines(b, lb, cursor, preamble, sb) matches Ok((q, y)) && q
                == p && all_alike(x, y),
            Err(kind) => product::parse_lines(b, lb, cursor, preamble, sb) == Err::<
                (Seq<Seq<char>>, Seq<ProductSegmentView>),
                ErrorKind,
            >(kind),
        },
    decreases la.len() - cursor,
{
    if cursor < la.len() {
        lemma_trimmed(a, la, b, lb, cursor);
        if lines::trimmed_at(a, la, cursor).len() == 0 {
            lemma_parse_lines(a, la, b, lb, cursor + 1, preamble, sa, sb);
        } else {
            lemma_ugc_block(a, la, b, lb, cursor);
            match product::ugc_block(a, la, cursor) {
                Some((u, content)) => {
                    let v = (product::ugc_block(b, lb, cursor)->0).0;
                    lemma_segment_end(a, la, b, lb, content);
                    let end = product::segment_end(a, la, content);
                    lemma_parse_segment(a, la, b, lb, cursor, content, end, u, v);
                    match product::parse_segment(a, la, cursor, content, end, u) {
                        Ok(x) => {
                            let y = product::parse_segment(b, lb, cursor, content, end, v)->Ok_0;
                            lemma_alike_push(sa, sb, x, y);
                            let next = if x.boundaries.separated_by_dollars {
                                end + 1
                            } else {
                                end
                            };
                            lemma_parse_lines(
                                a,
                                la,
                                b,
                                lb,
                                next,
                                preamble,
                                sa.push(x),
                                sb.push(y),
                            );
                        },
                        Err(_) => {},
                    }
                },
                None => {
                    lemma_parse_lines(
                        a,
                        la,
                        b,
                        lb,
                        cursor + 1,
                        preamble.push(lines::text_at(a, la, cursor)),
                        sa,
                        sb,
                    );
                },
            }
        }
    }
}

proof fn lemma_first_pvtec(a: Seq<ProductSegmentView>, b: Seq<ProductSegmentView>, i: int)
    requires
        all_alike(a, b),
        0 <= i,
    ensures
        product::first_pvtec(a, i) == product::first_pvtec(b, i),
    decreases a.len() - i,
{
    if i < a.len() {
        assert(alike(a[i], b[i]));
        lemma_first_pvtec(a, b, i + 1);
    }
}

/// Products read the same whatever separates the lines of the body: the same
/// family, preamble and header, and segments that are alike; and one cannot be
/// read where the other cannot, for the same reason.
pub proof fn products_read_the_same(m: WmoMessageView, body: Seq<char>)
    requires
        body == lines::lf_text(m.body),
    ensures
        match product::parse_product(m) {
            Ok(p) => product::parse_product(WmoMessageView { body, ..m }) matches Ok(q) && {
                &&& q.family == p.family
                &&& q.awips_id == p.awips_id
                &&& q.mnd_header == p.mnd_header
                &&& q.preamble == p.preamble
                &&& all_alike(p.segments, q.segments)
            },
            Err(kind) => product::parse_product(WmoMessageView { body, ..m }) == Err::<
                NwsProductView,
                ErrorKind,
            >(kind),
        },
{
    lemma_lf_same_lines(m.body);
    let la = lines::lines_of(m.body);
    let lb = lines::lines_of(body);
    let none = Seq::<ProductSegmentView>::empty();
    lemma_parse_lines(m.body, la, body, lb, 0, Seq::empty(), none, none);
    if let Ok((_, x)) = product::parse_lines(m.body, la, 0, Seq::empty(), none) {
        let y = (product::parse_lines(body, lb, 0, Seq::empty(), none)->Ok_0).1;
        lemma_first_pvtec(x, y, 0);
    }
}

/// A text that begins with no white space begins the same.
pub proof fn lemma_lf_head(s: Seq<char>)
    ensures
        s.len() > 0 && !text::is_white(s[0]) ==> lines::lf_text(s).len() > 0 && lines::lf_text(s)[0]
            == s[0],
        s.len() == 0 ==> lines::lf_text(s).len() == 0,
{
    lemma_lf_chars(s);
}

/// A text without carriage returns stays as it is.
pub proof fn lemma_lf_plain(s: Seq<char>)
    requires
        framing::plain(s),
    ensures
        lines::lf_text(s) == s,
    decreases s.len(),
{
    if s.len() > 0 {
        let t = s.skip(1);
        assert forall|i: int| 0 <= i < t.len() implies #[trigger] t[i] != '\r' by {
            assert(t[i] == s[i + 1]);
        }
        lemma_lf_plain(t);
        assert(seq![s[0]] + t =~= s);
    } else {
        assert(lines::lf_text(s) =~= s);
    }
}

/// The wire form of a text without carriage returns is that text again.
pub proof fn lemma_lf_wire(s: Seq<char>)
    requires
        framing::plain(s),
    ensures
        lines::lf_text(framing::wire(s)) == s,
    decreases s.len(),
{
    if s.len() > 0 {
        let t = s.skip(1);
        assert forall|i: int| 0 <= i < t.len() implies #[trigger] t[i] != '\r' by {
            assert(t[i] == s[i + 1]);
        }
        lemma_lf_wire(t);
        let head = framing::wire_char(s[0]);
        assert(head.last() == s[0]);
        lemma_lf_append(head, framing::wire(t));
        if s[0] == '\n' {
            let line = seq!['\r', '\r'];
            assert(head =~= line + seq!['\n']);
            lemma_lf_one_line(line);
            assert(line.drop_last() =~= seq!['\r']);
            assert(seq!['\r'].drop_last() =~= Seq::<char>::empty());
            assert(text::strip_cr(Seq::<char>::empty()) =~= Seq::<char>::empty());
            assert(text::strip_cr(seq!['\r']) =~= Seq::<char>::empty());
            assert(text::strip_cr(line) =~= Seq::<char>::empty());
            assert(lines::lf_text(head) =~= seq![s[0]]);
        } else {
            lemma_lf_line(head);
        }
        assert(seq![s[0]] + t =~= s);
    } else {
        assert(lines::lf_text(framing::wire(s)) =~= s);
    }
}

/// A bulletin of a text without carriage returns has none either, nor has its
/// body.
pub proof fn lemma_bulletin_is_plain(t: Seq<char>, m: WmoMessageView)
    requires
        framing::plain(t),
        wmo::parse_text(t) == Ok::<WmoMessageView, ErrorKind>(m),
        m.frame_kind == WmoFrameKind::Bare,
    ensures
        framing::plain(m.bulletin),
        framing::plain(m.body),
{
    framing::lemma_plain_parts(t, m);
}

} // verus!
