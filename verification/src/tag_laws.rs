//! What the tags of a segment promise: each stands for the words of some line,
//! and no such words go without their tag.

use vstd::prelude::*;

use crate::line_ends;
use crate::number;
use crate::tags;
use crate::tags::{SegmentTagView, WarningActionKind, WarningTextTagKind, WarningTextTagView};
use crate::text;
use crate::vtec::{PvtecView, VtecAction};

verus! {

// ---------------------------------------------------------------------------
// Words
// ---------------------------------------------------------------------------

/// Whether two characters are the same, the case of ASCII letters aside.
pub open spec fn same_letter(a: char, b: char) -> bool {
    a == b || ('a' <= a <= 'z' && a as int - 32 == b as int) || ('a' <= b <= 'z' && b as int - 32
        == a as int)
}

/// Whether the words stand at position `i` of a line, case aside.
pub open spec fn says_at(line: Seq<char>, words: Seq<char>, i: int) -> bool {
    &&& 0 <= i
    &&& i + words.len() <= line.len()
    &&& forall|k: int| 0 <= k < words.len() ==> same_letter(line[i + k], #[trigger] words[k])
}

/// Whether the words stand somewhere in a line, case aside.
pub open spec fn says(line: Seq<char>, words: Seq<char>) -> bool {
    exists|i: int| #[trigger] says_at(line, words, i)
}

/// Whether a line begins with the words, white space before them and case
/// aside.
pub open spec fn begins_saying(line: Seq<char>, words: Seq<char>) -> bool {
    exists|i: int| #[trigger]
        says_at(line, words, i) && forall|j: int| 0 <= j < i ==> text::is_white(#[trigger] line[j])
}

/// Whether words are in capitals, with no white space at their ends.
pub open spec fn plain_words(words: Seq<char>) -> bool {
    &&& words.len() > 0
    &&& !text::is_white(words[0])
    &&& !text::is_white(words.last())
    &&& forall|k: int| 0 <= k < words.len() ==> !('a' <= #[trigger] words[k] <= 'z')
}

/// Capitals are what letters become: `a` to `z` go to `A` to `Z`, all else
/// stays.
pub proof fn capitals(c: char)
    ensures
        'a' <= c <= 'z' ==> text::upper_char(c) as int == c as int - 32,
        !('a' <= c <= 'z') ==> text::upper_char(c) == c,
        'A' <= c <= 'Z' ==> text::lower_char(c) as int == c as int + 32,
        !('A' <= c <= 'Z') ==> text::lower_char(c) == c,
{
}

proof fn lemma_same_letter(a: char, b: char)
    requires
        !('a' <= b <= 'z'),
    ensures
        same_letter(a, b) == (text::upper_char(a) == b),
{
    capitals(a);
}

proof fn lemma_says_upper(line: Seq<char>, words: Seq<char>, i: int)
    requires
        plain_words(words),
    ensures
        says_at(line, words, i) == text::occurs_at(text::upper(line), words, i),
{
    let u = text::upper(line);
    if 0 <= i && i + words.len() <= line.len() {
        let part = u.subrange(i, i + words.len());
        assert forall|k: int| 0 <= k < words.len() implies same_letter(
            line[i + k],
            #[trigger] words[k],
        ) == (part[k] == words[k]) by {
            lemma_same_letter(line[i + k], words[k]);
        }
        if says_at(line, words, i) {
            assert(part =~= words);
        }
        if part == words {
            assert(says_at(line, words, i));
        }
    }
}

/// A search in capitals finds exactly the words that are said.
pub proof fn searches_find_what_is_said(line: Seq<char>, words: Seq<char>)
    requires
        plain_words(words),
    ensures
        text::contains(text::upper(line), words) == says(line, words),
{
    let u = text::upper(line);
    text::lemma_find_from(u, words, 0);
    match text::find(u, words) {
        Some(k) => {
            lemma_says_upper(line, words, k);
        },
        None => {
            assert forall|i: int| !#[trigger] says_at(line, words, i) by {
                lemma_says_upper(line, words, i);
                if i >= 0 {
                    assert(!text::occurs_at(u, words, i));
                }
            }
        },
    }
}

proof fn lemma_trim_start_parts(s: Seq<char>)
    ensures
        ({
            let t = text::trim_start(s);
            let m = s.len() - t.len();
            &&& 0 <= m
            &&& t == s.skip(m)
            &&& forall|j: int| 0 <= j < m ==> text::is_white(#[trigger] s[j])
            &&& t.len() > 0 ==> !text::is_white(t[0])
        }),
    decreases s.len(),
{
    if s.len() > 0 && text::is_white(s[0]) {
        let r = s.skip(1);
        lemma_trim_start_parts(r);
        let m = s.len() - text::trim_start(s).len();
        assert(r.skip(m - 1) =~= s.skip(m));
        assert forall|j: int| 0 <= j < m implies text::is_white(#[trigger] s[j]) by {
            if j > 0 {
                assert(r[j - 1] == s[j]);
            }
        }
    } else {
        assert(s.skip(0) =~= s);
    }
}

/// Trimming takes white space off both ends of a text and nothing else: what
/// is left stands in the text as it was, and neither begins nor ends with
/// white space.
pub proof fn trimming_takes_only_white_space(s: Seq<char>)
    ensures
        ({
            let t = text::trim(s);
            let m = s.len() - text::trim_start(s).len();
            &&& 0 <= m && m + t.len() <= s.len()
            &&& t == s.subrange(m, m + t.len())
            &&& forall|j: int| 0 <= j < m ==> text::is_white(#[trigger] s[j])
            &&& forall|j: int| m + t.len() <= j < s.len() ==> text::is_white(#[trigger] s[j])
            &&& t.len() > 0 ==> !text::is_white(t[0]) && !text::is_white(t.last())
        }),
{
    lemma_trim_start_parts(s);
    let r = text::trim_start(s);
    let t = text::trim(s);
    let m = s.len() - r.len();
    line_ends::lemma_trim_end_parts(r);
    assert(t =~= s.subrange(m, m + t.len()));
    assert forall|j: int| m + t.len() <= j < s.len() implies text::is_white(#[trigger] s[j]) by {
        assert(r[j - m] == s[j]);
    }
    if t.len() > 0 {
        assert(t[0] == r[0]);
    }
}

proof fn lemma_not_white(c: char, w: char)
    requires
        same_letter(c, w),
        !text::is_white(w),
    ensures
        !text::is_white(c),
{
}

/// The white space around a line changes nothing of what it says.
pub proof fn margins_say_nothing(line: Seq<char>, words: Seq<char>)
    requires
        plain_words(words),
    ensures
        says(text::trim(line), words) == says(line, words),
        begins_saying(text::trim(line), words) == begins_saying(line, words),
{
    let t = text::trim(line);
    let m = line.len() - text::trim_start(line).len();
    trimming_takes_only_white_space(line);
    assert forall|i: int| #[trigger] says_at(t, words, i) implies says_at(line, words, i + m) by {
        assert forall|k: int| 0 <= k < words.len() implies same_letter(
            line[i + m + k],
            #[trigger] words[k],
        ) by {
            assert(same_letter(t[i + k], words[k]));
            assert(t[i + k] == line[m + (i + k)]);
        }
    }
    assert forall|i: int| #[trigger] says_at(line, words, i) implies says_at(t, words, i - m) by {
        let n = words.len() as int;
        assert(same_letter(line[i + 0], words[0]));
        lemma_not_white(line[i], words[0]);
        assert(same_letter(line[i + (n - 1)], words[n - 1]));
        lemma_not_white(line[i + n - 1], words[n - 1]);
        if i < m {
            assert(text::is_white(line[i]));
        }
        if i + n - 1 >= m + t.len() {
            assert(text::is_white(line[i + n - 1]));
        }
        assert forall|k: int| 0 <= k < words.len() implies same_letter(
            t[i - m + k],
            #[trigger] words[k],
        ) by {
            assert(same_letter(line[i + k], words[k]));
            assert(t[i - m + k] == line[m + (i - m + k)]);
        }
    }
    if says(t, words) {
        let i = choose|i: int| #[trigger] says_at(t, words, i);
        assert(says_at(line, words, i + m));
    }
    if says(line, words) {
        let i = choose|i: int| #[trigger] says_at(line, words, i);
        assert(says_at(t, words, i - m));
    }
    if begins_saying(t, words) {
        let i = choose|i: int| #[trigger]
            says_at(t, words, i) && forall|j: int|
                0 <= j < i ==> text::is_white(#[trigger] t[j]);
        assert(says_at(line, words, i + m));
        assert forall|j: int| 0 <= j < i + m implies text::is_white(#[trigger] line[j]) by {
            if j >= m {
                assert(t[j - m] == line[m + (j - m)]);
            }
        }
    }
    if begins_saying(line, words) {
        let i = choose|i: int| #[trigger]
            says_at(line, words, i) && forall|j: int|
                0 <= j < i ==> text::is_white(#[trigger] line[j]);
        assert(says_at(t, words, i - m));
        assert forall|j: int| 0 <= j < i - m implies text::is_white(#[trigger] t[j]) by {
            assert(t[j] == line[m + j]);
        }
    }
}

proof fn lemma_upper_white(c: char)
    ensures
        text::is_white(text::upper_char(c)) == text::is_white(c),
{
}

proof fn lemma_upper_trim_start(s: Seq<char>)
    ensures
        text::trim_start(text::upper(s)) == text::upper(text::trim_start(s)),
    decreases s.len(),
{
    if s.len() > 0 {
        lemma_upper_white(s[0]);
        if text::is_white(s[0]) {
            assert(text::upper(s).skip(1) =~= text::upper(s.skip(1)));
            lemma_upper_trim_start(s.skip(1));
        }
    } else {
        assert(text::upper(s) =~= s);
    }
}

/// A line that begins with the words in capitals is one that begins by saying
/// them.
pub proof fn beginnings_are_what_is_said(line: Seq<char>, words: Seq<char>)
    requires
        plain_words(words),
    ensures
        text::starts_with(text::trim_start(text::upper(line)), words) == begins_saying(line, words),
{
    lemma_upper_trim_start(line);
    lemma_trim_start_parts(line);
    let r = text::trim_start(line);
    let u = text::upper(r);
    let m = line.len() - r.len();
    lemma_says_upper(r, words, 0);
    if words.len() <= u.len() {
        assert(u.take(words.len() as int) =~= u.subrange(0, words.len() as int));
    }
    assert(text::starts_with(u, words) == says_at(r, words, 0));
    if says_at(r, words, 0) {
        assert forall|k: int| 0 <= k < words.len() implies same_letter(
            line[m + k],
            #[trigger] words[k],
        ) by {
            assert(same_letter(r[0 + k], words[k]));
            assert(r[k] == line[m + k]);
        }
        assert(says_at(line, words, m));
    }
    if begins_saying(line, words) {
        let i = choose|i: int| #[trigger]
            says_at(line, words, i) && forall|j: int|
                0 <= j < i ==> text::is_white(#[trigger] line[j]);
        assert(same_letter(line[i + 0], words[0]));
        lemma_not_white(line[i], words[0]);
        if i < m {
            assert(text::is_white(line[i]));
        }
        if i > m {
            assert(text::is_white(line[m]));
            assert(r[0] == line[m]);
        }
        assert forall|k: int| 0 <= k < words.len() implies same_letter(
            r[0 + k],
            #[trigger] words[k],
        ) by {
            assert(same_letter(line[i + k], words[k]));
            assert(r[k] == line[m + k]);
        }
    }
}

// ---------------------------------------------------------------------------
// Segment tags
// ---------------------------------------------------------------------------

/// Whether `k` is the first position at which `p` stands in `s`.
pub open spec fn first_at(s: Seq<char>, p: Seq<char>, k: int) -> bool {
    &&& 0 <= k && k + p.len() <= s.len()
    &&& s.subrange(k, k + p.len()) == p
    &&& forall|j: int| 0 <= j < k ==> #[trigger] s.subrange(j, j + p.len()) != p
}

/// Whether `v` is `s` without the leading characters of `marks`.
pub open spec fn without_marks(s: Seq<char>, marks: Seq<char>, v: Seq<char>) -> bool {
    exists|n: int|
        0 <= n <= s.len() && v == #[trigger] s.skip(n) && (forall|j: int|
            0 <= j < n ==> marks.contains(#[trigger] s[j])) && (v.len() > 0 ==> !marks.contains(
            v[0],
        ))
}

/// Whether a text in capitals gives `v` between the first `prefix` and the
/// next `suffix`: white space around it and comparison marks before it aside.
pub open spec fn gives_between(
    u: Seq<char>,
    prefix: Seq<char>,
    suffix: Seq<char>,
    v: Seq<char>,
) -> bool {
    exists|k: int, e: int|
        #![trigger first_at(u, prefix, k), first_at(u.skip(k + prefix.len()), suffix, e)]
        first_at(u, prefix, k) && first_at(u.skip(k + prefix.len()), suffix, e) && without_marks(
            text::trim(u.subrange(k + prefix.len(), k + prefix.len() + e)),
            seq!['<', '>'],
            v,
        )
}

/// Whether a line gives a hail size in inches.
pub open spec fn gives_hail(line: Seq<char>, v: Seq<char>) -> bool {
    let u = text::upper(text::trim(line));
    &&& number::float_literal(v)
    &&& gives_between(u, "HAIL..."@, "IN"@, v) || (gives_between(u, "MAX HAIL SIZE..."@, "IN"@, v)
        && !exists|w: Seq<char>| #[trigger]
        gives_between(u, "HAIL..."@, "IN"@, w) && number::float_literal(w))
}

/// Whether a line gives a wind speed in miles per hour.
pub open spec fn gives_wind(line: Seq<char>, mph: u16) -> bool {
    let u = text::upper(text::trim(line));
    ||| exists|v: Seq<char>| #[trigger]
        gives_between(u, "WIND..."@, "MPH"@, v) && number::unsigned(v, 65535) == Some(mph as int)
    ||| (exists|v: Seq<char>| #[trigger]
        gives_between(u, "MAX WIND GUST..."@, "MPH"@, v) && number::unsigned(v, 65535) == Some(
            mph as int,
        )) && !exists|v: Seq<char>| #[trigger]
        gives_between(u, "WIND..."@, "MPH"@, v) && number::unsigned(v, 65535) is Some
}

/// Whether a line speaks of a damage threat.
pub open spec fn gives_threat(line: Seq<char>, word: Seq<char>) -> bool {
    ||| (word == "CONSIDERABLE"@ || word == "SIGNIFICANT"@ || word == "DESTRUCTIVE"@ || word
        == "CATASTROPHIC"@) && says(line, word) && says(line, "DAMAGE THREAT"@)
    ||| word == "SIGNIFICANT"@ && says(line, "SNOW SQUALL IMPACT...SIGNIFICANT"@)
    ||| word == "GENERAL"@ && says(line, "SNOW SQUALL IMPACT...GENERAL"@)
}

/// Whether a line gives a tag.
pub open spec fn gives_tag(line: Seq<char>, tag: SegmentTagView) -> bool {
    match tag {
        SegmentTagView::TornadoObserved => says(line, "TORNADO...OBSERVED"@),
        SegmentTagView::TornadoRadarIndicated => says(line, "TORNADO...RADAR INDICATED"@),
        SegmentTagView::TornadoPossible => says(line, "TORNADO...POSSIBLE"@),
        SegmentTagView::FlashFloodObserved => says(line, "FLASH FLOOD...OBSERVED"@),
        SegmentTagView::FlashFloodEmergency => begins_saying(line, "FLASH FLOOD EMERGENCY"@),
        SegmentTagView::HailInches(v) => gives_hail(line, v),
        SegmentTagView::WindMph(mph) => gives_wind(line, mph),
        SegmentTagView::DamageThreat(word) => gives_threat(line, word),
    }
}

proof fn lemma_tag_words()
    ensures
        plain_words("TORNADO...OBSERVED"@),
        plain_words("TORNADO...RADAR INDICATED"@),
        plain_words("TORNADO...POSSIBLE"@),
        plain_words("FLASH FLOOD...OBSERVED"@),
        plain_words("FLASH FLOOD EMERGENCY"@),
        plain_words("CONSIDERABLE"@),
        plain_words("SIGNIFICANT"@),
        plain_words("DESTRUCTIVE"@),
        plain_words("CATASTROPHIC"@),
        plain_words("DAMAGE THREAT"@),
        plain_words("SNOW SQUALL IMPACT...SIGNIFICANT"@),
        plain_words("SNOW SQUALL IMPACT...GENERAL"@),
{
    reveal_strlit("TORNADO...OBSERVED");
    reveal_strlit("TORNADO...RADAR INDICATED");
    reveal_strlit("TORNADO...POSSIBLE");
    reveal_strlit("FLASH FLOOD...OBSERVED");
    reveal_strlit("FLASH FLOOD EMERGENCY");
    reveal_strlit("CONSIDERABLE");
    reveal_strlit("SIGNIFICANT");
    reveal_strlit("DESTRUCTIVE");
    reveal_strlit("CATASTROPHIC");
    reveal_strlit("DAMAGE THREAT");
    reveal_strlit("SNOW SQUALL IMPACT...SIGNIFICANT");
    reveal_strlit("SNOW SQUALL IMPACT...GENERAL");
}

proof fn lemma_first_at(s: Seq<char>, p: Seq<char>)
    ensures
        match text::find(s, p) {
            Some(k) => first_at(s, p, k) && forall|j: int| #[trigger] first_at(s, p, j) ==> j == k,
            None => forall|j: int| !#[trigger] first_at(s, p, j),
        },
{
    text::lemma_find_from(s, p, 0);
    match text::find(s, p) {
        Some(k) => {
            assert forall|j: int| 0 <= j < k implies #[trigger] s.subrange(j, j + p.len())
                != p by {
                assert(!text::occurs_at(s, p, j));
            }
            assert forall|j: int| #[trigger] first_at(s, p, j) implies j == k by {
                assert(text::occurs_at(s, p, j));
                if j > k {
                    assert(s.subrange(k, k + p.len()) != p);
                }
            }
        },
        None => {
            assert forall|j: int| !#[trigger] first_at(s, p, j) by {
                if first_at(s, p, j) {
                    assert(text::occurs_at(s, p, j));
                }
            }
        },
    }
}

proof fn lemma_without_marks(s: Seq<char>, marks: Seq<char>)
    ensures
        without_marks(s, marks, text::drop_leading(s, marks)),
        forall|v: Seq<char>| #[trigger]
            without_marks(s, marks, v) ==> v == text::drop_leading(s, marks),
    decreases s.len(),
{
    let d = text::drop_leading(s, marks);
    if s.len() > 0 && marks.contains(s[0]) {
        let r = s.skip(1);
        lemma_without_marks(r, marks);
        let n = choose|n: int|
            0 <= n <= r.len() && d == #[trigger] r.skip(n) && (forall|j: int|
                0 <= j < n ==> marks.contains(#[trigger] r[j])) && (d.len() > 0 ==> !marks.contains(
                d[0],
            ));
        assert(s.skip(n + 1) =~= r.skip(n));
        assert forall|j: int| 0 <= j < n + 1 implies marks.contains(#[trigger] s[j]) by {
            if j > 0 {
                assert(r[j - 1] == s[j]);
            }
        }
        assert forall|v: Seq<char>| #[trigger] without_marks(s, marks, v) implies v == d by {
            let m = choose|m: int|
                0 <= m <= s.len() && v == #[trigger] s.skip(m) && (forall|j: int|
                    0 <= j < m ==> marks.contains(#[trigger] s[j])) && (v.len() > 0
                    ==> !marks.contains(v[0]));
            if m == 0 {
                assert(v[0] == s[0]);
            } else {
                assert(r.skip(m - 1) =~= s.skip(m));
                assert forall|j: int| 0 <= j < m - 1 implies marks.contains(#[trigger] r[j]) by {
                    assert(s[j + 1] == r[j]);
                }
                assert(without_marks(r, marks, v));
            }
        }
    } else {
        assert(s.skip(0) =~= s);
        assert forall|v: Seq<char>| #[trigger] without_marks(s, marks, v) implies v == d by {
            let m = choose|m: int|
                0 <= m <= s.len() && v == #[trigger] s.skip(m) && (forall|j: int|
                    0 <= j < m ==> marks.contains(#[trigger] s[j])) && (v.len() > 0
                    ==> !marks.contains(v[0]));
            if m > 0 {
                assert(marks.contains(s[0]));
            }
        }
    }
}

proof fn lemma_gives_between(u: Seq<char>, prefix: Seq<char>, suffix: Seq<char>)
    ensures
        match tags::tagged(u, prefix, suffix) {
            Some(v) => gives_between(u, prefix, suffix, v) && forall|w: Seq<char>| #[trigger]
                gives_between(u, prefix, suffix, w) ==> w == v,
            None => forall|w: Seq<char>| !#[trigger] gives_between(u, prefix, suffix, w),
        },
{
    reveal_strlit("<>");
    let marks = "<>"@;
    assert(marks =~= seq!['<', '>']);
    lemma_first_at(u, prefix);
    if let Some(k) = text::find(u, prefix) {
        let tail = u.skip(k + prefix.len());
        lemma_first_at(tail, suffix);
        if let Some(e) = text::find(tail, suffix) {
            let inner = text::trim(u.subrange(k + prefix.len(), k + prefix.len() + e));
            assert(tail.take(e) =~= u.subrange(k + prefix.len(), k + prefix.len() + e));
            lemma_without_marks(inner, marks);
            assert(first_at(u, prefix, k) && first_at(u.skip(k + prefix.len()), suffix, e));
            assert(gives_between(u, prefix, suffix, text::drop_leading(inner, marks)));
        }
    }
}

proof fn lemma_hail(line: Seq<char>, v: Seq<char>)
    ensures
        ({
            let u = text::upper(text::trim(line));
            gives_hail(line, v) == (tags::or_else(
                tags::numeric_tag(u, "HAIL..."@, "IN"@),
                tags::numeric_tag(u, "MAX HAIL SIZE..."@, "IN"@),
            ) == Some(v))
        }),
{
    let u = text::upper(text::trim(line));
    lemma_gives_between(u, "HAIL..."@, "IN"@);
    lemma_gives_between(u, "MAX HAIL SIZE..."@, "IN"@);
}

proof fn lemma_wind(line: Seq<char>, mph: u16)
    ensures
        ({
            let u = text::upper(text::trim(line));
            gives_wind(line, mph) == (tags::or_else(
                tags::integer_tag(u, "WIND..."@, "MPH"@),
                tags::integer_tag(u, "MAX WIND GUST..."@, "MPH"@),
            ) == Some(mph))
        }),
{
    let u = text::upper(text::trim(line));
    lemma_gives_between(u, "WIND..."@, "MPH"@);
    lemma_gives_between(u, "MAX WIND GUST..."@, "MPH"@);
    if let Some(v) = tags::tagged(u, "WIND..."@, "MPH"@) {
        lemma_unsigned_bound(v);
    }
    if let Some(v) = tags::tagged(u, "MAX WIND GUST..."@, "MPH"@) {
        lemma_unsigned_bound(v);
    }
}

proof fn lemma_unsigned_bound(v: Seq<char>)
    ensures
        number::unsigned(v, 65535) matches Some(n) ==> 0 <= n <= 65535,
{
    let body = if v.len() > 0 && v[0] == '+' {
        v.skip(1)
    } else {
        v
    };
    if number::all_digits(body) {
        number::lemma_digits_value_bound(body);
    }
}

proof fn lemma_when(
    done: Seq<SegmentTagView>,
    condition: bool,
    given: SegmentTagView,
    tag: SegmentTagView,
)
    ensures
        tags::when(done, condition, given).contains(tag) == (done.contains(tag) || (condition && tag
            == given)),
{
    if condition {
        lemma_push_contains(done, given, tag);
    }
}

proof fn lemma_push_contains(done: Seq<SegmentTagView>, given: SegmentTagView, tag: SegmentTagView)
    ensures
        done.push(given).contains(tag) == (done.contains(tag) || tag == given),
{
    let all = done.push(given);
    if done.contains(tag) {
        let i = done.index_of(tag);
        assert(all[i] == tag);
    }
    if tag == given {
        assert(all[done.len() as int] == tag);
    }
    if all.contains(tag) {
        let i = all.index_of(tag);
        if i < done.len() {
            assert(done[i] == tag);
        }
    }
}

proof fn lemma_hazards(done: Seq<SegmentTagView>, line: Seq<char>, tag: SegmentTagView)
    ensures
        tags::hazard_tags(done, text::upper(text::trim(line))).contains(tag) == (done.contains(tag)
            || ((tag is TornadoObserved || tag is TornadoRadarIndicated || tag is TornadoPossible
            || tag is FlashFloodObserved || tag is FlashFloodEmergency) && gives_tag(line, tag))),
{
    lemma_tag_words();
    let t = text::trim(line);
    let u = text::upper(t);
    searches_find_what_is_said(t, "TORNADO...OBSERVED"@);
    searches_find_what_is_said(t, "TORNADO...RADAR INDICATED"@);
    searches_find_what_is_said(t, "TORNADO...POSSIBLE"@);
    searches_find_what_is_said(t, "FLASH FLOOD...OBSERVED"@);
    beginnings_are_what_is_said(t, "FLASH FLOOD EMERGENCY"@);
    margins_say_nothing(line, "TORNADO...OBSERVED"@);
    margins_say_nothing(line, "TORNADO...RADAR INDICATED"@);
    margins_say_nothing(line, "TORNADO...POSSIBLE"@);
    margins_say_nothing(line, "FLASH FLOOD...OBSERVED"@);
    margins_say_nothing(line, "FLASH FLOOD EMERGENCY"@);
    let c1 = text::contains(u, "TORNADO...OBSERVED"@);
    let c2 = text::contains(u, "TORNADO...RADAR INDICATED"@);
    let c3 = text::contains(u, "TORNADO...POSSIBLE"@);
    let c4 = text::contains(u, "FLASH FLOOD...OBSERVED"@);
    let c5 = text::starts_with(text::trim_start(u), "FLASH FLOOD EMERGENCY"@);
    let s1 = tags::when(done, c1, SegmentTagView::TornadoObserved);
    let s2 = tags::when(s1, c2, SegmentTagView::TornadoRadarIndicated);
    let s3 = tags::when(s2, c3, SegmentTagView::TornadoPossible);
    let s4 = tags::when(s3, c4, SegmentTagView::FlashFloodObserved);
    lemma_when(done, c1, SegmentTagView::TornadoObserved, tag);
    lemma_when(s1, c2, SegmentTagView::TornadoRadarIndicated, tag);
    lemma_when(s2, c3, SegmentTagView::TornadoPossible, tag);
    lemma_when(s3, c4, SegmentTagView::FlashFloodObserved, tag);
    lemma_when(s4, c5, SegmentTagView::FlashFloodEmergency, tag);
}

proof fn lemma_sizes(done: Seq<SegmentTagView>, line: Seq<char>, tag: SegmentTagView)
    ensures
        tags::size_tags(done, text::upper(text::trim(line))).contains(tag) == (done.contains(tag)
            || ((tag is HailInches || tag is WindMph) && gives_tag(line, tag))),
{
    let u = text::upper(text::trim(line));
    let hail = tags::or_else(
        tags::numeric_tag(u, "HAIL..."@, "IN"@),
        tags::numeric_tag(u, "MAX HAIL SIZE..."@, "IN"@),
    );
    let wind = tags::or_else(
        tags::integer_tag(u, "WIND..."@, "MPH"@),
        tags::integer_tag(u, "MAX WIND GUST..."@, "MPH"@),
    );
    if let SegmentTagView::HailInches(v) = tag {
        lemma_hail(line, v);
    }
    if let SegmentTagView::WindMph(mph) = tag {
        lemma_wind(line, mph);
    }
    let mut next = done;
    if let Some(v) = hail {
        lemma_push_contains(done, SegmentTagView::HailInches(v), tag);
        next = done.push(SegmentTagView::HailInches(v));
    }
    if let Some(v) = wind {
        lemma_push_contains(next, SegmentTagView::WindMph(v), tag);
    }
}

proof fn lemma_threat(
    done: Seq<SegmentTagView>,
    line: Seq<char>,
    word: Seq<char>,
    tag: SegmentTagView,
)
    requires
        plain_words(word),
    ensures
        tags::damage(done, text::upper(text::trim(line)), word).contains(tag) == (done.contains(tag)
            || (tag == SegmentTagView::DamageThreat(word) && says(line, word) && says(
            line,
            "DAMAGE THREAT"@,
        ))),
{
    lemma_tag_words();
    let t = text::trim(line);
    let u = text::upper(t);
    searches_find_what_is_said(t, word);
    searches_find_what_is_said(t, "DAMAGE THREAT"@);
    margins_say_nothing(line, word);
    margins_say_nothing(line, "DAMAGE THREAT"@);
    lemma_when(
        done,
        text::contains(u, word) && text::contains(u, "DAMAGE THREAT"@),
        SegmentTagView::DamageThreat(word),
        tag,
    );
}

proof fn lemma_threats(done: Seq<SegmentTagView>, line: Seq<char>, tag: SegmentTagView)
    ensures
        tags::threat_tags(done, text::upper(text::trim(line))).contains(tag) == (done.contains(tag)
            || (tag is DamageThreat && gives_tag(line, tag))),
{
    lemma_tag_words();
    let t = text::trim(line);
    let u = text::upper(t);
    searches_find_what_is_said(t, "SNOW SQUALL IMPACT...SIGNIFICANT"@);
    searches_find_what_is_said(t, "SNOW SQUALL IMPACT...GENERAL"@);
    margins_say_nothing(line, "SNOW SQUALL IMPACT...SIGNIFICANT"@);
    margins_say_nothing(line, "SNOW SQUALL IMPACT...GENERAL"@);
    let a = tags::damage(done, u, "CONSIDERABLE"@);
    let b = tags::damage(a, u, "SIGNIFICANT"@);
    let c = tags::damage(b, u, "DESTRUCTIVE"@);
    let d = tags::damage(c, u, "CATASTROPHIC"@);
    lemma_threat(done, line, "CONSIDERABLE"@, tag);
    lemma_threat(a, line, "SIGNIFICANT"@, tag);
    lemma_threat(b, line, "DESTRUCTIVE"@, tag);
    lemma_threat(c, line, "CATASTROPHIC"@, tag);
    let c1 = text::contains(u, "SNOW SQUALL IMPACT...SIGNIFICANT"@);
    let e = tags::when(d, c1, SegmentTagView::DamageThreat("SIGNIFICANT"@));
    lemma_when(d, c1, SegmentTagView::DamageThreat("SIGNIFICANT"@), tag);
    lemma_when(
        e,
        text::contains(u, "SNOW SQUALL IMPACT...GENERAL"@),
        SegmentTagView::DamageThreat("GENERAL"@),
        tag,
    );
}

/// A segment has a tag exactly where one of its lines gives it.
pub proof fn tags_are_what_lines_give(lines: Seq<Seq<char>>, tag: SegmentTagView)
    ensures
        tags::segment_tags(lines).contains(tag) <==> exists|i: int|
            0 <= i < lines.len() && gives_tag(#[trigger] lines[i], tag),
    decreases lines.len(),
{
    if lines.len() > 0 {
        let front = lines.drop_last();
        tags_are_what_lines_give(front, tag);
        let done = tags::segment_tags(front);
        let line = lines.last();
        let u = text::upper(text::trim(line));
        lemma_hazards(done, line, tag);
        let h = tags::hazard_tags(done, u);
        lemma_sizes(h, line, tag);
        let z = tags::size_tags(h, u);
        lemma_threats(z, line, tag);
        assert(tags::segment_tags(lines).contains(tag) == (done.contains(tag) || gives_tag(
            line,
            tag,
        )));
        if done.contains(tag) {
            let i = choose|i: int| 0 <= i < front.len() && gives_tag(#[trigger] front[i], tag);
            assert(lines[i] == front[i]);
        }
        if gives_tag(line, tag) {
            assert(gives_tag(lines[lines.len() - 1], tag));
        }
        if exists|i: int| 0 <= i < lines.len() && gives_tag(#[trigger] lines[i], tag) {
            let i = choose|i: int| 0 <= i < lines.len() && gives_tag(#[trigger] lines[i], tag);
            if i < front.len() {
                assert(front[i] == lines[i]);
            }
        }
    }
}

/// A segment is told to have a flash flood that was observed exactly where a
/// line says so, and a flash flood emergency exactly where a line begins by
/// saying so; neither stands for the other.
pub proof fn flash_floods_are_told_apart(lines: Seq<Seq<char>>)
    ensures
        tags::segment_tags(lines).contains(SegmentTagView::FlashFloodObserved) <==> exists|i: int|
            0 <= i < lines.len() && says(#[trigger] lines[i], "FLASH FLOOD...OBSERVED"@),
        tags::segment_tags(lines).contains(SegmentTagView::FlashFloodEmergency) <==> exists|i: int|
            0 <= i < lines.len() && begins_saying(#[trigger] lines[i], "FLASH FLOOD EMERGENCY"@),
{
    tags_are_what_lines_give(lines, SegmentTagView::FlashFloodObserved);
    tags_are_what_lines_give(lines, SegmentTagView::FlashFloodEmergency);
    let a = SegmentTagView::FlashFloodObserved;
    let b = SegmentTagView::FlashFloodEmergency;
    if exists|i: int| 0 <= i < lines.len() && says(#[trigger] lines[i], "FLASH FLOOD...OBSERVED"@) {
        let i = choose|i: int|
            0 <= i < lines.len() && says(#[trigger] lines[i], "FLASH FLOOD...OBSERVED"@);
        assert(gives_tag(lines[i], a));
    }
    if exists|i: int| 0 <= i < lines.len() && begins_saying(
        #[trigger] lines[i],
        "FLASH FLOOD EMERGENCY"@,
    ) {
        let i = choose|i: int|
            0 <= i < lines.len() && begins_saying(#[trigger] lines[i], "FLASH FLOOD EMERGENCY"@);
        assert(gives_tag(lines[i], b));
    }
}

proof fn lemma_when_append(
    done: Seq<SegmentTagView>,
    more: Seq<SegmentTagView>,
    condition: bool,
    tag: SegmentTagView,
)
    ensures
        tags::when(done + more, condition, tag) == done + tags::when(more, condition, tag),
{
    assert(tags::when(done + more, condition, tag) =~= done + tags::when(more, condition, tag));
}

proof fn lemma_hazards_append(
    done: Seq<SegmentTagView>,
    more: Seq<SegmentTagView>,
    u: Seq<char>,
)
    ensures
        tags::hazard_tags(done + more, u) == done + tags::hazard_tags(more, u),
{
    let c1 = text::contains(u, "TORNADO...OBSERVED"@);
    let c2 = text::contains(u, "TORNADO...RADAR INDICATED"@);
    let c3 = text::contains(u, "TORNADO...POSSIBLE"@);
    let c4 = text::contains(u, "FLASH FLOOD...OBSERVED"@);
    let c5 = text::starts_with(text::trim_start(u), "FLASH FLOOD EMERGENCY"@);
    let s1 = tags::when(more, c1, SegmentTagView::TornadoObserved);
    let s2 = tags::when(s1, c2, SegmentTagView::TornadoRadarIndicated);
    let s3 = tags::when(s2, c3, SegmentTagView::TornadoPossible);
    let s4 = tags::when(s3, c4, SegmentTagView::FlashFloodObserved);
    lemma_when_append(done, more, c1, SegmentTagView::TornadoObserved);
    lemma_when_append(done, s1, c2, SegmentTagView::TornadoRadarIndicated);
    lemma_when_append(done, s2, c3, SegmentTagView::TornadoPossible);
    lemma_when_append(done, s3, c4, SegmentTagView::FlashFloodObserved);
    lemma_when_append(done, s4, c5, SegmentTagView::FlashFloodEmergency);
}

proof fn lemma_sizes_append(done: Seq<SegmentTagView>, more: Seq<SegmentTagView>, u: Seq<char>)
    ensures
        tags::size_tags(done + more, u) == done + tags::size_tags(more, u),
{
    let hail = tags::or_else(
        tags::numeric_tag(u, "HAIL..."@, "IN"@),
        tags::numeric_tag(u, "MAX HAIL SIZE..."@, "IN"@),
    );
    let wind = tags::or_else(
        tags::integer_tag(u, "WIND..."@, "MPH"@),
        tags::integer_tag(u, "MAX WIND GUST..."@, "MPH"@),
    );
    let mut next = more;
    if let Some(v) = hail {
        lemma_when_append(done, more, true, SegmentTagView::HailInches(v));
        next = more.push(SegmentTagView::HailInches(v));
    }
    if let Some(v) = wind {
        lemma_when_append(done, next, true, SegmentTagView::WindMph(v));
    }
}

proof fn lemma_threats_append(done: Seq<SegmentTagView>, more: Seq<SegmentTagView>, u: Seq<char>)
    ensures
        tags::threat_tags(done + more, u) == done + tags::threat_tags(more, u),
{
    let t = text::contains(u, "DAMAGE THREAT"@);
    let c1 = text::contains(u, "CONSIDERABLE"@) && t;
    let c2 = text::contains(u, "SIGNIFICANT"@) && t;
    let c3 = text::contains(u, "DESTRUCTIVE"@) && t;
    let c4 = text::contains(u, "CATASTROPHIC"@) && t;
    let c5 = text::contains(u, "SNOW SQUALL IMPACT...SIGNIFICANT"@);
    let c6 = text::contains(u, "SNOW SQUALL IMPACT...GENERAL"@);
    let s1 = tags::when(more, c1, SegmentTagView::DamageThreat("CONSIDERABLE"@));
    let s2 = tags::when(s1, c2, SegmentTagView::DamageThreat("SIGNIFICANT"@));
    let s3 = tags::when(s2, c3, SegmentTagView::DamageThreat("DESTRUCTIVE"@));
    let s4 = tags::when(s3, c4, SegmentTagView::DamageThreat("CATASTROPHIC"@));
    let s5 = tags::when(s4, c5, SegmentTagView::DamageThreat("SIGNIFICANT"@));
    lemma_when_append(done, more, c1, SegmentTagView::DamageThreat("CONSIDERABLE"@));
    lemma_when_append(done, s1, c2, SegmentTagView::DamageThreat("SIGNIFICANT"@));
    lemma_when_append(done, s2, c3, SegmentTagView::DamageThreat("DESTRUCTIVE"@));
    lemma_when_append(done, s3, c4, SegmentTagView::DamageThreat("CATASTROPHIC"@));
    lemma_when_append(done, s4, c5, SegmentTagView::DamageThreat("SIGNIFICANT"@));
    lemma_when_append(done, s5, c6, SegmentTagView::DamageThreat("GENERAL"@));
}

proof fn lemma_line_tags_append(done: Seq<SegmentTagView>, line: Seq<char>)
    ensures
        tags::line_tags(done, line) == done + tags::line_tags(Seq::empty(), line),
{
    let u = text::upper(text::trim(line));
    let none = Seq::<SegmentTagView>::empty();
    assert(done + none =~= done);
    lemma_hazards_append(done, none, u);
    let h = tags::hazard_tags(none, u);
    lemma_sizes_append(done, h, u);
    lemma_threats_append(done, tags::size_tags(h, u), u);
}

proof fn lemma_three(x: Seq<SegmentTagView>, y: Seq<SegmentTagView>, z: Seq<SegmentTagView>)
    ensures
        (x + y) + z == x + (y + z),
{
    assert((x + y) + z =~= x + (y + z));
}

/// The tags of lines are those of the first lines followed by those of the
/// rest: they come in the order of the lines.
pub proof fn tags_come_in_the_order_of_lines(a: Seq<Seq<char>>, b: Seq<Seq<char>>)
    ensures
        tags::segment_tags(a + b) == tags::segment_tags(a) + tags::segment_tags(b),
    decreases b.len(),
{
    if b.len() == 0 {
        assert(a + b =~= a);
        assert(tags::segment_tags(a) + tags::segment_tags(b) =~= tags::segment_tags(a));
    } else {
        let front = b.drop_last();
        tags_come_in_the_order_of_lines(a, front);
        assert((a + b).drop_last() =~= a + front);
        assert((a + b).last() == b.last());
        let x = tags::segment_tags(a);
        let y = tags::segment_tags(front);
        let z = tags::line_tags(Seq::empty(), b.last());
        lemma_line_tags_append(x + y, b.last());
        lemma_line_tags_append(y, b.last());
        lemma_three(x, y, z);
    }
}

// ---------------------------------------------------------------------------
// Structured text tags
// ---------------------------------------------------------------------------

/// The dots that part a name from its value.
pub open spec fn three_dots() -> Seq<char> {
    seq!['.', '.', '.']
}

/// The bullet that may stand before a name.
pub open spec fn bullet() -> Seq<char> {
    seq!['*']
}

/// The name that lines of a kind begin with.
pub open spec fn kind_name(kind: WarningTextTagKind) -> Seq<char> {
    match kind {
        WarningTextTagKind::Tornado => "TORNADO"@,
        WarningTextTagKind::HailThreat => "HAIL THREAT"@,
        WarningTextTagKind::MaxHailSize => "MAX HAIL SIZE"@,
        WarningTextTagKind::WindThreat => "WIND THREAT"@,
        WarningTextTagKind::MaxWindGust => "MAX WIND GUST"@,
        WarningTextTagKind::FlashFloodDamageThreat => "FLASH FLOOD DAMAGE THREAT"@,
        WarningTextTagKind::TstmDamageThreat => "TSTM DAMAGE THREAT"@,
        WarningTextTagKind::TornadoDamageThreat => "TORNADO DAMAGE THREAT"@,
        WarningTextTagKind::Threat => "THREAT"@,
        WarningTextTagKind::Source => "SOURCE"@,
        WarningTextTagKind::Impact => "IMPACT"@,
    }
}

proof fn lemma_kind_names(kind: WarningTextTagKind)
    ensures
        tags::text_tag_kind(kind_name(kind)) == Some(kind),
{
    reveal_strlit("TORNADO");
    reveal_strlit("HAIL THREAT");
    reveal_strlit("MAX HAIL SIZE");
    reveal_strlit("WIND THREAT");
    reveal_strlit("MAX WIND GUST");
    reveal_strlit("FLASH FLOOD DAMAGE THREAT");
    reveal_strlit("TSTM DAMAGE THREAT");
    reveal_strlit("TORNADO DAMAGE THREAT");
    reveal_strlit("THREAT");
    reveal_strlit("SOURCE");
    reveal_strlit("IMPACT");
    let n = kind_name(kind);
    assert(n == "TORNADO"@ ==> n.len() == "TORNADO"@.len() && n[0] == "TORNADO"@[0] && n[1] == "TORNADO"@[1] && n[4] == "TORNADO"@[4]);
    assert(n == "HAIL THREAT"@ ==> n.len() == "HAIL THREAT"@.len() && n[0] == "HAIL THREAT"@[0] && n[1] == "HAIL THREAT"@[1] && n[4] == "HAIL THREAT"@[4]);
    assert(n == "MAX HAIL SIZE"@ ==> n.len() == "MAX HAIL SIZE"@.len() && n[0] == "MAX HAIL SIZE"@[0] && n[1] == "MAX HAIL SIZE"@[1] && n[4] == "MAX HAIL SIZE"@[4]);
    assert(n == "WIND THREAT"@ ==> n.len() == "WIND THREAT"@.len() && n[0] == "WIND THREAT"@[0] && n[1] == "WIND THREAT"@[1] && n[4] == "WIND THREAT"@[4]);
    assert(n == "MAX WIND GUST"@ ==> n.len() == "MAX WIND GUST"@.len() && n[0] == "MAX WIND GUST"@[0] && n[1] == "MAX WIND GUST"@[1] && n[4] == "MAX WIND GUST"@[4]);
    assert(n == "FLASH FLOOD DAMAGE THREAT"@ ==> n.len() == "FLASH FLOOD DAMAGE THREAT"@.len() && n[0] == "FLASH FLOOD DAMAGE THREAT"@[0] && n[1] == "FLASH FLOOD DAMAGE THREAT"@[1] && n[4] == "FLASH FLOOD DAMAGE THREAT"@[4]);
    assert(n == "TSTM DAMAGE THREAT"@ ==> n.len() == "TSTM DAMAGE THREAT"@.len() && n[0] == "TSTM DAMAGE THREAT"@[0] && n[1] == "TSTM DAMAGE THREAT"@[1] && n[4] == "TSTM DAMAGE THREAT"@[4]);
    assert(n == "TORNADO DAMAGE THREAT"@ ==> n.len() == "TORNADO DAMAGE THREAT"@.len() && n[0] == "TORNADO DAMAGE THREAT"@[0] && n[1] == "TORNADO DAMAGE THREAT"@[1] && n[4] == "TORNADO DAMAGE THREAT"@[4]);
    assert(n == "THREAT"@ ==> n.len() == "THREAT"@.len() && n[0] == "THREAT"@[0] && n[1] == "THREAT"@[1] && n[4] == "THREAT"@[4]);
    assert(n == "SOURCE"@ ==> n.len() == "SOURCE"@.len() && n[0] == "SOURCE"@[0] && n[1] == "SOURCE"@[1] && n[4] == "SOURCE"@[4]);
    assert(n == "IMPACT"@ ==> n.len() == "IMPACT"@.len() && n[0] == "IMPACT"@[0] && n[1] == "IMPACT"@[1] && n[4] == "IMPACT"@[4]);
}

/// A name stands for a kind exactly where it is the name of that kind.
pub proof fn kinds_go_by_their_names(name: Seq<char>, kind: WarningTextTagKind)
    ensures
        tags::text_tag_kind(name) == Some(kind) <==> name == kind_name(kind),
{
    lemma_kind_names(kind);
}

/// Whether a line in its place gives a text tag: its first three dots part a
/// known name, bullets before it aside, from the value.
pub open spec fn gives_text_tag(line: Seq<char>, n: int, tag: WarningTextTagView) -> bool {
    exists|k: int| #[trigger]
        first_at(text::trim(line), three_dots(), k) && {
            let t = text::trim(line);
            let name = text::trim(t.take(k));
            &&& tag.raw_line == t
            &&& tag.raw_value == text::trim(t.skip(k + 3))
            &&& exists|bare: Seq<char>| #[trigger]
                without_marks(name, bullet(), bare) && tag.raw_name == text::trim(bare)
            &&& tags::normalized(tag.raw_name) == kind_name(tag.kind)
            &&& tag.normalized_value == tags::normalized(tag.raw_value)
            &&& tag.line_number == n
        }
}

/// A line is read as a text tag exactly where it gives one, and then as that.
pub proof fn text_tags_are_what_lines_give(line: Seq<char>, n: int)
    ensures
        match tags::text_tag(line, n) {
            Some(tag) => gives_text_tag(line, n, tag),
            None => forall|tag: WarningTextTagView| !#[trigger] gives_text_tag(line, n, tag),
        },
{
    reveal_strlit("...");
    reveal_strlit("*");
    let dots = "..."@;
    assert(dots =~= three_dots());
    assert("*"@ =~= bullet());
    let t = text::trim(line);
    lemma_first_at(t, dots);
    if let Some(k) = text::find(t, dots) {
        let name = text::trim(t.take(k));
        lemma_without_marks(name, bullet());
        let bare = text::drop_leading(name, bullet());
        assert(without_marks(name, bullet(), bare));
        let raw_name = text::trim(bare);
        match tags::text_tag(line, n) {
            Some(tag) => {
                kinds_go_by_their_names(tags::normalized(raw_name), tag.kind);
                assert(first_at(t, three_dots(), k));
                assert(gives_text_tag(line, n, tag));
            },
            None => {
                assert forall|tag: WarningTextTagView|
                    !#[trigger] gives_text_tag(line, n, tag) by {
                    if gives_text_tag(line, n, tag) {
                        kinds_go_by_their_names(tags::normalized(raw_name), tag.kind);
                        assert(tag.raw_name == raw_name);
                    }
                }
            },
        }
    }
}

/// A text tag has a number only where it is a hail size, in inches, or a wind
/// gust, in miles per hour; it then has a unit, and else it has none.
pub proof fn only_sizes_are_measured(line: Seq<char>, n: int)
    ensures
        tags::text_tag(line, n) matches Some(tag) ==> {
            &&& tag.numeric_value is Some <==> tag.unit is Some
            &&& tag.numeric_value matches Some(v) ==> number::float_literal(v) && (tag.kind
                == WarningTextTagKind::MaxHailSize || tag.kind == WarningTextTagKind::MaxWindGust)
            &&& tag.unit matches Some(u) ==> (tag.kind == WarningTextTagKind::MaxHailSize && u
                == "in"@) || (tag.kind == WarningTextTagKind::MaxWindGust && u == "mph"@)
        },
{
}

/// Whether a value gives a measurement: white space left out and in capitals,
/// it is the literal before the first unit, comparison marks aside.
pub open spec fn gives_measurement(value: Seq<char>, unit: Seq<char>, v: Seq<char>) -> bool {
    let u = text::upper(value.filter(|c: char| !text::is_ascii_white(c)));
    &&& number::float_literal(v)
    &&& exists|k: int| #[trigger] first_at(u, unit, k) && without_marks(u.take(k), seq!['<', '>'], v)
}

/// The unit that a size is written with.
pub open spec fn unit_of(kind: WarningTextTagKind) -> Seq<char> {
    if kind == WarningTextTagKind::MaxHailSize {
        "IN"@
    } else {
        "MPH"@
    }
}

proof fn lemma_compacted(s: Seq<char>)
    ensures
        tags::compacted(s) == s.filter(|c: char| !text::is_ascii_white(c)),
    decreases s.len(),
{
    reveal(Seq::filter);
    if s.len() > 0 {
        lemma_compacted(s.drop_last());
    }
}

/// The number of a hail size or wind gust is the one that its value gives.
pub proof fn sizes_are_what_values_give(line: Seq<char>, n: int, tag: WarningTextTagView)
    requires
        tags::text_tag(line, n) == Some(tag),
        tag.kind == WarningTextTagKind::MaxHailSize || tag.kind == WarningTextTagKind::MaxWindGust,
    ensures
        match tag.numeric_value {
            Some(v) => gives_measurement(tag.raw_value, unit_of(tag.kind), v),
            None => forall|v: Seq<char>|
                !#[trigger] gives_measurement(tag.raw_value, unit_of(tag.kind), v),
        },
{
    reveal_strlit("<>");
    assert("<>"@ =~= seq!['<', '>']);
    let unit = unit_of(tag.kind);
    lemma_compacted(tag.raw_value);
    let u = text::upper(tags::compacted(tag.raw_value));
    lemma_first_at(u, unit);
    if let Some(k) = text::find(u, unit) {
        lemma_without_marks(u.take(k), seq!['<', '>']);
    }
}

/// The text tags of lines come in the order of the lines, each from the line
/// of its number; no line that gives one is left out.
pub proof fn every_text_tag_is_read(lines: Seq<Seq<char>>)
    ensures
        ({
            let found = tags::text_tags(lines);
            &&& forall|i: int|
                0 <= i < found.len() ==> 1 <= (#[trigger] found[i]).line_number <= lines.len()
                    && tags::text_tag(lines[found[i].line_number - 1], found[i].line_number)
                    == Some(found[i])
            &&& forall|i: int, j: int|
                #![trigger found[i], found[j]]
                0 <= i < j < found.len() ==> found[i].line_number < found[j].line_number
            &&& forall|k: int|
                0 <= k < lines.len() && tags::text_tag(#[trigger] lines[k], k + 1) is Some
                    ==> found.contains(tags::text_tag(lines[k], k + 1)->0)
        }),
    decreases lines.len(),
{
    if lines.len() > 0 {
        let front = lines.drop_last();
        every_text_tag_is_read(front);
        let before = tags::text_tags(front);
        let found = tags::text_tags(lines);
        assert forall|i: int| 0 <= i < found.len() implies 1 <= (#[trigger] found[i]).line_number
            <= lines.len() && tags::text_tag(
            lines[found[i].line_number - 1],
            found[i].line_number,
        ) == Some(found[i]) by {
            if i < before.len() {
                assert(found[i] == before[i]);
                assert(front[found[i].line_number - 1] == lines[found[i].line_number - 1]);
            }
        }
        assert forall|i: int, j: int|
            #![trigger found[i], found[j]]
            0 <= i < j < found.len() implies found[i].line_number < found[j].line_number by {
            assert(found[i] == before[i]);
            if j < before.len() {
                assert(found[j] == before[j]);
            }
        }
        assert forall|k: int|
            0 <= k < lines.len() && tags::text_tag(#[trigger] lines[k], k + 1) is Some implies
            found.contains(tags::text_tag(lines[k], k + 1)->0) by {
            let tag = tags::text_tag(lines[k], k + 1)->0;
            if k < front.len() {
                assert(front[k] == lines[k]);
                assert(before.contains(tag));
                let i = before.index_of(tag);
                assert(found[i] == tag);
            } else {
                assert(found[before.len() as int] == tag);
            }
        }
    }
}

// ---------------------------------------------------------------------------
// Actions
// ---------------------------------------------------------------------------

/// Every VTEC line gives one action, in its place, with the raw line, its
/// three letters and the action they stand for.
pub proof fn every_code_gives_its_action(codes: Seq<PvtecView>, i: int)
    requires
        0 <= i < codes.len(),
    ensures
        ({
            let found = tags::action_tags(codes);
            let kind = found[i].normalized_action;
            let action = codes[i].action;
            &&& found.len() == codes.len()
            &&& found[i].raw == codes[i].raw
            &&& found[i].vtec_index == i + 1
            &&& found[i].action == action.spec_str()
            &&& kind == WarningActionKind::New <==> action == VtecAction::New
            &&& kind == WarningActionKind::Continue <==> action == VtecAction::Continue
            &&& kind == WarningActionKind::ExtendTime <==> action == VtecAction::ExtendTime
            &&& kind == WarningActionKind::ExtendArea <==> action == VtecAction::ExtendArea
            &&& kind == WarningActionKind::ExtendAreaAndTime <==> action == VtecAction::ExtendAreaAndTime
            &&& kind == WarningActionKind::Upgrade <==> action == VtecAction::Upgrade
            &&& kind == WarningActionKind::Cancel <==> action == VtecAction::Cancel
            &&& kind == WarningActionKind::Expire <==> action == VtecAction::Expire
            &&& kind == WarningActionKind::Correction <==> action == VtecAction::Correction
            &&& kind == WarningActionKind::Routine <==> action == VtecAction::Routine
        }),
{
}

} // verus!


