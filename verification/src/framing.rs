//! The bare and the framed form of a bulletin say the same.

use vstd::prelude::*;

use crate::digest;
use crate::header;
use crate::text;
use crate::wmo;
use crate::wmo::{WmoFrameKind, WmoMessageView};

verus! {

/// Whether `s` has line feeds as its only line separators.
pub open spec fn plain(s: Seq<char>) -> bool {
    forall|i: int| 0 <= i < s.len() ==> #[trigger] s[i] != '\r'
}

/// One character as it is sent: a line feed goes out as `\r\r\n`.
pub open spec fn wire_char(c: char) -> Seq<char> {
    if c == '\n' {
        seq!['\r', '\r', '\n']
    } else {
        seq![c]
    }
}

/// A text as it is sent: every line feed goes out as `\r\r\n`.
pub open spec fn wire(s: Seq<char>) -> Seq<char>
    decreases s.len(),
{
    if s.len() == 0 {
        Seq::empty()
    } else {
        wire_char(s[0]) + wire(s.skip(1))
    }
}

/// A text in a frame: start of heading, the text on lines of its own, end of
/// text.
pub open spec fn frame(s: Seq<char>) -> Seq<char> {
    seq!['\x01'] + wire(seq!['\n'] + s + seq!['\n']) + seq!['\x03']
}

// ---------------------------------------------------------------------------
// The wire form
// ---------------------------------------------------------------------------

proof fn lemma_wire_concat(a: Seq<char>, b: Seq<char>)
    ensures
        wire(a + b) == wire(a) + wire(b),
    decreases a.len(),
{
    if a.len() == 0 {
        assert(a + b =~= b);
        assert(wire(a) + wire(b) =~= wire(b));
    } else {
        assert((a + b).skip(1) =~= a.skip(1) + b);
        lemma_wire_concat(a.skip(1), b);
        assert(wire(a) + wire(b) =~= wire_char(a[0]) + (wire(a.skip(1)) + wire(b)));
    }
}

proof fn lemma_wire_line(s: Seq<char>)
    requires
        forall|i: int| 0 <= i < s.len() ==> #[trigger] s[i] != '\n',
    ensures
        wire(s) == s,
    decreases s.len(),
{
    if s.len() > 0 {
        lemma_wire_line(s.skip(1));
        assert(wire(s) =~= s);
    } else {
        assert(wire(s) =~= s);
    }
}

proof fn lemma_wire_len(s: Seq<char>)
    ensures
        wire(s).len() >= s.len(),
        wire(s).len() == 0 <==> s.len() == 0,
    decreases s.len(),
{
    if s.len() > 0 {
        lemma_wire_len(s.skip(1));
    }
}

proof fn lemma_wire_last(s: Seq<char>)
    requires
        s.len() > 0,
    ensures
        wire(s) == wire(s.drop_last()) + wire_char(s.last()),
{
    lemma_wire_concat(s.drop_last(), seq![s.last()]);
    assert(s.drop_last() + seq![s.last()] =~= s);
    let one = seq![s.last()];
    assert(one.skip(1) =~= Seq::<char>::empty());
    assert(wire(one.skip(1)) =~= Seq::<char>::empty());
    assert(wire(one) =~= wire_char(s.last()));
}

// ---------------------------------------------------------------------------
// Newline normalization undoes the wire form
// ---------------------------------------------------------------------------

proof fn lemma_replace_wire(prefix: Seq<char>, t: Seq<char>, done: Seq<char>)
    requires
        plain(t),
    ensures
        digest::replace_from(
            prefix + wire(t),
            "\r\r\n"@,
            '\n',
            prefix.len() as int,
            done,
        ) == done + t,
    decreases t.len(),
{
    reveal_strlit("\r\r\n");
    let p = "\r\r\n"@;
    let s = prefix + wire(t);
    let i = prefix.len() as int;
    lemma_wire_len(t);
    if t.len() == 0 {
        assert(done + t =~= done);
    } else {
        let rest = t.skip(1);
        let c = t[0];
        assert(s[i] == wire(t)[0]);
        if c == '\n' {
            assert(s.subrange(i, i + 3) =~= p);
            lemma_replace_wire(prefix + wire_char(c), rest, done.push('\n'));
            assert(prefix + wire_char(c) + wire(rest) =~= s);
            assert(done.push('\n') + rest =~= done + t);
        } else {
            assert(s[i] == c);
            if text::occurs_at(s, p, i) {
                assert(s.subrange(i, i + 3)[0] == '\r');
                assert(false);
            }
            lemma_replace_wire(prefix + wire_char(c), rest, done.push(c));
            assert(prefix + wire_char(c) + wire(rest) =~= s);
            assert(done.push(c) + rest =~= done + t);
        }
    }
}

proof fn lemma_replace_absent(s: Seq<char>, p: Seq<char>, i: int, done: Seq<char>)
    requires
        plain(s),
        0 <= i <= s.len(),
        p.len() > 0,
        p[0] == '\r',
    ensures
        digest::replace_from(s, p, '\n', i, done) == done + s.skip(i),
    decreases s.len() - i,
{
    if i == s.len() {
        assert(done + s.skip(i) =~= done);
    } else {
        if text::occurs_at(s, p, i) {
            assert(s.subrange(i, i + p.len())[0] == s[i]);
            assert(false);
        }
        lemma_replace_absent(s, p, i + 1, done.push(s[i]));
        assert(done.push(s[i]) + s.skip(i + 1) =~= done + s.skip(i));
    }
}

/// Newline normalization leaves a text with plain line feeds alone.
pub proof fn lemma_normalize_plain(t: Seq<char>)
    requires
        plain(t),
    ensures
        digest::normalized_newlines(t) == t,
{
    reveal_strlit("\r\r\n");
    reveal_strlit("\r\n");
    reveal_strlit("\r");
    let none = Seq::<char>::empty();
    lemma_replace_absent(t, "\r\r\n"@, 0, none);
    lemma_replace_absent(t, "\r\n"@, 0, none);
    lemma_replace_absent(t, "\r"@, 0, none);
    assert(none + t.skip(0) =~= t);
}

/// Newline normalization turns the wire form of a text back into the text.
pub proof fn lemma_normalize_wire(t: Seq<char>)
    requires
        plain(t),
    ensures
        digest::normalized_newlines(wire(t)) == t,
{
    reveal_strlit("\r\r\n");
    reveal_strlit("\r\n");
    reveal_strlit("\r");
    let none = Seq::<char>::empty();
    lemma_replace_wire(none, t, none);
    assert(none + wire(t) =~= wire(t));
    assert(none + t =~= t);
    lemma_replace_absent(t, "\r\n"@, 0, none);
    lemma_replace_absent(t, "\r"@, 0, none);
    assert(none + t.skip(0) =~= t);
}

// ---------------------------------------------------------------------------
// Trimming and lines
// ---------------------------------------------------------------------------

proof fn lemma_trim_start_skips(a: Seq<char>, b: Seq<char>)
    requires
        forall|i: int| 0 <= i < a.len() ==> text::is_white(#[trigger] a[i]),
    ensures
        text::trim_start(a + b) == text::trim_start(b),
    decreases a.len(),
{
    if a.len() == 0 {
        assert(a + b =~= b);
    } else {
        assert((a + b)[0] == a[0]);
        assert((a + b).skip(1) =~= a.skip(1) + b);
        lemma_trim_start_skips(a.skip(1), b);
    }
}

proof fn lemma_trim_end_skips(a: Seq<char>, b: Seq<char>)
    requires
        forall|i: int| 0 <= i < b.len() ==> text::is_white(#[trigger] b[i]),
    ensures
        text::trim_end(a + b) == text::trim_end(a),
    decreases b.len(),
{
    if b.len() == 0 {
        assert(a + b =~= a);
    } else {
        assert((a + b).last() == b.last());
        assert((a + b).drop_last() =~= a + b.drop_last());
        lemma_trim_end_skips(a, b.drop_last());
    }
}

proof fn lemma_wire_char_white(c: char)
    ensures
        text::is_white(c) ==> forall|i: int|
            0 <= i < wire_char(c).len() ==> text::is_white(#[trigger] wire_char(c)[i]),
{
}

proof fn lemma_trim_start_wire(s: Seq<char>)
    ensures
        text::trim_start(wire(s)) == wire(text::trim_start(s)),
    decreases s.len(),
{
    if s.len() > 0 {
        if text::is_white(s[0]) {
            lemma_wire_char_white(s[0]);
            lemma_trim_start_skips(wire_char(s[0]), wire(s.skip(1)));
            lemma_trim_start_wire(s.skip(1));
        } else {
            assert(wire(s)[0] == s[0]);
        }
    }
}

proof fn lemma_trim_end_wire(s: Seq<char>)
    ensures
        text::trim_end(wire(s)) == wire(text::trim_end(s)),
    decreases s.len(),
{
    if s.len() > 0 {
        lemma_wire_last(s);
        if text::is_white(s.last()) {
            lemma_wire_char_white(s.last());
            lemma_trim_end_skips(wire(s.drop_last()), wire_char(s.last()));
            lemma_trim_end_wire(s.drop_last());
        } else {
            assert(wire(s).last() == s.last());
        }
    }
}

proof fn lemma_trim_wire(s: Seq<char>)
    ensures
        text::trim(wire(s)) == wire(text::trim(s)),
{
    lemma_trim_start_wire(s);
    lemma_trim_end_wire(text::trim_start(s));
}

proof fn lemma_trim_start_plain(s: Seq<char>)
    requires
        plain(s),
    ensures
        plain(text::trim_start(s)),
    decreases s.len(),
{
    if s.len() > 0 && text::is_white(s[0]) {
        assert(plain(s.skip(1)));
        lemma_trim_start_plain(s.skip(1));
    }
}

proof fn lemma_trim_end_plain(s: Seq<char>)
    requires
        plain(s),
    ensures
        plain(text::trim_end(s)),
    decreases s.len(),
{
    if s.len() > 0 && text::is_white(s.last()) {
        assert(plain(s.drop_last()));
        lemma_trim_end_plain(s.drop_last());
    }
}

proof fn lemma_after_line_plain(s: Seq<char>)
    requires
        plain(s),
    ensures
        plain(text::after_line(s)),
{
    text::lemma_index_from(s, '\n', 0);
}

proof fn lemma_index_shift(a: Seq<char>, b: Seq<char>, i: int)
    requires
        0 <= i <= a.len(),
        forall|k: int| 0 <= k < a.len() ==> #[trigger] a[k] != '\n',
        b.len() > 0,
        b[0] == '\n',
    ensures
        text::index_from(a + b, '\n', i) == a.len(),
    decreases a.len() - i,
{
    if i < a.len() {
        assert((a + b)[i] == a[i]);
        lemma_index_shift(a, b, i + 1);
    } else {
        assert((a + b)[i] == b[0]);
    }
}

/// The first line and the rest of a wire form are those of the text.
proof fn lemma_line_wire(s: Seq<char>)
    requires
        plain(s),
    ensures
        text::first_line(wire(s)) == text::first_line(s),
        text::after_line(wire(s)) == wire(text::after_line(s)),
{
    let k = text::index_from(s, '\n', 0);
    text::lemma_index_from(s, '\n', 0);
    let head = s.take(k);
    assert(forall|i: int| 0 <= i < head.len() ==> #[trigger] head[i] != '\n');
    lemma_wire_line(head);
    assert(text::strip_cr(head) == head);
    if k < s.len() {
        let tail = s.skip(k + 1);
        assert(s =~= head + seq!['\n'] + tail);
        lemma_wire_concat(head + seq!['\n'], tail);
        lemma_wire_concat(head, seq!['\n']);
        let one = seq!['\n'];
        assert(one.skip(1) =~= Seq::<char>::empty());
        assert(wire(one.skip(1)) =~= Seq::<char>::empty());
        assert(wire(one) =~= wire_char('\n'));
        let sent = head + seq!['\r', '\r'];
        let after = seq!['\n'] + wire(tail);
        assert(wire(s) =~= sent + after);
        assert forall|i: int| 0 <= i < sent.len() implies #[trigger] sent[i] != '\n' by {
            if i < head.len() {
                assert(sent[i] == head[i]);
            }
        }
        lemma_index_shift(sent, after, 0);
        assert(wire(s).take(k + 2) =~= sent);
        assert(sent.drop_last() =~= head + seq!['\r']);
        assert(sent.drop_last().drop_last() =~= head);
        assert(text::strip_cr(sent) == head) by {
            reveal_with_fuel(text::strip_cr, 4);
        }
        assert(wire(s).skip(k + 3) =~= wire(tail));
    } else {
        assert(head =~= s);
        let rest = text::after_line(s);
        assert(wire(rest) =~= Seq::<char>::empty());
    }
}

// ---------------------------------------------------------------------------
// Bare and framed bulletins
// ---------------------------------------------------------------------------

proof fn lemma_trim_kept(s: Seq<char>)
    requires
        s.len() > 0,
        !text::is_white(s[0]),
        !text::is_white(s.last()),
    ensures
        text::trim(s) == s,
{
}

/// Taking a text out of its frame gives the wire form of the bare bulletin.
proof fn lemma_unframe_frame(t: Seq<char>)
    ensures
        wmo::unframe(frame(t)) == Ok::<(WmoFrameKind, Seq<char>), crate::error::ErrorKind>(
            (WmoFrameKind::Framed, wire(text::trim(t))),
        ),
{
    let inner = seq!['\n'] + t + seq!['\n'];
    let f = frame(t);
    lemma_trim_kept(f);
    assert(f.subrange(1, f.len() - 1) =~= wire(inner));
    lemma_trim_wire(inner);
    lemma_trim_start_skips(seq!['\n'], t + seq!['\n']);
    assert(inner =~= seq!['\n'] + (t + seq!['\n']));
    lemma_trim_of_trailing(t);
}

/// A line feed at the end does not matter to trimming.
proof fn lemma_trim_of_trailing(t: Seq<char>)
    ensures
        text::trim(t + seq!['\n']) == text::trim(t),
    decreases t.len(),
{
    let more = t + seq!['\n'];
    if t.len() == 0 {
        assert(more =~= seq!['\n']);
        assert(more.skip(1) =~= Seq::<char>::empty());
        assert(t =~= Seq::<char>::empty());
    } else if text::is_white(t[0]) {
        assert(more[0] == t[0]);
        assert(more.skip(1) =~= t.skip(1) + seq!['\n']);
        lemma_trim_of_trailing(t.skip(1));
    } else {
        assert(more[0] == t[0]);
        assert(text::trim_start(more) == more);
        assert(text::trim_start(t) == t);
        lemma_trim_end_skips(t, seq!['\n']);
    }
}

/// A bare bulletin without carriage returns has none in its parts.
pub proof fn lemma_plain_parts(t: Seq<char>, bare: WmoMessageView)
    requires
        plain(t),
        wmo::parse_text(t) == Ok::<WmoMessageView, crate::error::ErrorKind>(bare),
        bare.frame_kind == WmoFrameKind::Bare,
    ensures
        plain(bare.bulletin),
        plain(bare.body),
{
    let b = text::trim(t);
    lemma_trim_start_plain(t);
    lemma_trim_end_plain(text::trim_start(t));
    assert(plain(b));
    assert(bare.bulletin == b);
    let rest = wmo::after_sequence(b);
    lemma_after_line_plain(b);
    lemma_trim_start_plain(text::after_line(b));
    assert(plain(rest));
    let tail = text::after_line(rest);
    lemma_after_line_plain(rest);
    lemma_after_line_plain(tail);
}

/// A bulletin reads the same bare and framed: the framed form has the same
/// sequence number, heading and AWIPS identifier, the wire form of the body,
/// and the same fingerprint.
pub proof fn framed_bulletin_reads_the_same(t: Seq<char>, bare: WmoMessageView)
    requires
        plain(t),
        wmo::parse_text(t) == Ok::<WmoMessageView, crate::error::ErrorKind>(bare),
        bare.frame_kind == WmoFrameKind::Bare,
    ensures
        wmo::parse_text(frame(t)) matches Ok(framed) && {
            &&& framed.frame_kind == WmoFrameKind::Framed
            &&& framed.heading == bare.heading
            &&& framed.awips_id == bare.awips_id
            &&& framed.sequence_number == bare.sequence_number
            &&& framed.body == wire(bare.body)
            &&& framed.bulletin == wire(bare.bulletin)
            &&& digest::canonical_text(framed) == digest::canonical_text(bare)
            &&& digest::fingerprint(framed) == digest::fingerprint(bare)
        },
{
    lemma_unframe_frame(t);
    let b = text::trim(t);
    lemma_trim_start_plain(t);
    lemma_trim_end_plain(text::trim_start(t));
    assert(plain(b));
    assert(bare.bulletin == b);
    lemma_line_wire(b);
    let rest = wmo::after_sequence(b);
    lemma_after_line_plain(b);
    lemma_trim_start_plain(text::after_line(b));
    lemma_trim_start_wire(text::after_line(b));
    assert(plain(rest));
    assert(wmo::after_sequence(wire(b)) == wire(rest));
    lemma_line_wire(rest);
    let tail = text::after_line(rest);
    lemma_after_line_plain(rest);
    lemma_line_wire(tail);
    lemma_after_line_plain(tail);
    assert(plain(bare.body));
    lemma_normalize_wire(bare.body);
    lemma_normalize_plain(bare.body);
}

// ---------------------------------------------------------------------------
// Reading a bulletin's own text again
// ---------------------------------------------------------------------------

proof fn lemma_trim_end_head(s: Seq<char>)
    requires
        s.len() > 0,
        !text::is_white(s[0]),
    ensures
        text::trim_end(s).len() > 0,
        text::trim_end(s)[0] == s[0],
        !text::is_white(text::trim_end(s).last()),
    decreases s.len(),
{
    if text::is_white(s.last()) {
        assert(s.drop_last()[0] == s[0]);
        lemma_trim_end_head(s.drop_last());
    }
}

/// Trimming twice is trimming once.
pub proof fn lemma_trim_idempotent(s: Seq<char>)
    ensures
        text::trim(text::trim(s)) == text::trim(s),
{
    let a = text::trim_start(s);
    text::lemma_trim_start(s);
    if a.len() > 0 {
        lemma_trim_end_head(a);
        lemma_trim_kept(text::trim(s));
    }
}

proof fn lemma_first_line_head(b: Seq<char>)
    requires
        b.len() > 0,
        !text::is_white(b[0]),
    ensures
        text::trim(text::first_line(b)).len() > 0,
        text::trim(text::first_line(b))[0] == b[0],
{
    text::lemma_index_from(b, '\n', 0);
    let head = b.take(text::index_from(b, '\n', 0));
    assert(head[0] == b[0]);
    lemma_strip_cr_head(head);
    let line = text::first_line(b);
    assert(text::trim_start(line) == line);
    lemma_trim_end_head(line);
}

proof fn lemma_strip_cr_head(s: Seq<char>)
    requires
        s.len() > 0,
        s[0] != '\r',
    ensures
        text::strip_cr(s).len() > 0,
        text::strip_cr(s)[0] == s[0],
    decreases s.len(),
{
    if s.last() == '\r' {
        assert(s.drop_last()[0] == s[0]);
        lemma_strip_cr_head(s.drop_last());
    }
}

proof fn lemma_non_empty_first(pieces: Seq<Seq<char>>)
    requires
        pieces.len() > 0,
        pieces[0].len() > 0,
    ensures
        header::non_empty(pieces).len() > 0,
        header::non_empty(pieces)[0] == pieces[0],
    decreases pieces.len(),
{
    if pieces.len() > 1 {
        assert(pieces.drop_last()[0] == pieces[0]);
        lemma_non_empty_first(pieces.drop_last());
    } else {
        assert(pieces.drop_last() =~= Seq::<Seq<char>>::empty());
        assert(header::non_empty(pieces.drop_last()) =~= Seq::<Seq<char>>::empty());
    }
}

proof fn lemma_heading_starts_with_letter(line: Seq<char>)
    requires
        header::parse_heading(line) is Some,
        line.len() > 0,
        line[0] != ' ',
    ensures
        text::is_upper(line[0]),
{
    let pieces = text::split(line, ' ');
    text::lemma_index_from(line, ' ', 0);
    assert(pieces[0].len() > 0 && pieces[0][0] == line[0]);
    lemma_non_empty_first(pieces);
    let parts = header::spaced(line);
    assert(parts[0] == pieces[0]);
    assert(parts[0].take(4)[0] == line[0]);
}

/// The text of a parsed bulletin reads again as the same bulletin, bare.
pub proof fn bulletin_text_reads_again(t: Seq<char>, m: WmoMessageView)
    requires
        wmo::parse_text(t) == Ok::<WmoMessageView, crate::error::ErrorKind>(m),
    ensures
        wmo::parse_text(m.bulletin) == Ok::<WmoMessageView, crate::error::ErrorKind>(
            WmoMessageView { frame_kind: WmoFrameKind::Bare, ..m },
        ),
{
    let b = m.bulletin;
    let s = text::trim(t);
    lemma_trim_idempotent(t);
    if s.len() > 0 && s[0] == '\x01' {
        lemma_trim_idempotent(s.subrange(1, s.len() - 1));
    }
    assert(text::trim(b) == b);
    if b.len() > 0 && b[0] == '\x01' {
        lemma_first_line_head(b);
        let line = text::trim(text::first_line(b));
        if wmo::sequence_line(line) is Some {
            assert(text::is_digit(line[0]));
        } else {
            lemma_heading_starts_with_letter(line);
        }
        assert(false);
    }
}

} // verus!
