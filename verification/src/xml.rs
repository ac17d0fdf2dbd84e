//! The subset of XML that NWWS-OI stanzas are written in.

use vstd::prelude::*;
use vstd::slice::slice_subrange;

use crate::number;
use crate::text;

verus! {

// ---------------------------------------------------------------------------
// Character references
// ---------------------------------------------------------------------------

/// `char::from_u32` of the standard library: the character with a code, which
/// is none above `0x10FFFF` and none for a surrogate.
pub assume_specification[ char::from_u32 ](i: u32) -> (r: Option<char>)
    ensures
        r == (if i <= 0xD7FF || 0xE000 <= i <= 0x10FFFF {
            Some(i as char)
        } else {
            None
        }),
;

/// Whether a document may hold the character with a code.
pub open spec fn is_char_code(code: int) -> bool {
    code == 9 || code == 10 || code == 13 || 0x20 <= code <= 0xD7FF || 0xE000 <= code <= 0xFFFD
        || 0x10000 <= code <= 0x10FFFF
}

/// The code that a numbered reference gives, in decimal or hexadecimal.
pub open spec fn reference_code(name: Seq<char>) -> Option<int> {
    if name.len() >= 3 && name[0] == '#' && name[1] == 'x' {
        number::hex_digits_value(name.skip(2))
    } else if name.len() >= 2 && name[0] == '#' && number::all_digits(name.skip(1)) {
        Some(number::digits_value(name.skip(1)))
    } else {
        None
    }
}

/// The character that a numbered reference stands for.
pub open spec fn numbered(name: Seq<char>) -> Option<char> {
    match reference_code(name) {
        Some(code) => if is_char_code(code) {
            Some(code as char)
        } else {
            None
        },
        None => None,
    }
}

fn read_numbered(name: &[char]) -> (r: Option<char>)
    ensures
        r == numbered(name@),
{
    let n: usize = name.len();
    let code: u32 = if n >= 3 && name[0] == '#' && name[1] == 'x' {
        let digits = slice_subrange(name, 2, n);
        assert(digits@ =~= name@.skip(2));
        match number::hex_digits_upto(digits, 0x10FFFF) {
            Some(v) => v,
            None => {
                return None;
            },
        }
    } else if n >= 2 && name[0] == '#' {
        let digits = slice_subrange(name, 1, n);
        assert(digits@ =~= name@.skip(1));
        if !number::only_digits(digits) {
            return None;
        }
        match number::digits_upto(digits, 0x10FFFF) {
            Some(v) => v as u32,
            None => {
                return None;
            },
        }
    } else {
        return None;
    };
    if code == 9 || code == 10 || code == 13 || (0x20 <= code && code <= 0xFFFD) || code
        >= 0x10000 {
        char::from_u32(code)
    } else {
        None
    }
}

/// The character that an entity name stands for.
pub open spec fn entity(name: Seq<char>) -> Option<char> {
    if name == "amp"@ {
        Some('&')
    } else if name == "lt"@ {
        Some('<')
    } else if name == "gt"@ {
        Some('>')
    } else if name == "quot"@ {
        Some('"')
    } else if name == "apos"@ {
        Some('\'')
    } else {
        numbered(name)
    }
}

fn read_entity(name: &[char]) -> (r: Option<char>)
    ensures
        r == entity(name@),
{
    if text::is_str(name, "amp") {
        Some('&')
    } else if text::is_str(name, "lt") {
        Some('<')
    } else if text::is_str(name, "gt") {
        Some('>')
    } else if text::is_str(name, "quot") {
        Some('"')
    } else if text::is_str(name, "apos") {
        Some('\'')
    } else {
        read_numbered(name)
    }
}

/// `done`, followed by `s` from `i` on with its references resolved.
pub open spec fn unescape_from(s: Seq<char>, i: int, done: Seq<char>) -> Option<Seq<char>>
    decreases s.len() - i,
    when 0 <= i
    via unescape_decreases
{
    if i >= s.len() {
        Some(done)
    } else if s[i] == '&' {
        let k = text::index_from(s, ';', i);
        if k >= s.len() {
            None
        } else {
            match entity(s.subrange(i + 1, k)) {
                Some(c) => unescape_from(s, k + 1, done.push(c)),
                None => None,
            }
        }
    } else {
        unescape_from(s, i + 1, done.push(s[i]))
    }
}

#[via_fn]
proof fn unescape_decreases(s: Seq<char>, i: int, done: Seq<char>) {
    if i < s.len() {
        text::lemma_index_from(s, ';', i);
    }
}

/// `s` with its references resolved; `None` where one is unknown.
pub open spec fn unescape(s: Seq<char>) -> Option<Seq<char>> {
    unescape_from(s, 0, Seq::empty())
}

pub fn unescape_text(s: &[char]) -> (r: Option<Vec<char>>)
    ensures
        match r {
            Some(v) => unescape(s@) == Some(v@),
            None => unescape(s@) is None,
        },
{
    let n: usize = s.len();
    let mut out: Vec<char> = Vec::new();
    let mut i: usize = 0;
    while i < n
        invariant
            n == s@.len(),
            i <= n,
            unescape(s@) == unescape_from(s@, i as int, out@),
        decreases n - i,
    {
        if s[i] == '&' {
            let k: usize = text::index_of_char(s, ';', i);
            if k >= n {
                return None;
            }
            assert(s@[k as int] == ';');
            match read_entity(slice_subrange(s, i + 1, k)) {
                Some(c) => {
                    out.push(c);
                    i = k + 1;
                },
                None => {
                    return None;
                },
            }
        } else {
            out.push(s[i]);
            i += 1;
        }
    }
    Some(out)
}

/// One character of element content, or of an attribute value where `attr`
/// holds.
pub open spec fn escape_char(c: char, attr: bool) -> Seq<char> {
    if c == '&' {
        "&amp;"@
    } else if c == '<' {
        "&lt;"@
    } else if c == '>' {
        "&gt;"@
    } else if attr && c == '"' {
        "&quot;"@
    } else if attr && c == '\'' {
        "&apos;"@
    } else {
        seq![c]
    }
}

/// A text as element content, or as attribute value where `attr` holds.
pub open spec fn escape(s: Seq<char>, attr: bool) -> Seq<char>
    decreases s.len(),
{
    if s.len() == 0 {
        Seq::empty()
    } else {
        escape_char(s[0], attr) + escape(s.skip(1), attr)
    }
}

fn escape_onto(out: &mut Vec<char>, s: &[char], attr: bool)
    ensures
        final(out)@ == old(out)@ + escape(s@, attr),
{
    let ghost start = out@;
    let mut i: usize = 0;
    assert(s@.skip(0) =~= s@);
    while i < s.len()
        invariant
            i <= s@.len(),
            out@ + escape(s@.skip(i as int), attr) == start + escape(s@, attr),
        decreases s.len() - i,
    {
        let ghost before = out@;
        let ghost tail = s@.skip(i as int);
        assert(tail.skip(1) =~= s@.skip(i + 1));
        let c = s[i];
        if c == '&' {
            text::push_str(out, "&amp;");
        } else if c == '<' {
            text::push_str(out, "&lt;");
        } else if c == '>' {
            text::push_str(out, "&gt;");
        } else if attr && c == '"' {
            text::push_str(out, "&quot;");
        } else if attr && c == '\'' {
            text::push_str(out, "&apos;");
        } else {
            out.push(c);
            assert(out@ =~= before + seq![c]);
        }
        assert(out@ == before + escape_char(c, attr));
        assert(out@ + escape(s@.skip(i + 1), attr) =~= before + escape(tail, attr));
        i += 1;
    }
    assert(escape(s@.skip(i as int), attr) =~= Seq::<char>::empty());
    assert(out@ =~= start + escape(s@, attr));
}

/// Writes a text as attribute value.
pub fn escape_xml_attr(value: &str) -> (r: String)
    ensures
        r@ == escape(value@, true),
{
    let mut out: Vec<char> = Vec::new();
    let chars = text::to_chars(value);
    escape_onto(&mut out, chars.as_slice(), true);
    assert(out@ =~= escape(value@, true));
    text::to_text(out.as_slice())
}

/// Writes a text as element content.
pub fn escape_xml_text(value: &str) -> (r: String)
    ensures
        r@ == escape(value@, false),
{
    let mut out: Vec<char> = Vec::new();
    let chars = text::to_chars(value);
    escape_onto(&mut out, chars.as_slice(), false);
    assert(out@ =~= escape(value@, false));
    text::to_text(out.as_slice())
}

// ---------------------------------------------------------------------------
// Tokens
// ---------------------------------------------------------------------------

/// A tag or a run of text.
#[derive(Debug)]
pub enum XmlToken {
    Start { name: Vec<char>, attrs: Vec<(Vec<char>, Vec<char>)>, closed: bool },
    End { name: Vec<char> },
    Text { value: Vec<char> },
}

/// What a token holds.
pub enum XmlTokenView {
    Start { name: Seq<char>, attrs: Seq<(Seq<char>, Seq<char>)>, closed: bool },
    End { name: Seq<char> },
    Text { value: Seq<char> },
}

pub open spec fn attr_views(attrs: Seq<(Vec<char>, Vec<char>)>) -> Seq<(Seq<char>, Seq<char>)> {
    Seq::new(attrs.len(), |i: int| (attrs[i].0@, attrs[i].1@))
}

impl DeepView for XmlToken {
    type V = XmlTokenView;

    open spec fn deep_view(&self) -> XmlTokenView {
        match self {
            XmlToken::Start { name, attrs, closed } => XmlTokenView::Start {
                name: name@,
                attrs: attr_views(attrs@),
                closed: *closed,
            },
            XmlToken::End { name } => XmlTokenView::End { name: name@ },
            XmlToken::Text { value } => XmlTokenView::Text { value: value@ },
        }
    }
}

pub open spec fn skip_white(s: Seq<char>, i: int) -> int
    decreases s.len() - i,
{
    if 0 <= i < s.len() && text::is_white(s[i]) {
        skip_white(s, i + 1)
    } else {
        i
    }
}

proof fn lemma_skip_white(s: Seq<char>, i: int)
    requires
        0 <= i <= s.len(),
    ensures
        i <= skip_white(s, i) <= s.len(),
    decreases s.len() - i,
{
    if i < s.len() && text::is_white(s[i]) {
        lemma_skip_white(s, i + 1);
    }
}

/// Whether `c` may occur in a tag or attribute name.
pub open spec fn is_name_char(c: char) -> bool {
    text::is_alnum(c) || c == ':' || c == '-' || c == '_' || c == '.'
}

/// The end of the name that begins at `i`.
pub open spec fn name_end(s: Seq<char>, i: int) -> int
    decreases s.len() - i,
{
    if 0 <= i < s.len() && is_name_char(s[i]) {
        name_end(s, i + 1)
    } else {
        i
    }
}

proof fn lemma_name_end(s: Seq<char>, i: int)
    requires
        0 <= i <= s.len(),
    ensures
        i <= name_end(s, i) <= s.len(),
    decreases s.len() - i,
{
    if i < s.len() && is_name_char(s[i]) {
        lemma_name_end(s, i + 1);
    }
}

/// The attributes of a start tag from `i` on, appended to `done`, whether the
/// tag closes itself, and where it ends.
pub open spec fn attrs_from(s: Seq<char>, i: int, done: Seq<(Seq<char>, Seq<char>)>) -> Option<
    (Seq<(Seq<char>, Seq<char>)>, bool, int),
>
    decreases s.len() - i,
    when 0 <= i <= s.len()
    via attrs_decreases
{
    let p = skip_white(s, i);
    if p >= s.len() {
        None
    } else if s[p] == '>' {
        Some((done, false, p + 1))
    } else if s[p] == '/' {
        if p + 1 < s.len() && s[p + 1] == '>' {
            Some((done, true, p + 2))
        } else {
            None
        }
    } else {
        let e = name_end(s, p);
        let q = e + 1;
        if e == p || q >= s.len() || s[e] != '=' || (s[q] != '\'' && s[q] != '"') {
            None
        } else {
            let v = text::index_from(s, s[q], q + 1);
            if v >= s.len() {
                None
            } else {
                match unescape(s.subrange(q + 1, v)) {
                    Some(value) => attrs_from(s, v + 1, done.push((s.subrange(p, e), value))),
                    None => None,
                }
            }
        }
    }
}

#[via_fn]
proof fn attrs_decreases(s: Seq<char>, i: int, done: Seq<(Seq<char>, Seq<char>)>) {
    lemma_skip_white(s, i);
    let p = skip_white(s, i);
    lemma_name_end(s, p);
    let q = name_end(s, p) + 1;
    if q < s.len() {
        text::lemma_index_from(s, s[q], q + 1);
    }
}

/// The token at `i`, if it is not a comment or declaration, and where the
/// next one begins.
pub open spec fn token_at(s: Seq<char>, i: int) -> Option<(Option<XmlTokenView>, int)> {
    if s[i] != '<' {
        let k = text::index_from(s, '<', i);
        match unescape(s.subrange(i, k)) {
            Some(value) => Some((Some(XmlTokenView::Text { value }), k)),
            None => None,
        }
    } else if text::occurs_at(s, "<![CDATA["@, i) {
        match text::find_from(s, "]]>"@, i + 9) {
            Some(k) => Some((Some(XmlTokenView::Text { value: s.subrange(i + 9, k) }), k + 3)),
            None => None,
        }
    } else if text::occurs_at(s, "<!--"@, i) {
        match text::find_from(s, "-->"@, i + 4) {
            Some(k) => Some((None, k + 3)),
            None => None,
        }
    } else if text::occurs_at(s, "<?"@, i) {
        match text::find_from(s, "?>"@, i + 2) {
            Some(k) => Some((None, k + 2)),
            None => None,
        }
    } else if text::occurs_at(s, "</"@, i) {
        let e = name_end(s, i + 2);
        let k = skip_white(s, e);
        if k < s.len() && s[k] == '>' {
            Some((Some(XmlTokenView::End { name: s.subrange(i + 2, e) }), k + 1))
        } else {
            None
        }
    } else {
        let e = name_end(s, i + 1);
        if e == i + 1 {
            None
        } else {
            match attrs_from(s, e, Seq::empty()) {
                Some((attrs, closed, next)) => Some(
                    (
                        Some(
                            XmlTokenView::Start { name: s.subrange(i + 1, e), attrs, closed },
                        ),
                        next,
                    ),
                ),
                None => None,
            }
        }
    }
}

proof fn lemma_attrs_advance(s: Seq<char>, i: int, done: Seq<(Seq<char>, Seq<char>)>)
    requires
        0 <= i <= s.len(),
    ensures
        attrs_from(s, i, done) matches Some((attrs, closed, next)) ==> i < next <= s.len(),
    decreases s.len() - i,
{
    lemma_skip_white(s, i);
    let p = skip_white(s, i);
    if p < s.len() && s[p] != '>' && s[p] != '/' {
        lemma_name_end(s, p);
        let e = name_end(s, p);
        let q = e + 1;
        if q < s.len() {
            text::lemma_index_from(s, s[q], q + 1);
            let v = text::index_from(s, s[q], q + 1);
            if v < s.len() {
                if let Some(value) = unescape(s.subrange(q + 1, v)) {
                    lemma_attrs_advance(s, v + 1, done.push((s.subrange(p, e), value)));
                }
            }
        }
    }
}

pub proof fn lemma_token_advances(s: Seq<char>, i: int)
    requires
        0 <= i < s.len(),
    ensures
        token_at(s, i) matches Some((token, next)) ==> i < next <= s.len(),
{
    reveal_strlit("<![CDATA[");
    reveal_strlit("]]>");
    reveal_strlit("<!--");
    reveal_strlit("-->");
    reveal_strlit("<?");
    reveal_strlit("?>");
    reveal_strlit("</");
    text::lemma_index_from(s, '<', i);
    text::lemma_find_from(s, "]]>"@, i + 9);
    text::lemma_find_from(s, "-->"@, i + 4);
    text::lemma_find_from(s, "?>"@, i + 2);
    if i + 2 <= s.len() {
        lemma_name_end(s, i + 2);
        lemma_skip_white(s, name_end(s, i + 2));
    }
    lemma_name_end(s, i + 1);
    lemma_attrs_advance(s, name_end(s, i + 1), Seq::empty());
}

fn white_end(s: &[char], i: usize) -> (r: usize)
    requires
        i <= s@.len(),
    ensures
        r == skip_white(s@, i as int),
        i <= r <= s@.len(),
{
    let n: usize = s.len();
    let mut k: usize = i;
    while k < n && text::white(s[k])
        invariant
            n == s@.len(),
            i <= k <= n,
            skip_white(s@, i as int) == skip_white(s@, k as int),
        decreases n - k,
    {
        k += 1;
    }
    k
}

fn end_of_name(s: &[char], i: usize) -> (r: usize)
    requires
        i <= s@.len(),
    ensures
        r == name_end(s@, i as int),
        i <= r <= s@.len(),
{
    let n: usize = s.len();
    let mut k: usize = i;
    while k < n && (text::alnum(s[k]) || s[k] == ':' || s[k] == '-' || s[k] == '_' || s[k] == '.')
        invariant
            n == s@.len(),
            i <= k <= n,
            name_end(s@, i as int) == name_end(s@, k as int),
        decreases n - k,
    {
        k += 1;
    }
    k
}

fn occurs(s: &[char], p: &str, i: usize) -> (r: bool)
    requires
        i <= s@.len(),
    ensures
        r == text::occurs_at(s@, p@, i as int),
{
    let t = text::to_chars(p);
    let n: usize = s.len();
    t.len() <= n - i && text::same(slice_subrange(s, i, i + t.len()), t.as_slice())
}

fn search(s: &[char], p: &str, i: usize) -> (r: Option<usize>)
    requires
        i <= s@.len(),
    ensures
        match r {
            Some(k) => text::find_from(s@, p@, i as int) == Some(k as int) && i <= k && k + p@.len()
                <= s@.len(),
            None => text::find_from(s@, p@, i as int) is None,
        },
{
    let t = text::to_chars(p);
    let n: usize = s.len();
    let m: usize = t.len();
    let mut k: usize = i;
    while m <= n - k
        invariant
            n == s@.len(),
            m == p@.len(),
            t@ == p@,
            i <= k <= n,
            text::find_from(s@, p@, i as int) == text::find_from(s@, p@, k as int),
        decreases n - k,
    {
        if text::same(slice_subrange(s, k, k + m), t.as_slice()) {
            return Some(k);
        }
        if k == n {
            assert(text::find_from(s@, p@, k + 1) is None);
            return None;
        }
        k += 1;
    }
    None
}

fn read_attrs(s: &[char], i: usize) -> (r: Option<(Vec<(Vec<char>, Vec<char>)>, bool, usize)>)
    requires
        i <= s@.len(),
    ensures
        match r {
            Some((attrs, closed, next)) => attrs_from(s@, i as int, Seq::empty()) == Some(
                (attr_views(attrs@), closed, next as int),
            ),
            None => attrs_from(s@, i as int, Seq::empty()) is None,
        },
{
    let n: usize = s.len();
    let mut attrs: Vec<(Vec<char>, Vec<char>)> = Vec::new();
    let mut at: usize = i;
    assert(attr_views(attrs@) =~= Seq::<(Seq<char>, Seq<char>)>::empty());
    loop
        invariant
            n == s@.len(),
            i <= at <= n,
            attrs_from(s@, i as int, Seq::empty()) == attrs_from(
                s@,
                at as int,
                attr_views(attrs@),
            ),
        decreases n - at,
    {
        let p: usize = white_end(s, at);
        if p >= n {
            return None;
        }
        if s[p] == '>' {
            return Some((attrs, false, p + 1));
        }
        if s[p] == '/' {
            if n - p > 1 && s[p + 1] == '>' {
                return Some((attrs, true, p + 2));
            }
            return None;
        }
        let e: usize = end_of_name(s, p);
        if e == p || n - e <= 1 {
            return None;
        }
        let q: usize = e + 1;
        let quote = s[q];
        if s[e] != '=' || (quote != '\'' && quote != '"') {
            return None;
        }
        let v: usize = text::index_of_char(s, quote, q + 1);
        if v >= n {
            return None;
        }
        match unescape_text(slice_subrange(s, q + 1, v)) {
            Some(value) => {
                let ghost before = attrs@;
                let key = text::copy_chars(slice_subrange(s, p, e));
                attrs.push((key, value));
                assert(attr_views(attrs@) =~= attr_views(before).push((key@, value@)));
                at = v + 1;
            },
            None => {
                return None;
            },
        }
    }
}

pub fn read_token(s: &[char], i: usize) -> (r: Option<(Option<XmlToken>, usize)>)
    requires
        i < s@.len(),
    ensures
        match r {
            Some((token, next)) => token_at(s@, i as int) == Some(
                (token.deep_view(), next as int),
            ) && i < next <= s@.len(),
            None => token_at(s@, i as int) is None,
        },
{
    proof {
        lemma_token_advances(s@, i as int);
        reveal_strlit("<![CDATA[");
        reveal_strlit("]]>");
        reveal_strlit("<!--");
        reveal_strlit("-->");
        reveal_strlit("<?");
        reveal_strlit("?>");
        reveal_strlit("</");
    }
    let n: usize = s.len();
    if s[i] != '<' {
        let k: usize = text::index_of_char(s, '<', i);
        return match unescape_text(slice_subrange(s, i, k)) {
            Some(value) => Some((Some(XmlToken::Text { value }), k)),
            None => None,
        };
    }
    if occurs(s, "<![CDATA[", i) {
        return match search(s, "]]>", i + 9) {
            Some(k) => {
                let value = text::copy_chars(slice_subrange(s, i + 9, k));
                Some((Some(XmlToken::Text { value }), k + 3))
            },
            None => None,
        };
    }
    if occurs(s, "<!--", i) {
        return match search(s, "-->", i + 4) {
            Some(k) => Some((None, k + 3)),
            None => None,
        };
    }
    if occurs(s, "<?", i) {
        return match search(s, "?>", i + 2) {
            Some(k) => Some((None, k + 2)),
            None => None,
        };
    }
    if occurs(s, "</", i) {
        let e: usize = end_of_name(s, i + 2);
        let k: usize = white_end(s, e);
        if k < n && s[k] == '>' {
            let name = text::copy_chars(slice_subrange(s, i + 2, e));
            return Some((Some(XmlToken::End { name }), k + 1));
        }
        return None;
    }
    let e: usize = end_of_name(s, i + 1);
    if e == i + 1 {
        return None;
    }
    match read_attrs(s, e) {
        Some((attrs, closed, next)) => {
            let name = text::copy_chars(slice_subrange(s, i + 1, e));
            Some((Some(XmlToken::Start { name, attrs, closed }), next))
        },
        None => None,
    }
}

// ---------------------------------------------------------------------------
// Writing
// ---------------------------------------------------------------------------

/// An attribute as written: a space, the name, and the value in apostrophes.
pub open spec fn attr_text(key: Seq<char>, value: Seq<char>) -> Seq<char> {
    seq![' '] + key + seq!['=', '\''] + escape(value, true) + seq!['\'']
}

pub open spec fn attrs_text(attrs: Seq<(Seq<char>, Seq<char>)>) -> Seq<char>
    decreases attrs.len(),
{
    if attrs.len() == 0 {
        Seq::empty()
    } else {
        attr_text(attrs[0].0, attrs[0].1) + attrs_text(attrs.skip(1))
    }
}

/// A start tag as written.
pub open spec fn start_text(name: Seq<char>, attrs: Seq<(Seq<char>, Seq<char>)>) -> Seq<char> {
    seq!['<'] + name + attrs_text(attrs) + seq!['>']
}

/// An end tag as written.
pub open spec fn end_text(name: Seq<char>) -> Seq<char> {
    seq!['<', '/'] + name + seq!['>']
}

/// Appends an attribute.
pub fn push_xml_attr(xml: &mut Vec<char>, key: &str, value: &str)
    ensures
        final(xml)@ == old(xml)@ + attr_text(key@, value@),
{
    let ghost start = xml@;
    xml.push(' ');
    text::push_str(xml, key);
    xml.push('=');
    xml.push('\'');
    assert(xml@ =~= start + seq![' '] + key@ + seq!['=', '\'']);
    let chars = text::to_chars(value);
    escape_onto(xml, chars.as_slice(), true);
    xml.push('\'');
    assert(xml@ =~= start + attr_text(key@, value@));
}

/// Appends element content.
pub fn push_xml_text(xml: &mut Vec<char>, value: &str)
    ensures
        final(xml)@ == old(xml)@ + escape(value@, false),
{
    let chars = text::to_chars(value);
    escape_onto(xml, chars.as_slice(), false);
}

/// Appends an end tag.
pub fn push_xml_end(xml: &mut Vec<char>, name: &str)
    ensures
        final(xml)@ == old(xml)@ + end_text(name@),
{
    let ghost start = xml@;
    xml.push('<');
    xml.push('/');
    text::push_str(xml, name);
    xml.push('>');
    assert(xml@ =~= start + end_text(name@));
}

// ---------------------------------------------------------------------------
// Reading what was written
// ---------------------------------------------------------------------------

proof fn lemma_escape_char(c: char, attr: bool)
    ensures
        escape_char(c, attr).len() > 0,
        forall|i: int|
            0 <= i < escape_char(c, attr).len() ==> #[trigger] escape_char(c, attr)[i] != '<',
        attr ==> forall|i: int|
            0 <= i < escape_char(c, attr).len() ==> #[trigger] escape_char(c, attr)[i] != '\'',
        escape_char(c, attr)[0] == '&' ==> {
            let e = escape_char(c, attr);
            &&& e.last() == ';'
            &&& e.len() >= 2
            &&& forall|i: int| 0 <= i < e.len() - 1 ==> #[trigger] e[i] != ';'
            &&& entity(e.subrange(1, e.len() - 1)) == Some(c)
        },
        escape_char(c, attr)[0] != '&' ==> escape_char(c, attr) == seq![c],
{
    reveal_strlit("&amp;");
    reveal_strlit("&lt;");
    reveal_strlit("&gt;");
    reveal_strlit("&quot;");
    reveal_strlit("&apos;");
    reveal_strlit("amp");
    reveal_strlit("lt");
    reveal_strlit("gt");
    reveal_strlit("quot");
    reveal_strlit("apos");
    let e = escape_char(c, attr);
    let name = e.subrange(1, e.len() - 1);
    if c == '&' {
        assert(name =~= "amp"@);
    } else if c == '<' {
        assert(name =~= "lt"@);
        assert("lt"@ != "amp"@) by {
            assert("lt"@.len() != "amp"@.len());
        }
    } else if c == '>' {
        assert(name =~= "gt"@);
        assert("gt"@[0] != "lt"@[0]);
        assert("gt"@.len() != "amp"@.len());
    } else if attr && c == '"' {
        assert(name =~= "quot"@);
        assert("quot"@.len() != "amp"@.len());
        assert("quot"@.len() != "lt"@.len());
        assert("quot"@.len() != "gt"@.len());
    } else if attr && c == '\'' {
        assert(name =~= "apos"@);
        assert("apos"@.len() != "amp"@.len());
        assert("apos"@.len() != "lt"@.len());
        assert("apos"@.len() != "gt"@.len());
        assert("apos"@[0] != "quot"@[0]);
    }
}

proof fn lemma_escape_free(s: Seq<char>, attr: bool)
    ensures
        forall|i: int| 0 <= i < escape(s, attr).len() ==> #[trigger] escape(s, attr)[i] != '<',
        attr ==> forall|i: int|
            0 <= i < escape(s, attr).len() ==> #[trigger] escape(s, attr)[i] != '\'',
        s.len() > 0 ==> escape(s, attr).len() > 0,
    decreases s.len(),
{
    if s.len() > 0 {
        let head = escape_char(s[0], attr);
        let tail = escape(s.skip(1), attr);
        lemma_escape_char(s[0], attr);
        lemma_escape_free(s.skip(1), attr);
        assert forall|i: int| 0 <= i < escape(s, attr).len() implies #[trigger] escape(s, attr)[i]
            != '<' && (attr ==> escape(s, attr)[i] != '\'') by {
            if i < head.len() {
                assert(escape(s, attr)[i] == head[i]);
            } else {
                assert(escape(s, attr)[i] == tail[i - head.len()]);
            }
        }
    }
}

proof fn lemma_unescape_rest(pre: Seq<char>, v: Seq<char>, attr: bool, done: Seq<char>)
    ensures
        unescape_from(pre + escape(v, attr), pre.len() as int, done) == Some(done + v),
    decreases v.len(),
{
    let s = pre + escape(v, attr);
    let i = pre.len() as int;
    if v.len() == 0 {
        assert(done + v =~= done);
    } else {
        let e = escape_char(v[0], attr);
        let rest = escape(v.skip(1), attr);
        lemma_escape_char(v[0], attr);
        assert(s =~= pre + e + rest);
        assert(s[i] == e[0]);
        lemma_unescape_rest(pre + e, v.skip(1), attr, done.push(v[0]));
        assert(done.push(v[0]) + v.skip(1) =~= done + v);
        if e[0] == '&' {
            let k = i + e.len() - 1;
            assert(s[k] == e.last());
            assert forall|j: int| i <= j < k implies #[trigger] s[j] != ';' by {
                assert(s[j] == e[j - i]);
            }
            text::lemma_index_is(s, ';', i, k);
            assert(s.subrange(i + 1, k) =~= e.subrange(1, e.len() - 1));
        }
    }
}

/// Resolving the references of an escaped text gives the text back.
pub proof fn unescape_undoes_escape(v: Seq<char>, attr: bool)
    ensures
        unescape(escape(v, attr)) == Some(v),
{
    let none = Seq::<char>::empty();
    lemma_unescape_rest(none, v, attr, none);
    assert(none + escape(v, attr) =~= escape(v, attr));
    assert(none + v =~= v);
}

/// Whether `s` is a name.
pub open spec fn is_name(s: Seq<char>) -> bool {
    s.len() > 0 && forall|i: int| 0 <= i < s.len() ==> is_name_char(#[trigger] s[i])
}

proof fn lemma_name_end_is(s: Seq<char>, i: int, e: int)
    requires
        0 <= i <= e <= s.len(),
        forall|k: int| i <= k < e ==> is_name_char(#[trigger] s[k]),
        e < s.len() ==> !is_name_char(s[e]),
    ensures
        name_end(s, i) == e,
    decreases e - i,
{
    if i < e {
        lemma_name_end_is(s, i + 1, e);
    }
}

proof fn lemma_attr_reads_back(
    pre: Seq<char>,
    key: Seq<char>,
    value: Seq<char>,
    rest: Seq<char>,
    done: Seq<(Seq<char>, Seq<char>)>,
)
    requires
        is_name(key),
    ensures
        attrs_from(pre + attr_text(key, value) + rest, pre.len() as int, done) == attrs_from(
            pre + attr_text(key, value) + rest,
            (pre.len() + attr_text(key, value).len()) as int,
            done.push((key, value)),
        ),
{
    let written = escape(value, true);
    let s = pre + attr_text(key, value) + rest;
    let i = pre.len() as int;
    lemma_escape_free(value, true);
    let p = i + 1;
    let e = p + key.len();
    let q = e + 1;
    let v = q + 1 + written.len();
    assert(s[i] == ' ');
    assert forall|k: int| p <= k < e implies is_name_char(#[trigger] s[k]) by {
        assert(s[k] == key[k - p]);
    }
    assert(s[p] == key[0]);
    assert(skip_white(s, p) == p);
    assert(skip_white(s, i) == p);
    assert(s[e] == '=');
    lemma_name_end_is(s, p, e);
    assert(s[q] == '\'');
    assert forall|k: int| q + 1 <= k < v implies #[trigger] s[k] != '\'' by {
        assert(s[k] == written[k - q - 1]);
    }
    assert(s[v] == '\'');
    text::lemma_index_is(s, '\'', q + 1, v);
    assert(s.subrange(q + 1, v) =~= written);
    assert(s.subrange(p, e) =~= key);
    unescape_undoes_escape(value, true);
}

/// Reading written attributes gives them back.
pub proof fn lemma_attrs_read_back(
    pre: Seq<char>,
    attrs: Seq<(Seq<char>, Seq<char>)>,
    rest: Seq<char>,
    done: Seq<(Seq<char>, Seq<char>)>,
)
    requires
        forall|i: int| 0 <= i < attrs.len() ==> is_name((#[trigger] attrs[i]).0),
    ensures
        attrs_from(
            pre + attrs_text(attrs) + seq!['>'] + rest,
            pre.len() as int,
            done,
        ) == Some((done + attrs, false, (pre.len() + attrs_text(attrs).len() + 1) as int)),
    decreases attrs.len(),
{
    let s = pre + attrs_text(attrs) + seq!['>'] + rest;
    let i = pre.len() as int;
    if attrs.len() == 0 {
        assert(s[i] == '>');
        assert(skip_white(s, i) == i);
        assert(done + attrs =~= done);
    } else {
        let key = attrs[0].0;
        let value = attrs[0].1;
        let one = attr_text(key, value);
        let more = attrs_text(attrs.skip(1)) + seq!['>'] + rest;
        assert(is_name(key));
        assert(s =~= pre + one + more);
        lemma_attr_reads_back(pre, key, value, more, done);
        assert forall|k: int| 0 <= k < attrs.skip(1).len() implies is_name(
            (#[trigger] attrs.skip(1)[k]).0,
        ) by {
            assert(attrs.skip(1)[k] == attrs[k + 1]);
        }
        lemma_attrs_read_back(pre + one, attrs.skip(1), rest, done.push((key, value)));
        assert(pre + one + attrs_text(attrs.skip(1)) + seq!['>'] + rest =~= s);
        assert(done.push((key, value)) + attrs.skip(1) =~= done + attrs);
    }
}

/// Reading a written start tag gives its name and attributes back.
pub proof fn lemma_start_reads_back(
    pre: Seq<char>,
    name: Seq<char>,
    attrs: Seq<(Seq<char>, Seq<char>)>,
    rest: Seq<char>,
)
    requires
        is_name(name),
        forall|i: int| 0 <= i < attrs.len() ==> is_name((#[trigger] attrs[i]).0),
    ensures
        token_at(pre + start_text(name, attrs) + rest, pre.len() as int) == Some(
            (
                Some(XmlTokenView::Start { name, attrs, closed: false }),
                (pre.len() + start_text(name, attrs).len()) as int,
            ),
        ),
{
    let s = pre + start_text(name, attrs) + rest;
    let i = pre.len() as int;
    let e = i + 1 + name.len();
    let head = pre + seq!['<'] + name;
    assert(s =~= head + attrs_text(attrs) + seq!['>'] + rest);
    assert(s[i] == '<');
    assert(s[i + 1] == name[0]);
    lemma_not_special(s, i);
    assert forall|k: int| i + 1 <= k < e implies is_name_char(#[trigger] s[k]) by {
        assert(s[k] == name[k - i - 1]);
    }
    assert(!is_name_char(s[e])) by {
        if attrs.len() == 0 {
            assert(s[e] == '>');
        } else {
            assert(s[e] == ' ');
        }
    }
    lemma_name_end_is(s, i + 1, e);
    lemma_attrs_read_back(head, attrs, rest, Seq::empty());
    assert(Seq::<(Seq<char>, Seq<char>)>::empty() + attrs =~= attrs);
    assert(s.subrange(i + 1, e) =~= name);
}

proof fn lemma_not_special(s: Seq<char>, i: int)
    requires
        0 <= i,
        i + 1 < s.len(),
        is_name_char(s[i + 1]),
    ensures
        !text::occurs_at(s, "<![CDATA["@, i),
        !text::occurs_at(s, "<!--"@, i),
        !text::occurs_at(s, "<?"@, i),
        !text::occurs_at(s, "</"@, i),
{
    reveal_strlit("<![CDATA[");
    reveal_strlit("<!--");
    reveal_strlit("<?");
    reveal_strlit("</");
    if text::occurs_at(s, "<![CDATA["@, i) {
        assert(s.subrange(i, i + 9)[1] == s[i + 1]);
    }
    if text::occurs_at(s, "<!--"@, i) {
        assert(s.subrange(i, i + 4)[1] == s[i + 1]);
    }
    if text::occurs_at(s, "<?"@, i) {
        assert(s.subrange(i, i + 2)[1] == s[i + 1]);
    }
    if text::occurs_at(s, "</"@, i) {
        assert(s.subrange(i, i + 2)[1] == s[i + 1]);
    }
}

/// Reading a written end tag gives its name back.
pub proof fn lemma_end_reads_back(pre: Seq<char>, name: Seq<char>, rest: Seq<char>)
    requires
        is_name(name),
    ensures
        token_at(pre + end_text(name) + rest, pre.len() as int) == Some(
            (
                Some(XmlTokenView::End { name }),
                (pre.len() + end_text(name).len()) as int,
            ),
        ),
{
    reveal_strlit("<![CDATA[");
    reveal_strlit("<!--");
    reveal_strlit("<?");
    reveal_strlit("</");
    let s = pre + end_text(name) + rest;
    let i = pre.len() as int;
    let e = i + 2 + name.len();
    assert(s[i] == '<');
    assert(s[i + 1] == '/');
    assert(s.subrange(i, i + 2) =~= "</"@);
    if text::occurs_at(s, "<![CDATA["@, i) {
        assert(s.subrange(i, i + 9)[1] == s[i + 1]);
    }
    if text::occurs_at(s, "<!--"@, i) {
        assert(s.subrange(i, i + 4)[1] == s[i + 1]);
    }
    if text::occurs_at(s, "<?"@, i) {
        assert(s.subrange(i, i + 2)[1] == s[i + 1]);
    }
    assert forall|k: int| i + 2 <= k < e implies is_name_char(#[trigger] s[k]) by {
        assert(s[k] == name[k - i - 2]);
    }
    assert(s[e] == '>');
    lemma_name_end_is(s, i + 2, e);
    assert(skip_white(s, e) == e);
    assert(s.subrange(i + 2, e) =~= name);
}

/// Reading written content, before a tag, gives the text back.
pub proof fn lemma_text_reads_back(pre: Seq<char>, value: Seq<char>, rest: Seq<char>)
    requires
        value.len() > 0,
        rest.len() > 0,
        rest[0] == '<',
    ensures
        token_at(pre + escape(value, false) + rest, pre.len() as int) == Some(
            (
                Some(XmlTokenView::Text { value }),
                (pre.len() + escape(value, false).len()) as int,
            ),
        ),
{
    let written = escape(value, false);
    let s = pre + written + rest;
    let i = pre.len() as int;
    let k = i + written.len();
    lemma_escape_free(value, false);
    assert(s[i] == written[0]);
    assert forall|j: int| i <= j < k implies #[trigger] s[j] != '<' by {
        assert(s[j] == written[j - i]);
    }
    assert(s[k] == rest[0]);
    text::lemma_index_is(s, '<', i, k);
    assert(s.subrange(i, k) =~= written);
    unescape_undoes_escape(value, false);
}

} // verus!
