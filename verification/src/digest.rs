//! Digests: bulletin text hashes and content fingerprints.

use vstd::prelude::*;
use vstd::slice::slice_subrange;

use crate::number;
use crate::product::NwwsContent;
use crate::text;
use crate::wmo::WmoMessageView;

verus! {

// ---------------------------------------------------------------------------
// Newlines
// ---------------------------------------------------------------------------

/// `done`, followed by `s` from `i` on with each `p`, found from left to
/// right, replaced by `c`.
pub open spec fn replace_from(s: Seq<char>, p: Seq<char>, c: char, i: int, done: Seq<char>) -> Seq<
    char,
>
    decreases s.len() - i,
{
    if i < 0 || i >= s.len() {
        done
    } else if p.len() > 0 && text::occurs_at(s, p, i) {
        replace_from(s, p, c, i + p.len(), done.push(c))
    } else {
        replace_from(s, p, c, i + 1, done.push(s[i]))
    }
}

/// `s` with each `p` replaced by `c`.
pub open spec fn replace(s: Seq<char>, p: Seq<char>, c: char) -> Seq<char> {
    replace_from(s, p, c, 0, Seq::empty())
}

/// `s` with every line separator, `\r\r\n`, `\r\n` or a lone `\r`, turned
/// into a line feed.
pub open spec fn normalized_newlines(s: Seq<char>) -> Seq<char> {
    replace(replace(replace(s, "\r\r\n"@, '\n'), "\r\n"@, '\n'), "\r"@, '\n')
}

fn replace_all(s: &[char], p: &str, c: char) -> (r: Vec<char>)
    requires
        p@.len() > 0,
    ensures
        r@ == replace(s@, p@, c),
{
    let pattern = text::to_chars(p);
    let n: usize = s.len();
    let m: usize = pattern.len();
    let mut out: Vec<char> = Vec::new();
    let mut i: usize = 0;
    while i < n
        invariant
            n == s@.len(),
            m == p@.len(),
            m > 0,
            pattern@ == p@,
            i <= n,
            replace(s@, p@, c) == replace_from(s@, p@, c, i as int, out@),
        decreases n - i,
    {
        if m <= n - i && text::same(slice_subrange(s, i, i + m), pattern.as_slice()) {
            out.push(c);
            i += m;
        } else {
            out.push(s[i]);
            i += 1;
        }
    }
    out
}

/// Turns every line separator into a line feed.
pub fn normalize_newlines(s: &[char]) -> (r: Vec<char>)
    ensures
        r@ == normalized_newlines(s@),
{
    proof {
        reveal_strlit("\r\r\n");
        reveal_strlit("\r\n");
        reveal_strlit("\r");
    }
    let a = replace_all(s, "\r\r\n", '\n');
    let b = replace_all(a.as_slice(), "\r\n", '\n');
    replace_all(b.as_slice(), "\r", '\n')
}

// ---------------------------------------------------------------------------
// FNV-1a
// ---------------------------------------------------------------------------

pub const FNV_OFFSET_BASIS: u64 = 0xcbf29ce484222325;

pub const FNV_PRIME: u64 = 0x100000001b3;

/// One step of the 64-bit FNV-1a hash.
pub open spec fn fnv_step(hash: u64, byte: u8) -> u64 {
    (((hash ^ (byte as u64)) * FNV_PRIME) % 0x1_0000_0000_0000_0000) as u64
}

/// The 64-bit FNV-1a hash.
pub open spec fn fnv1a(bytes: Seq<u8>) -> u64
    decreases bytes.len(),
{
    if bytes.len() == 0 {
        FNV_OFFSET_BASIS
    } else {
        fnv_step(fnv1a(bytes.drop_last()), bytes.last())
    }
}

/// The FNV-1a hash in sixteen hexadecimal digits.
pub open spec fn digest_text(bytes: Seq<u8>) -> Seq<char> {
    number::hex(fnv1a(bytes) as nat, 16)
}

pub fn archive_digest(bytes: &[u8]) -> (r: String)
    ensures
        r@ == digest_text(bytes@),
{
    let mut hash: u64 = FNV_OFFSET_BASIS;
    let mut i: usize = 0;
    while i < bytes.len()
        invariant
            i <= bytes@.len(),
            hash == fnv1a(bytes@.take(i as int)),
        decreases bytes.len() - i,
    {
        assert(bytes@.take(i + 1).drop_last() =~= bytes@.take(i as int));
        let mixed: u64 = hash ^ (bytes[i] as u64);
        hash = mixed.wrapping_mul(FNV_PRIME);
        i += 1;
    }
    assert(bytes@.take(i as int) =~= bytes@);
    let digits = number::to_hex(hash, 16);
    text::to_text(digits.as_slice())
}

// ---------------------------------------------------------------------------
// BLAKE3
// ---------------------------------------------------------------------------

/// The BLAKE3 hash of a byte sequence in lower case hexadecimal digits.
pub uninterp spec fn blake3_hex(bytes: Seq<u8>) -> Seq<char>;

/// Whether `c` is a hexadecimal digit in lower case.
pub open spec fn is_hex_digit(c: char) -> bool {
    text::is_digit(c) || 'a' <= c <= 'f'
}

/// `blake3::hash` and `Hash::to_hex`: a function of the bytes alone, written
/// as 64 lower case hexadecimal digits.
#[verifier::external_body]
pub(crate) fn blake3_text(bytes: &[u8]) -> (r: String)
    ensures
        r@ == blake3_hex(bytes@),
        r@.len() == 64,
        forall|i: int| 0 <= i < r@.len() ==> is_hex_digit(#[trigger] r@[i]),
{
    blake3::hash(bytes).to_hex().to_string()
}

/// The UTF-8 bytes of a text.
pub open spec fn utf8(s: Seq<char>) -> Seq<u8> {
    vstd::utf8::encode_utf8(s)
}

// ---------------------------------------------------------------------------
// Fingerprints
// ---------------------------------------------------------------------------

/// The text that a bulletin's fingerprint is taken of: heading, AWIPS
/// identifier and body, each on lines of their own, with line feeds only.
pub open spec fn canonical_text(m: WmoMessageView) -> Seq<char> {
    let head = m.heading.raw + seq!['\n'];
    let with_awips = match m.awips_id {
        Some(id) => head + id + seq!['\n'],
        None => head,
    };
    with_awips + normalized_newlines(m.body)
}

/// The fingerprint of a bulletin: the hash of its canonical text.
pub open spec fn fingerprint(m: WmoMessageView) -> Seq<char> {
    blake3_hex(utf8(canonical_text(m)))
}

/// Writes the text that the fingerprint is taken of.
pub fn canonical_bulletin(content: &NwwsContent) -> (r: String)
    ensures
        r@ == canonical_text(content.deep_view().bulletin),
{
    let bulletin = &content.bulletin;
    let mut v: Vec<char> = Vec::new();
    text::push_str(&mut v, bulletin.heading.raw());
    v.push('\n');
    assert(v@ =~= bulletin.deep_view().heading.raw + seq!['\n']);
    if let Some(id) = &bulletin.awips_id {
        let ghost head = v@;
        text::push_str(&mut v, id.raw());
        v.push('\n');
        assert(v@ =~= head + id.deep_view() + seq!['\n']);
    }
    let body = text::to_chars(bulletin.body.as_str());
    let lines = normalize_newlines(body.as_slice());
    text::push_all(&mut v, lines.as_slice());
    text::to_text(v.as_slice())
}

/// A fingerprint of what a bulletin says, whatever transport it came by.
pub fn semantic_fingerprint(content: &NwwsContent) -> (r: String)
    ensures
        r@ == fingerprint(content.deep_view().bulletin),
        r@.len() == 64,
        forall|i: int| 0 <= i < r@.len() ==> is_hex_digit(#[trigger] r@[i]),
{
    let canonical = canonical_bulletin(content);
    blake3_text(canonical.as_str().as_bytes())
}

/// The BLAKE3 hash of the bulletin text.
pub fn raw_bulletin_blake3(content: &NwwsContent) -> (r: String)
    ensures
        r@ == blake3_hex(utf8(content.deep_view().bulletin.bulletin)),
        r@.len() == 64,
{
    blake3_text(content.bulletin.bulletin.as_str().as_bytes())
}

} // verus!
