//! Framed byte streams: start-of-heading to end-of-text, with junk between.

use vstd::prelude::*;
use vstd::slice::slice_subrange;

use crate::{ETX, SOH};

verus! {

// ---------------------------------------------------------------------------
// Bytes
// ---------------------------------------------------------------------------

/// The position of the first `b` in `s` from `i` on, or the length of `s`.
pub open spec fn byte_from(s: Seq<u8>, b: u8, i: int) -> int
    decreases s.len() - i,
{
    if 0 <= i < s.len() {
        if s[i] == b {
            i
        } else {
            byte_from(s, b, i + 1)
        }
    } else {
        s.len() as int
    }
}

pub proof fn lemma_byte_from(s: Seq<u8>, b: u8, i: int)
    requires
        0 <= i <= s.len(),
    ensures
        i <= byte_from(s, b, i) <= s.len(),
        byte_from(s, b, i) < s.len() ==> s[byte_from(s, b, i)] == b,
        forall|k: int| i <= k < byte_from(s, b, i) ==> s[k] != b,
    decreases s.len() - i,
{
    if i < s.len() && s[i] != b {
        lemma_byte_from(s, b, i + 1);
    }
}

proof fn lemma_byte_is(s: Seq<u8>, b: u8, i: int, k: int)
    requires
        0 <= i <= k <= s.len(),
        k < s.len() ==> s[k] == b,
        forall|j: int| i <= j < k ==> #[trigger] s[j] != b,
    ensures
        byte_from(s, b, i) == k,
    decreases k - i,
{
    if i < k {
        lemma_byte_is(s, b, i + 1, k);
    }
}

fn find_byte(s: &[u8], b: u8, i: usize) -> (r: usize)
    requires
        i <= s@.len(),
    ensures
        r == byte_from(s@, b, i as int),
        i <= r <= s@.len(),
{
    let n: usize = s.len();
    let mut k: usize = i;
    while k < n && s[k] != b
        invariant
            n == s@.len(),
            i <= k <= n,
            byte_from(s@, b, i as int) == byte_from(s@, b, k as int),
        decreases n - k,
    {
        k += 1;
    }
    k
}

// ---------------------------------------------------------------------------
// Frames
// ---------------------------------------------------------------------------

/// Where the frames of `s` lie from position `i` on: each from a
/// start-of-heading byte to the next end-of-text byte.
pub open spec fn frame_ranges(s: Seq<u8>, i: int) -> Seq<(int, int)>
    decreases s.len() - i,
    when 0 <= i <= s.len()
    via frame_ranges_decreases
{
    let k = byte_from(s, SOH, i);
    let e = byte_from(s, ETX, k);
    if k >= s.len() || e >= s.len() {
        Seq::empty()
    } else {
        seq![(k, e + 1)] + frame_ranges(s, e + 1)
    }
}

#[via_fn]
proof fn frame_ranges_decreases(s: Seq<u8>, i: int) {
    lemma_byte_from(s, SOH, i);
    lemma_byte_from(s, ETX, byte_from(s, SOH, i));
}

/// The frames of `s`, each with its frame bytes.
pub open spec fn frames(s: Seq<u8>) -> Seq<Seq<u8>>
    decreases s.len(),
    via frames_decreases
{
    let k = byte_from(s, SOH, 0);
    let e = byte_from(s, ETX, k);
    if k >= s.len() || e >= s.len() {
        Seq::empty()
    } else {
        seq![s.subrange(k, e + 1)] + frames(s.skip(e + 1))
    }
}

#[via_fn]
proof fn frames_decreases(s: Seq<u8>) {
    lemma_byte_from(s, SOH, 0);
    lemma_byte_from(s, ETX, byte_from(s, SOH, 0));
}

/// The frame that has begun at the end of `s` and not ended.
pub open spec fn unfinished(s: Seq<u8>) -> Seq<u8>
    decreases s.len(),
    via unfinished_decreases
{
    let k = byte_from(s, SOH, 0);
    let e = byte_from(s, ETX, k);
    if k >= s.len() {
        Seq::empty()
    } else if e >= s.len() {
        s.skip(k)
    } else {
        unfinished(s.skip(e + 1))
    }
}

#[via_fn]
proof fn unfinished_decreases(s: Seq<u8>) {
    lemma_byte_from(s, SOH, 0);
    lemma_byte_from(s, ETX, byte_from(s, SOH, 0));
}

/// The number of bytes of `s` outside frames.
pub open spec fn junk(s: Seq<u8>) -> int
    decreases s.len(),
    via junk_decreases
{
    let k = byte_from(s, SOH, 0);
    let e = byte_from(s, ETX, k);
    if k >= s.len() || e >= s.len() {
        k
    } else {
        k + junk(s.skip(e + 1))
    }
}

#[via_fn]
proof fn junk_decreases(s: Seq<u8>) {
    lemma_byte_from(s, SOH, 0);
    lemma_byte_from(s, ETX, byte_from(s, SOH, 0));
}

proof fn lemma_junk_bound(s: Seq<u8>)
    ensures
        0 <= junk(s) <= s.len(),
    decreases s.len(),
{
    let k = byte_from(s, SOH, 0);
    let e = byte_from(s, ETX, k);
    lemma_byte_from(s, SOH, 0);
    lemma_byte_from(s, ETX, k);
    if k < s.len() && e < s.len() {
        lemma_junk_bound(s.skip(e + 1));
    }
}

/// The frames are the bytes at the frame ranges.
pub proof fn frames_lie_at_ranges(s: Seq<u8>, i: int)
    requires
        0 <= i <= s.len(),
    ensures
        frames(s.skip(i)).len() == frame_ranges(s, i).len(),
        forall|j: int|
            0 <= j < frame_ranges(s, i).len() ==> {
                let range = #[trigger] frame_ranges(s, i)[j];
                &&& i <= range.0 < range.1 <= s.len()
                &&& frames(s.skip(i))[j] == s.subrange(range.0, range.1)
            },
    decreases s.len() - i,
{
    let t = s.skip(i);
    let k = byte_from(s, SOH, i);
    let e = byte_from(s, ETX, k);
    lemma_byte_from(s, SOH, i);
    lemma_byte_from(s, ETX, k);
    lemma_byte_is(t, SOH, 0, k - i);
    if k < s.len() {
        assert forall|j: int| k - i <= j < e - i implies #[trigger] t[j] != ETX by {
            assert(t[j] == s[j + i]);
        }
        lemma_byte_is(t, ETX, k - i, e - i);
        if e < s.len() {
            frames_lie_at_ranges(s, e + 1);
            assert(t.skip(e + 1 - i) =~= s.skip(e + 1));
            assert(t.subrange(k - i, e + 1 - i) =~= s.subrange(k, e + 1));
            let more = frame_ranges(s, e + 1);
            assert forall|j: int| 0 <= j < frame_ranges(s, i).len() implies {
                let range = #[trigger] frame_ranges(s, i)[j];
                &&& i <= range.0 < range.1 <= s.len()
                &&& frames(t)[j] == s.subrange(range.0, range.1)
            } by {
                if j > 0 {
                    assert(frame_ranges(s, i)[j] == more[j - 1]);
                    assert(frames(t)[j] == frames(s.skip(e + 1))[j - 1]);
                }
            }
        }
    }
}

proof fn lemma_split_junk(a: Seq<u8>, b: Seq<u8>)
    requires
        byte_from(a, SOH, 0) == a.len(),
    ensures
        frames(a + b) == frames(b),
        unfinished(a + b) == unfinished(b),
        junk(a + b) == a.len() + junk(b),
{
    let s = a + b;
    let n = a.len() as int;
    lemma_byte_from(a, SOH, 0);
    lemma_byte_from(b, SOH, 0);
    let k = byte_from(b, SOH, 0);
    lemma_byte_from(b, ETX, k);
    let e = byte_from(b, ETX, k);
    assert forall|j: int| 0 <= j < n + k implies #[trigger] s[j] != SOH by {
        if j < n {
            assert(s[j] == a[j]);
        } else {
            assert(s[j] == b[j - n]);
        }
    }
    lemma_byte_is(s, SOH, 0, n + k);
    if k < b.len() {
        assert forall|j: int| n + k <= j < n + e implies #[trigger] s[j] != ETX by {
            assert(s[j] == b[j - n]);
        }
        lemma_byte_is(s, ETX, n + k, n + e);
        if e < b.len() {
            assert(s.subrange(n + k, n + e + 1) =~= b.subrange(k, e + 1));
            assert(s.skip(n + e + 1) =~= b.skip(e + 1));
        } else {
            assert(s.skip(n + k) =~= b.skip(k));
        }
    }
}

proof fn lemma_drop_junk(a: Seq<u8>, b: Seq<u8>, k: int)
    requires
        0 <= k < a.len(),
        byte_from(a, SOH, 0) == k,
    ensures
        frames(a + b) == frames(a.skip(k) + b),
        unfinished(a + b) == unfinished(a.skip(k) + b),
        junk(a + b) == k + junk(a.skip(k) + b),
{
    let head = a.take(k);
    let tail = a.skip(k) + b;
    lemma_byte_from(a, SOH, 0);
    assert forall|j: int| 0 <= j < k implies #[trigger] head[j] != SOH by {
        assert(head[j] == a[j]);
    }
    lemma_byte_is(head, SOH, 0, k);
    lemma_split_junk(head, tail);
    assert(head + tail =~= a + b);
}

/// A stream may be read in pieces: what a piece leaves unfinished goes in
/// front of the next, and frames and junk add up.
pub proof fn streams_may_be_read_in_pieces(a: Seq<u8>, b: Seq<u8>)
    ensures
        frames(a + b) == frames(a) + frames(unfinished(a) + b),
        unfinished(a + b) == unfinished(unfinished(a) + b),
        junk(a + b) == junk(a) + junk(unfinished(a) + b),
    decreases a.len(),
{
    let k = byte_from(a, SOH, 0);
    let e = byte_from(a, ETX, k);
    lemma_byte_from(a, SOH, 0);
    lemma_byte_from(a, ETX, k);
    let none = Seq::<Seq<u8>>::empty();
    if k >= a.len() {
        lemma_split_junk(a, b);
        assert(unfinished(a) + b =~= b);
        assert(none + frames(b) =~= frames(b));
    } else if e >= a.len() {
        lemma_drop_junk(a, b, k);
        assert(none + frames(unfinished(a) + b) =~= frames(unfinished(a) + b));
    } else {
        let s = a + b;
        assert forall|j: int| 0 <= j < k implies #[trigger] s[j] != SOH by {
            assert(s[j] == a[j]);
        }
        assert(s[k] == a[k]);
        lemma_byte_is(s, SOH, 0, k);
        assert forall|j: int| k <= j < e implies #[trigger] s[j] != ETX by {
            assert(s[j] == a[j]);
        }
        assert(s[e] == a[e]);
        lemma_byte_is(s, ETX, k, e);
        let rest = a.skip(e + 1);
        streams_may_be_read_in_pieces(rest, b);
        assert(s.skip(e + 1) =~= rest + b);
        assert(s.subrange(k, e + 1) =~= a.subrange(k, e + 1));
        let one = seq![a.subrange(k, e + 1)];
        assert(one + (frames(rest) + frames(unfinished(rest) + b)) =~= (one + frames(rest))
            + frames(unfinished(rest) + b));
    }
}

// ---------------------------------------------------------------------------
// Reading
// ---------------------------------------------------------------------------

/// A frame in a stream: its bytes and where it lies.
#[derive(Debug, Clone, PartialEq, Eq)]
pub struct FramedChunk {
    pub start: usize,
    pub end: usize,
    pub bytes: Vec<u8>,
}

/// The ranges of the chunks.
pub open spec fn chunk_ranges(chunks: Seq<FramedChunk>) -> Seq<(int, int)> {
    Seq::new(chunks.len(), |i: int| (chunks[i].start as int, chunks[i].end as int))
}

/// Whether each chunk holds the bytes at its range.
pub open spec fn chunks_of(s: Seq<u8>, chunks: Seq<FramedChunk>) -> bool {
    forall|i: int|
        0 <= i < chunks.len() ==> {
            &&& 0 <= (#[trigger] chunks[i]).start <= chunks[i].end <= s.len()
            &&& chunks[i].bytes@ == s.subrange(chunks[i].start as int, chunks[i].end as int)
        }
}

pub fn copy_bytes(s: &[u8]) -> (r: Vec<u8>)
    ensures
        r@ == s@,
{
    let mut v: Vec<u8> = Vec::new();
    let mut i: usize = 0;
    while i < s.len()
        invariant
            i <= s@.len(),
            v@ == s@.take(i as int),
        decreases s.len() - i,
    {
        v.push(s[i]);
        i += 1;
    }
    assert(s@.take(i as int) =~= s@);
    v
}

/// Lists the frames of a stream.
pub fn scan_frames(s: &[u8]) -> (r: Vec<FramedChunk>)
    ensures
        chunk_ranges(r@) == frame_ranges(s@, 0),
        chunks_of(s@, r@),
{
    let n: usize = s.len();
    let mut out: Vec<FramedChunk> = Vec::new();
    let mut i: usize = 0;
    assert(chunk_ranges(out@) + frame_ranges(s@, 0) =~= frame_ranges(s@, 0));
    loop
        invariant
            n == s@.len(),
            i <= n,
            chunk_ranges(out@) + frame_ranges(s@, i as int) == frame_ranges(s@, 0),
            chunks_of(s@, out@),
        decreases n - i,
    {
        let k: usize = find_byte(s, SOH, i);
        if k >= n {
            assert(chunk_ranges(out@) =~= frame_ranges(s@, 0));
            return out;
        }
        let e: usize = find_byte(s, ETX, k);
        if e >= n {
            assert(chunk_ranges(out@) =~= frame_ranges(s@, 0));
            return out;
        }
        let ghost before = out@;
        let chunk = FramedChunk {
            start: k,
            end: e + 1,
            bytes: copy_bytes(slice_subrange(s, k, e + 1)),
        };
        out.push(chunk);
        proof {
            assert(chunk_ranges(out@) =~= chunk_ranges(before).push((k as int, e + 1)));
            assert(chunk_ranges(out@) + frame_ranges(s@, e + 1) =~= chunk_ranges(before)
                + frame_ranges(s@, i as int));
        }
        i = e + 1;
    }
}

/// The number of bytes before the first start-of-heading byte.
pub fn leading_junk(s: &[u8]) -> (r: usize)
    ensures
        r == byte_from(s@, SOH, 0),
        r <= s@.len(),
{
    find_byte(s, SOH, 0)
}

/// The position of the first end-of-text byte from `i` on, or the length.
pub fn end_of_frame(s: &[u8], i: usize) -> (r: usize)
    requires
        i <= s@.len(),
    ensures
        r == byte_from(s@, ETX, i as int),
        i <= r <= s@.len(),
{
    find_byte(s, ETX, i)
}

/// An unfinished frame holds no frame and no junk.
pub proof fn lemma_unfinished_is_clean(s: Seq<u8>, k: int)
    requires
        byte_from(s, SOH, 0) == k,
        k < s.len(),
        byte_from(s, ETX, k) == s.len(),
    ensures
        unfinished(s) == s.skip(k),
        frames(s.skip(k)).len() == 0,
        junk(s.skip(k)) == 0,
        unfinished(s.skip(k)) == s.skip(k),
{
    let t = s.skip(k);
    lemma_byte_from(s, SOH, 0);
    lemma_byte_from(s, ETX, k);
    assert(t[0] == SOH);
    lemma_byte_is(t, SOH, 0, 0);
    assert forall|j: int| 0 <= j < t.len() implies #[trigger] t[j] != ETX by {
        assert(t[j] == s[j + k]);
    }
    lemma_byte_is(t, ETX, 0, t.len() as int);
    assert(t.skip(0) =~= t);
}

} // verus!
