//! Incremental reading of PID201 framed streams.

use vstd::prelude::*;
use vstd::slice::slice_subrange;

use crate::ingest::TransportDescriptor;
use crate::stream;

verus! {

/// One framed bulletin, with its frame bytes.
#[derive(Debug, Clone, PartialEq, Eq)]
pub struct Pid201Record {
    pub transport: TransportDescriptor,
    pub raw_message: Vec<u8>,
}

/// What a finished stream left behind.
#[derive(Debug, Clone, Copy, PartialEq, Eq, Structural)]
pub struct Pid201DrainState {
    pub pending_bytes: usize,
    pub discarded_junk: usize,
}

/// The raw messages of the records.
pub open spec fn raw_messages(records: Seq<Pid201Record>) -> Seq<Seq<u8>> {
    Seq::new(records.len(), |i: int| records[i].raw_message@)
}

/// Collects frames from a stream that comes in chunks.
#[derive(Debug, Clone, PartialEq, Eq)]
pub struct Pid201StreamAdapter {
    pending: Vec<u8>,
    discarded_junk: usize,
}

/// `a + b`, at most the largest `usize`.
pub open spec fn capped_sum(a: int, b: int) -> int {
    if a + b <= usize::MAX {
        a + b
    } else {
        usize::MAX as int
    }
}

impl Pid201StreamAdapter {
    /// The bytes of the frame that has begun and not ended.
    pub closed spec fn spec_pending(&self) -> Seq<u8> {
        self.pending@
    }

    /// The number of bytes that were dropped as junk, as far as it can be
    /// counted.
    pub closed spec fn spec_junk(&self) -> int {
        self.discarded_junk as int
    }

    pub fn new() -> (r: Self)
        ensures
            r.spec_pending() == Seq::<u8>::empty(),
            r.spec_junk() == 0,
    {
        Pid201StreamAdapter { pending: Vec::new(), discarded_junk: 0 }
    }

    /// Takes the next chunk and hands out the frames that it completes.
    pub fn push(&mut self, chunk: &[u8]) -> (r: Vec<Pid201Record>)
        ensures
            ({
                let input = old(self).spec_pending() + chunk@;
                &&& raw_messages(r@) == stream::frames(input)
                &&& final(self).spec_pending() == stream::unfinished(input)
                &&& final(self).spec_junk() == capped_sum(
                    old(self).spec_junk(),
                    stream::junk(input),
                )
            }),
            forall|i: int|
                0 <= i < r@.len() ==> (#[trigger] r@[i]).transport
                    == TransportDescriptor::spec_satellite_pid201(),
    {
        let ghost input = self.pending@ + chunk@;
        let ghost junk_before = self.discarded_junk as int;
        let mut buffer = stream::copy_bytes(self.pending.as_slice());
        let mut i: usize = 0;
        while i < chunk.len()
            invariant
                i <= chunk@.len(),
                buffer@ == self.pending@ + chunk@.take(i as int),
            decreases chunk.len() - i,
        {
            buffer.push(chunk[i]);
            i += 1;
        }
        assert(chunk@.take(i as int) =~= chunk@);
        let s = buffer.as_slice();
        let n: usize = s.len();
        let mut records: Vec<Pid201Record> = Vec::new();
        let mut at: usize = 0;
        let mut junk: usize = 0;
        assert(input.skip(0) =~= input);
        assert(raw_messages(records@) + stream::frames(input) =~= stream::frames(input));
        loop
            invariant_except_break
                stream::unfinished(input.skip(at as int)) == stream::unfinished(input),
            invariant
                s@ == input,
                n == s@.len(),
                at <= n,
                junk <= at,
                raw_messages(records@) + stream::frames(input.skip(at as int)) == stream::frames(
                    input,
                ),
                junk + stream::junk(input.skip(at as int)) == stream::junk(input),
                forall|i: int|
                    0 <= i < records@.len() ==> (#[trigger] records@[i]).transport
                        == TransportDescriptor::spec_satellite_pid201(),
            ensures
                input.skip(at as int) == stream::unfinished(input),
                stream::frames(input.skip(at as int)).len() == 0,
                stream::junk(input.skip(at as int)) == 0,
            decreases n - at,
        {
            let rest = slice_subrange(s, at, n);
            let ghost tail = input.skip(at as int);
            assert(rest@ =~= tail);
            let k: usize = stream::leading_junk(rest);
            proof {
                stream::lemma_byte_from(tail, crate::SOH, 0);
                stream::lemma_byte_from(tail, crate::ETX, k as int);
            }
            if k >= rest.len() {
                junk = junk + k;
                at = n;
                proof {
                    let end = input.skip(at as int);
                    assert(end =~= Seq::<u8>::empty());
                    assert(stream::byte_from(end, crate::SOH, 0) == 0);
                    assert(raw_messages(records@) + stream::frames(end) =~= stream::frames(input));
                }
                break;
            }
            let e: usize = stream::end_of_frame(rest, k);
            if e >= rest.len() {
                junk = junk + k;
                at = at + k;
                proof {
                    let end = input.skip(at as int);
                    assert(end =~= tail.skip(k as int));
                    stream::lemma_unfinished_is_clean(tail, k as int);
                    assert(raw_messages(records@) + stream::frames(end) =~= stream::frames(input));
                }
                break;
            }
            let ghost before = records@;
            let record = Pid201Record {
                transport: TransportDescriptor::satellite_pid201(),
                raw_message: stream::copy_bytes(slice_subrange(rest, k, e + 1)),
            };
            records.push(record);
            junk = junk + k;
            at = at + e + 1;
            proof {
                assert(input.skip(at as int) =~= tail.skip(e + 1));
                assert(raw_messages(records@) =~= raw_messages(before).push(
                    tail.subrange(k as int, e + 1),
                ));
                assert(raw_messages(records@) + stream::frames(tail.skip(e + 1)) =~= raw_messages(
                    before,
                ) + stream::frames(tail));
            }
        }
        assert(raw_messages(records@) =~= stream::frames(input));
        let kept = stream::copy_bytes(slice_subrange(s, at, n));
        assert(kept@ =~= input.skip(at as int));
        self.pending = kept;
        self.discarded_junk = if junk <= usize::MAX - self.discarded_junk {
            self.discarded_junk + junk
        } else {
            usize::MAX
        };
        records
    }

    /// The bytes of the frame that has begun and not ended.
    pub fn pending(&self) -> (r: &[u8])
        ensures
            r@ == self.spec_pending(),
    {
        self.pending.as_slice()
    }

    /// Ends the stream: says what is left of it and starts afresh.
    pub fn finish(&mut self) -> (r: Pid201DrainState)
        ensures
            r.pending_bytes == old(self).spec_pending().len(),
            r.discarded_junk == old(self).spec_junk(),
            final(self).spec_pending() == Seq::<u8>::empty(),
            final(self).spec_junk() == 0,
    {
        let state = Pid201DrainState {
            pending_bytes: self.pending.len(),
            discarded_junk: self.discarded_junk,
        };
        self.pending = Vec::new();
        self.discarded_junk = 0;
        state
    }
}

} // verus!
