//! Reassembling a file's bytes from reads that may return short.
//!
//! The image reader obtains the file's expected size from a file-status
//! query, then reads repeatedly; each read may return fewer bytes than asked
//! for. [`ByteAccumulator`] collects those chunks. Reading is over once the
//! accumulated bytes reach the expected total or a read returns no bytes at
//! all; in the latter case the accumulated buffer is deliberately handed on
//! short, exactly as read, without signalling the size mismatch. Every byte
//! of the buffer comes from a chunk, so every readable byte is initialised.

use vstd::prelude::*;

verus! {

/// Collects the chunks that successive short reads of one file return.
pub struct ByteAccumulator {
    expected: usize,
    data: Vec<u8>,
    ended: bool,
}

impl ByteAccumulator {
    /// The bytes accumulated so far, in read order.
    pub closed spec fn collected(self) -> Seq<u8> {
        self.data@
    }

    /// The total the file-status query promised.
    pub closed spec fn expected_total(self) -> int {
        self.expected as int
    }

    /// Whether a read has already returned no bytes at all.
    pub closed spec fn saw_end(self) -> bool {
        self.ended
    }

    /// Starts an accumulation that expects `expected` bytes in total.
    pub fn new(expected: usize) -> (r: ByteAccumulator)
        ensures
            r.collected() == Seq::<u8>::empty(),
            r.expected_total() == expected,
            !r.saw_end(),
    {
        ByteAccumulator { expected, data: Vec::new(), ended: false }
    }

    /// How many bytes the next read should ask for.
    pub fn remaining(&self) -> (r: usize)
        ensures
            r == if self.collected().len() <= self.expected_total() {
                self.expected_total() - self.collected().len()
            } else {
                0int
            },
    {
        if self.data.len() <= self.expected {
            self.expected - self.data.len()
        } else {
            0
        }
    }

    /// Whether another read should be attempted: the expected total has not
    /// been reached and no read has returned empty yet.
    pub fn wants_more(&self) -> (r: bool)
        ensures
            r == (!self.saw_end() && self.collected().len() < self.expected_total()),
    {
        !self.ended && self.data.len() < self.expected
    }

    /// Appends the bytes one read returned. An empty chunk marks the end of
    /// the file.
    #[verifier::loop_isolation(false)]
    pub fn push_chunk(&mut self, chunk: &Vec<u8>)
        ensures
            final(self).collected() == old(self).collected() + chunk@,
            final(self).expected_total() == old(self).expected_total(),
            final(self).saw_end() == (old(self).saw_end() || chunk@.len() == 0),
    {
        if chunk.len() == 0 {
            self.ended = true;
        }
        let mut k: usize = 0;
        while k < chunk.len()
            invariant
                k <= chunk@.len(),
                self.data@ == old(self).data@ + chunk@.take(k as int),
                self.expected == old(self).expected,
                self.ended == (old(self).ended || chunk@.len() == 0),
            decreases chunk@.len() - k,
        {
            self.data.push(chunk[k]);
            k += 1;
            proof {
                assert(old(self).data@ + chunk@.take(k as int) =~= (old(self).data@ + chunk@.take(
                    k - 1,
                )).push(chunk@[k - 1]));
            }
        }
        proof {
            assert(self.data@ =~= old(self).data@ + chunk@);
        }
    }

    /// Hands the accumulated buffer on.
    pub fn into_bytes(self) -> (r: Vec<u8>)
        ensures
            r@ == self.collected(),
    {
        self.data
    }
}

/// The pieces a source falls into when read in chunks of the given sizes:
/// the first `sizes[0]` bytes, then the next `sizes[1]`, and so on.
pub open spec fn chunks_of(source: Seq<u8>, sizes: Seq<int>) -> Seq<Seq<u8>>
    decreases sizes.len(),
{
    if sizes.len() == 0 {
        Seq::empty()
    } else {
        seq![source.take(sizes[0])] + chunks_of(source.skip(sizes[0]), sizes.drop_first())
    }
}

/// The sum of a sequence of sizes.
pub open spec fn sum_of(sizes: Seq<int>) -> int
    decreases sizes.len(),
{
    if sizes.len() == 0 {
        0
    } else {
        sizes[0] + sum_of(sizes.drop_first())
    }
}

proof fn lemma_sum_of_nonneg(sizes: Seq<int>)
    requires
        forall|i: int| 0 <= i < sizes.len() ==> sizes[i] >= 0,
    ensures
        sum_of(sizes) >= 0,
    decreases sizes.len(),
{
    if sizes.len() > 0 {
        assert(forall|i: int|
            0 <= i < sizes.drop_first().len() ==> sizes.drop_first()[i] == sizes[i + 1]);
        lemma_sum_of_nonneg(sizes.drop_first());
    }
}

/// Reads that return in chunks of any sizes reassemble to the same bytes as
/// one full read: concatenating the chunks a source was cut into restores
/// the source.
pub proof fn lemma_chunked_reads_rejoin(source: Seq<u8>, sizes: Seq<int>)
    requires
        forall|i: int| 0 <= i < sizes.len() ==> sizes[i] >= 0,
        sum_of(sizes) == source.len(),
    ensures
        chunks_of(source, sizes).flatten() == source,
    decreases sizes.len(),
{
    if sizes.len() == 0 {
        assert(chunks_of(source, sizes).flatten() =~= source);
    } else {
        let s0 = sizes[0];
        let rest = sizes.drop_first();
        assert(forall|i: int| 0 <= i < rest.len() ==> rest[i] == sizes[i + 1]);
        lemma_sum_of_nonneg(rest);
        lemma_chunked_reads_rejoin(source.skip(s0), rest);
        let cs = chunks_of(source, sizes);
        assert(cs.drop_first() =~= chunks_of(source.skip(s0), rest));
        assert(cs.flatten() == cs.first() + cs.drop_first().flatten());
        assert(cs.flatten() =~= source);
    }
}

} // verus!
