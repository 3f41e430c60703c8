//! The streaming chunk writer.
//!
//! Logical read records are buffered into self-describing chunks. Each chunk
//! starts with its exact byte length (its own 8-byte prefix included) and its
//! record count, both 32-bit little-endian. A chunk is handed out as soon as
//! the in-chunk record count strictly exceeds the configured capacity, so a
//! chunk may hold up to capacity + 1 records. The tail chunk is emitted
//! unconditionally at the end of the stream, even when empty, so degenerate
//! runs still produce a stream shaped like every other.

use vstd::prelude::*;
use vstd::bytes::{spec_u32_to_le_bytes, lemma_auto_spec_u32_to_from_le_bytes};
use crate::record::{LogicalReadRecord, ReadRecordV, records_bytes, lemma_record_bytes_len,
    append_record_bytes};
use crate::schema::{push_u32_le, push_bytes};

verus! {

/// The default chunk capacity: a flush triggers once a chunk holds strictly
/// more records than this.
pub const DEFAULT_CHUNK_CAPACITY: u32 = 10000;

/// One complete chunk on the wire: byte length (prefix included), record
/// count, then the records.
pub open spec fn chunk_bytes(rs: Seq<ReadRecordV>) -> Seq<u8>
    recommends
        8 + records_bytes(rs).len() <= u32::MAX,
        rs.len() <= u32::MAX,
{
    spec_u32_to_le_bytes((8 + records_bytes(rs).len()) as u32) + spec_u32_to_le_bytes(
        rs.len() as u32,
    ) + records_bytes(rs)
}

/// Buffers logical read records and hands out completed chunks.
pub struct ChunkWriter {
    buf: Vec<u8>,
    nrec: u32,
    capacity: u32,
    nchunks: u64,
    chunks: Ghost<Seq<Seq<ReadRecordV>>>,
    buffered: Ghost<Seq<ReadRecordV>>,
}

impl ChunkWriter {
    /// The records buffered for the chunk under construction.
    pub closed spec fn pending(self) -> Seq<ReadRecordV> {
        self.buffered@
    }

    /// The records of each chunk already handed out, in order.
    pub closed spec fn flushed(self) -> Seq<Seq<ReadRecordV>> {
        self.chunks@
    }

    /// The configured capacity.
    pub closed spec fn cap(self) -> u32 {
        self.capacity
    }

    /// How many chunks have been handed out.
    pub closed spec fn chunk_count(self) -> u64 {
        self.nchunks
    }

    /// The serialized size of the pending records.
    pub closed spec fn buffered_bytes(self) -> int {
        self.buf@.len() as int
    }

    /// The writer's invariant: the buffer is exactly the serialization of
    /// the pending records, the counters agree, and a chunk's byte length
    /// always fits its 32-bit prefix.
    pub closed spec fn wf(self) -> bool {
        &&& self.buf@ == records_bytes(self.buffered@)
        &&& self.nrec == self.buffered@.len()
        &&& self.nrec <= self.capacity
        &&& self.capacity < u32::MAX
        &&& self.nchunks == self.chunks@.len()
        &&& 8 + self.buf@.len() <= u32::MAX
        &&& forall|i: int| 0 <= i < self.chunks@.len() ==> (#[trigger] self.chunks@[i]).len()
            == self.capacity + 1
    }

    /// Law (chunk boundary): a flush happens only once the in-chunk counter
    /// strictly exceeds the capacity, so every chunk ever handed out holds
    /// exactly capacity + 1 records, and the open buffer never holds more
    /// than capacity.
    pub proof fn lemma_chunk_boundary(self)
        requires
            self.wf(),
        ensures
            forall|i: int| 0 <= i < self.flushed().len() ==> (#[trigger] self.flushed()[i]).len()
                == self.cap() + 1,
            self.pending().len() <= self.cap(),
    {
    }

    /// The serialized size of the pending records, as the caller can read it.
    pub fn buffered_len(&self) -> (n: usize)
        ensures
            n == self.buffered_bytes(),
    {
        self.buf.len()
    }

    /// How many chunks have been handed out, as the caller can read it.
    pub fn chunks_out(&self) -> (n: u64)
        ensures
            n == self.chunk_count(),
    {
        self.nchunks
    }

    /// A fresh writer with nothing buffered and nothing flushed.
    pub fn new(capacity: u32) -> (w: ChunkWriter)
        requires
            capacity < u32::MAX,
        ensures
            w.wf(),
            w.pending() == Seq::<ReadRecordV>::empty(),
            w.flushed() == Seq::<Seq<ReadRecordV>>::empty(),
            w.cap() == capacity,
            w.chunk_count() == 0,
            w.buffered_bytes() == 0,
    {
        let w = ChunkWriter {
            buf: Vec::new(),
            nrec: 0,
            capacity,
            nchunks: 0,
            chunks: Ghost(Seq::empty()),
            buffered: Ghost(Seq::empty()),
        };
        proof {
            assert(records_bytes(w.buffered@) =~= Seq::<u8>::empty());
        }
        w
    }

    /// Appends one record and increments the in-chunk counter; hands the
    /// completed chunk out exactly when the counter strictly exceeds the
    /// capacity, so a chunk holds at most capacity + 1 records.
    pub fn push(&mut self, rec: &LogicalReadRecord) -> (r: Option<Vec<u8>>)
        requires
            old(self).wf(),
            old(self).buffered_bytes() + 12 + 4 * rec@.target_ids.len() + 8 <= u32::MAX,
            old(self).chunk_count() < u64::MAX,
        ensures
            final(self).wf(),
            final(self).cap() == old(self).cap(),
            ({
                let all = old(self).pending().push(rec@);
                if all.len() > old(self).cap() {
                    &&& r matches Some(c) && c@ == chunk_bytes(all)
                    &&& final(self).pending() == Seq::<ReadRecordV>::empty()
                    &&& final(self).flushed() == old(self).flushed().push(all)
                    &&& final(self).chunk_count() == old(self).chunk_count() + 1
                } else {
                    &&& r is None
                    &&& final(self).pending() == all
                    &&& final(self).flushed() == old(self).flushed()
                    &&& final(self).chunk_count() == old(self).chunk_count()
                }
            }),
    {
        proof {
            lemma_record_bytes_len(rec@);
        }
        append_record_bytes(&mut self.buf, rec);
        self.nrec = self.nrec + 1;
        proof {
            self.buffered@ = self.buffered@.push(rec@);
            assert(self.buf@ =~= records_bytes(self.buffered@)) by {
                assert(self.buffered@.drop_last() =~= old(self).buffered@);
            }
        }
        if self.nrec > self.capacity {
            let mut out: Vec<u8> = Vec::new();
            push_u32_le(&mut out, (self.buf.len() + 8) as u32);
            push_u32_le(&mut out, self.nrec);
            push_bytes(&mut out, self.buf.as_slice());
            proof {
                lemma_auto_spec_u32_to_from_le_bytes();
                assert(out@ =~= chunk_bytes(self.buffered@));
            }
            self.buf = Vec::new();
            self.nrec = 0;
            self.nchunks = self.nchunks + 1;
            proof {
                self.chunks@ = self.chunks@.push(self.buffered@);
                self.buffered@ = Seq::empty();
                assert(self.buf@ =~= records_bytes(self.buffered@));
            }
            Some(out)
        } else {
            None
        }
    }

    /// Emits whatever is buffered — the stream's last open record appended
    /// first, with no capacity check — as the final chunk, unconditionally,
    /// even empty, and reports the true total chunk count for the header
    /// patch.
    pub fn finish(self, last: Option<&LogicalReadRecord>) -> (r: (Vec<u8>, u64))
        requires
            self.wf(),
            self.chunk_count() < u64::MAX,
            last matches Some(rec) ==> self.buffered_bytes() + 12 + 4 * rec@.target_ids.len() + 8
                <= u32::MAX,
        ensures
            r.0@ == chunk_bytes(
                self.pending() + match last {
                    Option::Some(rec) => seq![rec@],
                    Option::None => Seq::<ReadRecordV>::empty(),
                },
            ),
            r.1 == self.chunk_count() + 1,
    {
        let mut this = self;
        let ghost pending0 = this.buffered@;
        let ghost tail = this.buffered@ + match last {
            Option::Some(rec) => seq![rec@],
            Option::None => Seq::<ReadRecordV>::empty(),
        };
        match last {
            Option::Some(rec) => {
                proof {
                    lemma_record_bytes_len(rec@);
                }
                append_record_bytes(&mut this.buf, rec);
                this.nrec = this.nrec + 1;
                proof {
                    this.buffered@ = this.buffered@.push(rec@);
                    assert(this.buf@ =~= records_bytes(this.buffered@)) by {
                        assert(this.buffered@.drop_last() =~= pending0);
                    }
                }
            },
            Option::None => {
                proof {
                    assert(this.buffered@ =~= tail);
                }
            },
        }
        let mut out: Vec<u8> = Vec::new();
        push_u32_le(&mut out, (this.buf.len() + 8) as u32);
        push_u32_le(&mut out, this.nrec);
        push_bytes(&mut out, this.buf.as_slice());
        proof {
            lemma_auto_spec_u32_to_from_le_bytes();
            assert(this.buffered@ =~= tail);
            assert(out@ =~= chunk_bytes(tail));
        }
        (out, this.nchunks + 1)
    }
}

} // verus!
