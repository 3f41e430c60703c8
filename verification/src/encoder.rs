//! The complete encoder: header, aggregation, chunking, finalization.
//!
//! One sequential pass. The first record fixes the barcode/UMI widths and
//! yields the header together with the offset of its chunk-count
//! placeholder. Each fed record runs one aggregator step; an emitted logical
//! read record goes to the chunk writer, which may hand a completed chunk
//! back. Finishing emits the tail chunk unconditionally and reports the true
//! chunk count, to be written back at the recorded offset — the caller owns
//! the backing store and performs that single seek-and-patch.

use vstd::prelude::*;
use crate::aggregate::{
    AggStateV, Aggregator, agg_err_ok, agg_run, agg_step, emit_of, emit_seq, logical_records,
};
use crate::chunk::{ChunkWriter, chunk_bytes};
use crate::error::{ConfigError, DecodeError, RadError};
use crate::record::{AlnRecord, AlnRecordV, ReadRecordV};
use crate::schema::{build_header, header_bytes, spec_chunk_count_offset, supported_tag_len};

verus! {

/// The records of a run of chunks, concatenated in order.
pub open spec fn concat_recs(cs: Seq<Seq<ReadRecordV>>) -> Seq<ReadRecordV>
    decreases cs.len(),
{
    if cs.len() == 0 {
        Seq::empty()
    } else {
        concat_recs(cs.drop_last()) + cs.last()
    }
}

/// The streaming encoder: aggregator state plus chunk writer, with the
/// record stream it has consumed so far as its ghost history.
pub struct RadEncoder {
    agg: Aggregator,
    writer: ChunkWriter,
    fed: Ghost<Seq<AlnRecordV>>,
}

impl RadEncoder {
    /// Every input record fed so far, in order.
    pub closed spec fn fed(self) -> Seq<AlnRecordV> {
        self.fed@
    }

    /// The records of each chunk already handed out, in order.
    pub closed spec fn flushed(self) -> Seq<Seq<ReadRecordV>> {
        self.writer.flushed()
    }

    /// The records buffered for the chunk under construction.
    pub closed spec fn pending(self) -> Seq<ReadRecordV> {
        self.writer.pending()
    }

    /// How many chunks have been handed out.
    pub closed spec fn chunk_count(self) -> u64 {
        self.writer.chunk_count()
    }

    /// The configured chunk capacity.
    pub closed spec fn cap(self) -> u32 {
        self.writer.cap()
    }

    /// The serialized size of the records buffered so far.
    pub closed spec fn buffered_bytes(self) -> int {
        self.writer.buffered_bytes()
    }

    /// The serialized size of the record the open read would emit; zero
    /// when no read is open.
    pub closed spec fn open_record_bytes(self) -> int {
        match self.agg.state_v() {
            AggStateV::AwaitingFirst => 0,
            AggStateV::Accumulating { target_ids, .. } => 12 + 4 * target_ids.len() as int,
        }
    }

    /// The encoder's invariant: no fatal record seen, the aggregator state
    /// is the run over the fed records, and every emitted logical record
    /// sits in exactly one place — a flushed chunk or the open buffer.
    pub closed spec fn wf(self) -> bool {
        &&& self.agg.wf()
        &&& self.writer.wf()
        &&& !agg_run(self.fed@).fatal
        &&& agg_run(self.fed@).state == self.agg.state_v()
        &&& concat_recs(self.writer.flushed()) + self.writer.pending() == agg_run(self.fed@).emits
    }

    /// The records the tail chunk will hold: the buffered ones, then the
    /// final open read.
    pub open spec fn tail_records(self) -> Seq<ReadRecordV> {
        self.pending() + emit_seq(emit_of(agg_run(self.fed()).state))
    }

    /// Law (chunk boundary): every chunk the encoder has handed out holds
    /// exactly capacity + 1 records — a flush triggers only once the
    /// in-chunk counter strictly exceeds the capacity — and the buffered
    /// tail never exceeds the capacity.
    pub proof fn lemma_chunk_boundary(self)
        requires
            self.wf(),
        ensures
            forall|i: int| 0 <= i < self.flushed().len() ==> (#[trigger] self.flushed()[i]).len()
                == self.cap() + 1,
            self.pending().len() <= self.cap(),
    {
        self.writer.lemma_chunk_boundary();
    }

    /// Whether one more record can be fed without the chunk's byte length
    /// outgrowing its 32-bit prefix — true in any realistic run.
    pub fn can_accept(&self) -> (b: bool)
        ensures
            b == (self.buffered_bytes() + self.open_record_bytes() + 8 <= u32::MAX),
    {
        let buffered = self.writer.buffered_len();
        if buffered > (u32::MAX - 8) as usize {
            return false;
        }
        let open_bytes: u64 = if self.agg.is_open() {
            let count = self.agg.open_target_count();
            if count > 0x4000_0000 {
                return false;
            }
            12 + 4 * (count as u64)
        } else {
            0
        };
        (buffered as u64) + open_bytes + 8 <= u32::MAX as u64
    }

    /// How many chunks have been handed out so far.
    pub fn chunks_written(&self) -> (n: u64)
        ensures
            n == self.chunk_count(),
    {
        self.writer.chunks_out()
    }

    /// Starts an encoding run. The schema needs an example record: none at
    /// all is a configuration error, as is a barcode or UMI outside 1..=32
    /// bases. On success: the encoder, the header bytes, and the offset of
    /// the chunk-count placeholder inside them.
    pub fn new(target_names: &Vec<Vec<u8>>, first: Option<&AlnRecord>, capacity: u32) -> (r:
        Result<(RadEncoder, Vec<u8>, usize), RadError>)
        requires
            capacity < u32::MAX,
            forall|i: int| 0 <= i < target_names@.len() ==> #[trigger] target_names@[i]@.len()
                <= u16::MAX,
            first matches Some(f) ==> f@.barcode.len() <= u16::MAX && f@.umi.len() <= u16::MAX,
        ensures
            first is None ==> r == Err::<(RadEncoder, Vec<u8>, usize), RadError>(
                RadError::Config(ConfigError::NoRecords),
            ),
            first matches Some(f) ==> ({
                let barcode_len = f@.barcode.len() as u16;
                let umi_len = f@.umi.len() as u16;
                &&& !supported_tag_len(barcode_len) ==> r == Err::<
                    (RadEncoder, Vec<u8>, usize),
                    RadError,
                >(RadError::Config(ConfigError::BarcodeLength(barcode_len)))
                &&& supported_tag_len(barcode_len) && !supported_tag_len(umi_len) ==> r == Err::<
                    (RadEncoder, Vec<u8>, usize),
                    RadError,
                >(RadError::Config(ConfigError::UmiLength(umi_len)))
                &&& (supported_tag_len(barcode_len) && supported_tag_len(umi_len)) <==> r is Ok
                &&& supported_tag_len(barcode_len) && supported_tag_len(umi_len) ==> (r matches Ok(
                    t,
                ) && {
                    &&& t.1@ == header_bytes(target_names.deep_view(), barcode_len, umi_len)
                    &&& t.2 == spec_chunk_count_offset(target_names.deep_view())
                    &&& t.0.wf()
                    &&& t.0.fed() == Seq::<AlnRecordV>::empty()
                    &&& t.0.cap() == capacity
                    &&& t.0.flushed() == Seq::<Seq<ReadRecordV>>::empty()
                    &&& t.0.pending() == Seq::<ReadRecordV>::empty()
                    &&& t.0.chunk_count() == 0
                    &&& t.0.buffered_bytes() == 0
                    &&& t.0.open_record_bytes() == 0
                })
            }),
            first is None ==> !(r is Ok),
    {
        let f = match first {
            Option::Some(f) => f,
            Option::None => {
                return Err(RadError::Config(ConfigError::NoRecords));
            },
        };
        let barcode_len = f.barcode.len() as u16;
        let umi_len = f.umi.len() as u16;
        let (header, offset) = match build_header(target_names, barcode_len, umi_len) {
            Ok(h) => h,
            Err(e) => {
                return Err(RadError::Config(e));
            },
        };
        let enc = RadEncoder {
            agg: Aggregator::new(),
            writer: ChunkWriter::new(capacity),
            fed: Ghost(Seq::empty()),
        };
        proof {
            assert(concat_recs(enc.writer.flushed()) + enc.writer.pending() =~= agg_run(
                enc.fed@,
            ).emits);
        }
        Ok((enc, header, offset))
    }

    /// Feeds one input record: one aggregator step, and the completed chunk
    /// if the step's emission made the in-chunk counter strictly exceed the
    /// capacity. A malformed tag is fatal; the run stops there.
    pub fn feed(&mut self, rec: &AlnRecord) -> (r: Result<Option<Vec<u8>>, DecodeError>)
        requires
            old(self).wf(),
            rec@.tid < 0x8000_0000,
            rec@.barcode.len() <= 32,
            rec@.umi.len() <= 32,
            old(self).buffered_bytes() + old(self).open_record_bytes() + 8 <= u32::MAX,
            old(self).chunk_count() < u64::MAX,
        ensures
            final(self).fed() == old(self).fed() + seq![rec@],
            final(self).cap() == old(self).cap(),
            r is Ok <==> !agg_run(final(self).fed()).fatal,
            r is Ok ==> final(self).wf(),
            r is Err ==> agg_err_ok(rec@, r->Err_0),
            r is Ok ==> ({
                let emit = agg_step(agg_run(old(self).fed()).state, rec@).emit;
                match emit {
                    Option::None => {
                        &&& r->Ok_0 is None
                        &&& final(self).pending() == old(self).pending()
                        &&& final(self).flushed() == old(self).flushed()
                        &&& final(self).chunk_count() == old(self).chunk_count()
                    },
                    Option::Some(e) => ({
                        let all = old(self).pending().push(e);
                        if all.len() > old(self).cap() {
                            &&& r->Ok_0 matches Some(c) && c@ == chunk_bytes(all)
                            &&& final(self).pending() == Seq::<ReadRecordV>::empty()
                            &&& final(self).flushed() == old(self).flushed().push(all)
                            &&& final(self).chunk_count() == old(self).chunk_count() + 1
                        } else {
                            &&& r->Ok_0 is None
                            &&& final(self).pending() == all
                            &&& final(self).flushed() == old(self).flushed()
                            &&& final(self).chunk_count() == old(self).chunk_count()
                        }
                    }),
                }
            }),
    {
        let ghost fed0 = self.fed@;
        let ghost fed1 = self.fed@ + seq![rec@];
        proof {
            self.fed@ = fed1;
            assert(fed1.drop_last() =~= fed0);
            assert(fed1.last() == rec@);
        }
        let emitted = match self.agg.observe(rec) {
            Ok(o) => o,
            Err(e) => {
                return Err(e);
            },
        };
        match emitted {
            Option::None => {
                proof {
                    assert(agg_run(fed1).emits =~= agg_run(fed0).emits);
                }
                Ok(None)
            },
            Option::Some(lrec) => {
                proof {
                    assert(agg_run(fed1).emits =~= agg_run(fed0).emits + seq![lrec@]);
                }
                let out = self.writer.push(&lrec);
                proof {
                    let all = old(self).writer.pending().push(lrec@);
                    if all.len() > old(self).writer.cap() {
                        assert(self.writer.flushed().drop_last() =~= old(self).writer.flushed());
                        assert(concat_recs(self.writer.flushed()) + self.writer.pending() =~= (
                        concat_recs(old(self).writer.flushed()) + old(self).writer.pending())
                            + seq![lrec@]);
                    } else {
                        assert(concat_recs(self.writer.flushed()) + self.writer.pending() =~= (
                        concat_recs(old(self).writer.flushed()) + old(self).writer.pending())
                            + seq![lrec@]);
                    }
                }
                Ok(out)
            },
        }
    }

    /// Ends the run: the tail chunk — the buffered records plus the final
    /// open read, emitted unconditionally, even empty — and the true total
    /// chunk count, which belongs at the recorded header offset. Together
    /// the handed-out chunks hold every logical read record of the fed
    /// stream, in order, each in exactly one chunk.
    pub fn finish(self) -> (r: (Vec<u8>, u64))
        requires
            self.wf(),
            self.chunk_count() < u64::MAX,
            self.buffered_bytes() + self.open_record_bytes() + 8 <= u32::MAX,
        ensures
            r.0@ == chunk_bytes(self.tail_records()),
            concat_recs(self.flushed()) + self.tail_records() == logical_records(self.fed()),
            r.1 == self.chunk_count() + 1,
    {
        let ghost me = self;
        let RadEncoder { agg, writer, fed } = self;
        let last = agg.finish();
        let (tail, count) = match last {
            Option::Some(lrec) => {
                proof {
                    assert(writer.pending() + emit_seq(emit_of(agg_run(fed@).state)) =~= writer
                        .pending().push(lrec@));
                }
                writer.finish(Some(&lrec))
            },
            Option::None => {
                proof {
                    assert(writer.pending() + emit_seq(emit_of(agg_run(fed@).state)) =~= writer
                        .pending());
                }
                writer.finish(None)
            },
        };
        proof {
            assert(concat_recs(me.flushed()) + me.tail_records() =~= logical_records(me.fed()));
        }
        (tail, count)
    }
}

} // verus!

