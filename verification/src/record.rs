//! Alignment records, logical read records, and their wire serialization.
//!
//! A logical read record collapses all alignments that share one read
//! identifier. On the wire it is the count of its target ids, the packed
//! barcode and UMI — always in 32-bit slots, whatever semantic width the
//! catalog declares — and then the compressed target ids, all little-endian.

use vstd::prelude::*;
use vstd::bytes::{spec_u32_to_le_bytes, lemma_auto_spec_u32_to_from_le_bytes};
use crate::schema::push_u32_le;

verus! {

/// One already-decoded alignment record, as the alignment-container
/// collaborator hands it over: read identifier, mapped target id, strand,
/// and the two nucleotide tag strings.
pub struct AlnRecord {
    /// The read identifier the input stream is grouped by.
    pub qname: Vec<u8>,
    /// The mapped target id; valid ids stay below 2^31.
    pub tid: u32,
    /// True when the alignment is on the reverse strand.
    pub is_reverse: bool,
    /// The cell-barcode nucleotide string.
    pub barcode: Vec<u8>,
    /// The UMI nucleotide string.
    pub umi: Vec<u8>,
}

/// The mathematical value of an alignment record.
pub ghost struct AlnRecordV {
    pub qname: Seq<u8>,
    pub tid: u32,
    pub is_reverse: bool,
    pub barcode: Seq<u8>,
    pub umi: Seq<u8>,
}

impl View for AlnRecord {
    type V = AlnRecordV;

    open spec fn view(&self) -> AlnRecordV {
        AlnRecordV {
            qname: self.qname@,
            tid: self.tid,
            is_reverse: self.is_reverse,
            barcode: self.barcode@,
            umi: self.umi@,
        }
    }
}

/// The aggregated representation of all alignments sharing one read
/// identifier: packed barcode, packed UMI, and the compressed target ids
/// in arrival order.
pub struct LogicalReadRecord {
    /// The packed barcode; the wire carries its low 32 bits.
    pub barcode: u64,
    /// The packed UMI; the wire carries its low 32 bits.
    pub umi: u64,
    /// The strand-tagged target ids, never empty when emitted.
    pub target_ids: Vec<u32>,
}

/// The mathematical value of a logical read record.
pub ghost struct ReadRecordV {
    pub barcode: u64,
    pub umi: u64,
    pub target_ids: Seq<u32>,
}

impl View for LogicalReadRecord {
    type V = ReadRecordV;

    open spec fn view(&self) -> ReadRecordV {
        ReadRecordV { barcode: self.barcode, umi: self.umi, target_ids: self.target_ids@ }
    }
}

/// The strand-tagged form of a target id: the top bit set on the forward
/// strand, clear on the reverse strand.
pub open spec fn spec_compress_tid(tid: u32, is_reverse: bool) -> u32
    recommends
        tid < 0x8000_0000,
{
    if is_reverse {
        tid
    } else {
        (tid + 0x8000_0000) as u32
    }
}

/// Folds the strand into the target id's top bit, valid because target
/// counts stay far below 2^31.
pub fn compress_tid(tid: u32, is_reverse: bool) -> (r: u32)
    requires
        tid < 0x8000_0000,
    ensures
        r == spec_compress_tid(tid, is_reverse),
        is_reverse ==> r == tid,
        !is_reverse ==> r == tid + 0x8000_0000,
{
    if is_reverse {
        tid
    } else {
        proof {
            assert((tid | 0x8000_0000u32) == tid + 0x8000_0000u32) by (bit_vector)
                requires
                    tid < 0x8000_0000u32,
            ;
        }
        tid | 0x8000_0000
    }
}

/// The serialized target-id list: each id as 4 little-endian bytes.
pub open spec fn tid_list_bytes(tids: Seq<u32>) -> Seq<u8>
    decreases tids.len(),
{
    if tids.len() == 0 {
        Seq::empty()
    } else {
        tid_list_bytes(tids.drop_last()) + spec_u32_to_le_bytes(tids.last())
    }
}

pub proof fn lemma_tid_list_bytes_len(tids: Seq<u32>)
    ensures
        tid_list_bytes(tids).len() == 4 * tids.len(),
    decreases tids.len(),
{
    lemma_auto_spec_u32_to_from_le_bytes();
    if tids.len() > 0 {
        lemma_tid_list_bytes_len(tids.drop_last());
    }
}

/// One record on the wire: target count, barcode, UMI — each a 32-bit slot,
/// the packed values truncated to their low 32 bits by design — then the
/// target ids.
pub open spec fn record_bytes(r: ReadRecordV) -> Seq<u8>
    recommends
        r.target_ids.len() <= u32::MAX,
{
    spec_u32_to_le_bytes(r.target_ids.len() as u32) + spec_u32_to_le_bytes(r.barcode as u32)
        + spec_u32_to_le_bytes(r.umi as u32) + tid_list_bytes(r.target_ids)
}

pub proof fn lemma_record_bytes_len(r: ReadRecordV)
    ensures
        record_bytes(r).len() == 12 + 4 * r.target_ids.len(),
{
    lemma_auto_spec_u32_to_from_le_bytes();
    lemma_tid_list_bytes_len(r.target_ids);
}

/// A run of records on the wire, in order.
pub open spec fn records_bytes(rs: Seq<ReadRecordV>) -> Seq<u8>
    decreases rs.len(),
{
    if rs.len() == 0 {
        Seq::empty()
    } else {
        records_bytes(rs.drop_last()) + record_bytes(rs.last())
    }
}

/// Serializes one logical read record into the buffer.
pub fn append_record_bytes(data: &mut Vec<u8>, r: &LogicalReadRecord)
    requires
        r@.target_ids.len() <= u32::MAX,
    ensures
        final(data)@ == old(data)@ + record_bytes(r@),
{
    push_u32_le(data, r.target_ids.len() as u32);
    push_u32_le(data, #[verifier::truncate] (r.barcode as u32));
    push_u32_le(data, #[verifier::truncate] (r.umi as u32));
    let ghost entry = data@;
    let n = r.target_ids.len();
    let mut i: usize = 0;
    proof {
        assert(entry + tid_list_bytes(r@.target_ids.take(0)) =~= entry);
    }
    while i < n
        invariant
            n == r@.target_ids.len(),
            i <= n,
            data@ == entry + tid_list_bytes(r@.target_ids.take(i as int)),
        decreases n - i,
    {
        push_u32_le(data, r.target_ids[i]);
        proof {
            assert(r@.target_ids.take(i as int + 1).drop_last() =~= r@.target_ids.take(i as int));
            assert(data@ =~= entry + tid_list_bytes(r@.target_ids.take(i as int + 1)));
        }
        i = i + 1;
    }
    proof {
        assert(r@.target_ids.take(n as int) =~= r@.target_ids);
        assert(data@ =~= old(data)@ + record_bytes(r@));
    }
}

} // verus!
