//! Decoding a chunk, and the round-trip guarantee.
//!
//! The consumer's side of the wire contract: a parser for one chunk, and the
//! proof that parsing the bytes the chunk writer produced reconstructs
//! exactly the logical read records that were fed in, in order. The wire
//! carries barcode and UMI in 32-bit slots, so the reconstruction is exact
//! for values that fit them — every packed string of at most 16 bases.

use vstd::prelude::*;
use vstd::bytes::{
    spec_u32_from_le_bytes, spec_u32_to_le_bytes, u32_from_le_bytes,
    lemma_auto_spec_u32_to_from_le_bytes,
};
use vstd::slice::slice_subrange;
use crate::chunk::chunk_bytes;
use crate::encoder::concat_recs;
use crate::record::{
    LogicalReadRecord, ReadRecordV, record_bytes, records_bytes, tid_list_bytes,
    lemma_record_bytes_len, lemma_tid_list_bytes_len,
};

verus! {

/// A record whose wire image loses nothing: barcode and UMI fit their
/// 32-bit slots, and the target count fits its 32-bit field.
pub open spec fn fits_wire(r: ReadRecordV) -> bool {
    &&& r.barcode <= u32::MAX
    &&& r.umi <= u32::MAX
    &&& r.target_ids.len() <= u32::MAX
}

/// Every record of the run fits the wire exactly.
pub open spec fn all_fit_wire(rs: Seq<ReadRecordV>) -> bool {
    forall|i: int| 0 <= i < rs.len() ==> fits_wire(#[trigger] rs[i])
}

/// Parses one record from the front of the bytes: its target count, the
/// record's value, and how many bytes it occupied.
pub open spec fn parse_record(bytes: Seq<u8>) -> Option<(ReadRecordV, int)> {
    if bytes.len() < 12 {
        Option::None
    } else {
        let nt = spec_u32_from_le_bytes(bytes.subrange(0, 4)) as int;
        if bytes.len() < 12 + 4 * nt {
            Option::None
        } else {
            Option::Some(
                (
                    ReadRecordV {
                        barcode: spec_u32_from_le_bytes(bytes.subrange(4, 8)) as u64,
                        umi: spec_u32_from_le_bytes(bytes.subrange(8, 12)) as u64,
                        target_ids: Seq::new(
                            nt as nat,
                            |i: int| spec_u32_from_le_bytes(
                                bytes.subrange(12 + 4 * i, 16 + 4 * i),
                            ),
                        ),
                    },
                    12 + 4 * nt,
                ),
            )
        }
    }
}

/// Parses exactly n records, consuming all the bytes.
pub open spec fn parse_records(bytes: Seq<u8>, n: int) -> Option<Seq<ReadRecordV>>
    decreases n,
{
    if n <= 0 {
        if n == 0 && bytes.len() == 0 {
            Option::Some(Seq::empty())
        } else {
            Option::None
        }
    } else {
        match parse_record(bytes) {
            Option::None => Option::None,
            Option::Some((r, used)) => match parse_records(bytes.skip(used), n - 1) {
                Option::None => Option::None,
                Option::Some(rest) => Option::Some(seq![r] + rest),
            },
        }
    }
}

/// Parses one whole chunk: its byte length must be exact, and its record
/// count must account for every byte after the prefix.
pub open spec fn parse_chunk(bytes: Seq<u8>) -> Option<Seq<ReadRecordV>> {
    if bytes.len() < 8 {
        Option::None
    } else {
        let blen = spec_u32_from_le_bytes(bytes.subrange(0, 4)) as int;
        let n = spec_u32_from_le_bytes(bytes.subrange(4, 8)) as int;
        if blen != bytes.len() {
            Option::None
        } else {
            parse_records(bytes.skip(8), n)
        }
    }
}

/// The record values of a run of decoded records.
pub open spec fn views_of(v: Seq<LogicalReadRecord>) -> Seq<ReadRecordV> {
    Seq::new(v.len(), |i: int| v[i]@)
}

/// Decodes one chunk, exactly as `parse_chunk` reads it: the records when
/// the bytes are a well-formed chunk, nothing otherwise.
#[verifier::loop_isolation(false)]
pub fn decode_chunk(bytes: &[u8]) -> (r: Option<Vec<LogicalReadRecord>>)
    ensures
        r is Some <==> parse_chunk(bytes@) is Some,
        r matches Some(v) ==> parse_chunk(bytes@) == Option::Some(views_of(v@)),
{
    if bytes.len() < 8 {
        return None;
    }
    let blen = u32_from_le_bytes(slice_subrange(bytes, 0, 4));
    let n = u32_from_le_bytes(slice_subrange(bytes, 4, 8));
    if blen as usize != bytes.len() {
        return None;
    }
    let mut out: Vec<LogicalReadRecord> = Vec::new();
    let mut pos: usize = 8;
    let mut k: u32 = 0;
    proof {
        assert(bytes@.skip(8) =~= bytes@.skip(pos as int));
        assert(views_of(out@) =~= Seq::<ReadRecordV>::empty());
    }
    while k < n
        invariant
            8 <= pos <= bytes@.len(),
            k <= n,
            match parse_records(bytes@.skip(pos as int), n - k) {
                Option::None => parse_records(bytes@.skip(8), n as int) is None,
                Option::Some(rest) => parse_records(bytes@.skip(8), n as int) == Option::Some(
                    views_of(out@) + rest,
                ),
            },
        decreases n - k,
    {
        let ghost sp = bytes@.skip(pos as int);
        if bytes.len() - pos < 12 {
            proof {
                assert(parse_record(sp) is None);
            }
            return None;
        }
        let nt = u32_from_le_bytes(slice_subrange(bytes, pos, pos + 4));
        proof {
            assert(sp.subrange(0, 4) =~= bytes@.subrange(pos as int, pos as int + 4));
        }
        if ((bytes.len() - pos - 12) as u64) < 4 * (nt as u64) {
            proof {
                assert(parse_record(sp) is None);
            }
            return None;
        }
        let ntu = nt as usize;
        let barcode = u32_from_le_bytes(slice_subrange(bytes, pos + 4, pos + 8)) as u64;
        let umi = u32_from_le_bytes(slice_subrange(bytes, pos + 8, pos + 12)) as u64;
        proof {
            assert(sp.subrange(4, 8) =~= bytes@.subrange(pos as int + 4, pos as int + 8));
            assert(sp.subrange(8, 12) =~= bytes@.subrange(pos as int + 8, pos as int + 12));
        }
        let mut tids: Vec<u32> = Vec::new();
        let mut j: usize = 0;
        while j < ntu
            invariant
                j <= ntu,
                tids@.len() == j,
                forall|jj: int| 0 <= jj < j ==> tids@[jj] == spec_u32_from_le_bytes(
                    #[trigger] bytes@.subrange(
                        pos as int + 12 + 4 * jj,
                        pos as int + 16 + 4 * jj,
                    ),
                ),
            decreases ntu - j,
        {
            let t = u32_from_le_bytes(slice_subrange(bytes, pos + 12 + 4 * j, pos + 16 + 4 * j));
            tids.push(t);
            j = j + 1;
        }
        let rec = LogicalReadRecord { barcode, umi, target_ids: tids };
        proof {
            assert forall|i: int| 0 <= i < nt implies #[trigger] sp.subrange(12 + 4 * i, 16 + 4 * i)
                =~= bytes@.subrange(pos as int + 12 + 4 * i, pos as int + 16 + 4 * i) by {}
            assert(rec@.target_ids =~= Seq::new(
                nt as nat,
                |i: int| spec_u32_from_le_bytes(sp.subrange(12 + 4 * i, 16 + 4 * i)),
            ));
            assert(parse_record(sp) == Option::Some((rec@, 12 + 4 * nt as int)));
        }
        let ghost out0 = out@;
        let ghost pos0 = pos as int;
        out.push(rec);
        pos = pos + 12 + 4 * ntu;
        k = k + 1;
        proof {
            assert(bytes@.skip(pos0).skip(12 + 4 * nt as int) =~= bytes@.skip(pos as int));
            assert(views_of(out@) =~= views_of(out0) + seq![rec@]);
            match parse_records(bytes@.skip(pos as int), n - k) {
                Option::None => {},
                Option::Some(rest) => {
                    assert(views_of(out0) + (seq![rec@] + rest) =~= views_of(out@) + rest);
                },
            }
        }
    }
    if pos != bytes.len() {
        proof {
            assert(bytes@.skip(pos as int).len() > 0);
        }
        return None;
    }
    proof {
        assert(bytes@.skip(pos as int).len() == 0);
        assert(views_of(out@) + Seq::<ReadRecordV>::empty() =~= views_of(out@));
        assert(bytes@.subrange(0, 4) =~= bytes@.skip(0).subrange(0, 4));
    }
    Some(out)
}

/// A run of records serializes first record first.
pub proof fn lemma_records_bytes_first(rs: Seq<ReadRecordV>)
    requires
        rs.len() > 0,
    ensures
        records_bytes(rs) == record_bytes(rs.first()) + records_bytes(rs.drop_first()),
    decreases rs.len(),
{
    if rs.len() == 1 {
        assert(rs.drop_last() =~= Seq::<ReadRecordV>::empty());
        assert(rs.drop_first() =~= Seq::<ReadRecordV>::empty());
        assert(rs.last() == rs.first());
        assert(records_bytes(rs) =~= record_bytes(rs.first()) + records_bytes(rs.drop_first()));
    } else {
        lemma_records_bytes_first(rs.drop_last());
        assert(rs.drop_last().first() == rs.first());
        assert(rs.drop_first().drop_last() =~= rs.drop_last().drop_first());
        assert(rs.drop_first().last() == rs.last());
        assert(records_bytes(rs) =~= record_bytes(rs.first()) + records_bytes(rs.drop_first()));
    }
}

/// Each target id sits at its own 4-byte slot of the serialized list.
pub proof fn lemma_tid_list_bytes_index(tids: Seq<u32>, i: int)
    requires
        0 <= i < tids.len(),
    ensures
        tid_list_bytes(tids).subrange(4 * i, 4 * i + 4) == spec_u32_to_le_bytes(tids[i]),
    decreases tids.len(),
{
    lemma_auto_spec_u32_to_from_le_bytes();
    lemma_tid_list_bytes_len(tids);
    if i == tids.len() - 1 {
        lemma_tid_list_bytes_len(tids.drop_last());
        assert(tid_list_bytes(tids).subrange(4 * i, 4 * i + 4) =~= spec_u32_to_le_bytes(
            tids[i],
        ));
    } else {
        lemma_tid_list_bytes_index(tids.drop_last(), i);
        lemma_tid_list_bytes_len(tids.drop_last());
        assert(tid_list_bytes(tids).subrange(4 * i, 4 * i + 4) =~= tid_list_bytes(
            tids.drop_last(),
        ).subrange(4 * i, 4 * i + 4));
    }
}

/// Parsing the front of a serialized record — whatever follows it —
/// reconstructs the record and consumes exactly its bytes.
pub proof fn lemma_parse_record_prefix(r: ReadRecordV, tail: Seq<u8>)
    requires
        fits_wire(r),
    ensures
        parse_record(record_bytes(r) + tail) == Option::Some(
            (r, 12 + 4 * r.target_ids.len() as int),
        ),
{
    lemma_auto_spec_u32_to_from_le_bytes();
    lemma_record_bytes_len(r);
    lemma_tid_list_bytes_len(r.target_ids);
    let b = record_bytes(r) + tail;
    let nlen = r.target_ids.len() as int;
    assert(b.subrange(0, 4) =~= spec_u32_to_le_bytes(r.target_ids.len() as u32));
    assert(b.subrange(4, 8) =~= spec_u32_to_le_bytes(r.barcode as u32));
    assert(b.subrange(8, 12) =~= spec_u32_to_le_bytes(r.umi as u32));
    assert(spec_u32_from_le_bytes(b.subrange(0, 4)) as int == nlen);
    let (pr, used) = parse_record(b)->Some_0;
    assert forall|i: int| 0 <= i < nlen implies spec_u32_from_le_bytes(
        b.subrange(12 + 4 * i, 16 + 4 * i),
    ) == r.target_ids[i] by {
        lemma_tid_list_bytes_index(r.target_ids, i);
        assert(b.subrange(12 + 4 * i, 16 + 4 * i) =~= tid_list_bytes(r.target_ids).subrange(
            4 * i,
            4 * i + 4,
        ));
    }
    assert(pr.target_ids =~= r.target_ids);
    assert((r.barcode as u32) as u64 == r.barcode);
    assert((r.umi as u32) as u64 == r.umi);
}

/// Law (round trip, record level): parsing the serialization of any run of
/// wire-exact records yields that run back, record for record, in order.
pub proof fn lemma_parse_records_round_trip(rs: Seq<ReadRecordV>)
    requires
        all_fit_wire(rs),
    ensures
        parse_records(records_bytes(rs), rs.len() as int) == Option::Some(rs),
    decreases rs.len(),
{
    if rs.len() == 0 {
        assert(records_bytes(rs).len() == 0);
        assert(parse_records(records_bytes(rs), 0)->Some_0 =~= rs);
    } else {
        let r0 = rs.first();
        let rest = rs.drop_first();
        lemma_records_bytes_first(rs);
        lemma_parse_record_prefix(r0, records_bytes(rest));
        lemma_record_bytes_len(r0);
        let b = records_bytes(rs);
        let used = 12 + 4 * r0.target_ids.len() as int;
        assert(b.skip(used) =~= records_bytes(rest));
        assert(all_fit_wire(rest)) by {
            assert(forall|i: int| 0 <= i < rest.len() ==> rest[i] == rs[i + 1]);
        }
        lemma_parse_records_round_trip(rest);
        assert(seq![r0] + rest =~= rs);
    }
}

/// Law (round trip, chunk level): parsing a chunk the writer produced
/// reconstructs exactly the logical read records it was fed, in their
/// original order — and so, in particular, the same multiset of
/// (barcode, umi, target ids) tuples.
pub proof fn lemma_chunk_round_trip(rs: Seq<ReadRecordV>)
    requires
        all_fit_wire(rs),
        rs.len() <= u32::MAX,
        8 + records_bytes(rs).len() <= u32::MAX,
    ensures
        parse_chunk(chunk_bytes(rs)) == Option::Some(rs),
{
    lemma_auto_spec_u32_to_from_le_bytes();
    let b = chunk_bytes(rs);
    assert(b.subrange(0, 4) =~= spec_u32_to_le_bytes((8 + records_bytes(rs).len()) as u32));
    assert(b.subrange(4, 8) =~= spec_u32_to_le_bytes(rs.len() as u32));
    assert(b.skip(8) =~= records_bytes(rs));
    lemma_parse_records_round_trip(rs);
}

/// Parses a whole run of chunks: every record of every chunk, in order;
/// nothing if any chunk is malformed.
pub open spec fn parse_chunk_stream(bss: Seq<Seq<u8>>) -> Option<Seq<ReadRecordV>>
    decreases bss.len(),
{
    if bss.len() == 0 {
        Option::Some(Seq::empty())
    } else {
        match parse_chunk_stream(bss.drop_last()) {
            Option::None => Option::None,
            Option::Some(front) => match parse_chunk(bss.last()) {
                Option::None => Option::None,
                Option::Some(last) => Option::Some(front + last),
            },
        }
    }
}

/// Every chunk of the run fits its 32-bit prefixes.
pub open spec fn all_chunks_fit(css: Seq<Seq<ReadRecordV>>) -> bool {
    forall|i: int| 0 <= i < css.len() ==> {
        &&& all_fit_wire(#[trigger] css[i])
        &&& css[i].len() <= u32::MAX
        &&& 8 + records_bytes(css[i]).len() <= u32::MAX
    }
}

/// Law (round trip, stream level): decoding every chunk a run produced, in
/// order, reconstructs exactly the logical read records that went into the
/// chunks — the same tuples, in their original order, each from exactly one
/// chunk.
pub proof fn lemma_stream_round_trip(css: Seq<Seq<ReadRecordV>>)
    requires
        all_chunks_fit(css),
    ensures
        parse_chunk_stream(Seq::new(css.len(), |i: int| chunk_bytes(css[i]))) == Option::Some(
            concat_recs(css),
        ),
    decreases css.len(),
{
    let bss = Seq::new(css.len(), |i: int| chunk_bytes(css[i]));
    if css.len() == 0 {
        assert(parse_chunk_stream(bss)->Some_0 =~= concat_recs(css));
    } else {
        let front = css.drop_last();
        assert(all_chunks_fit(front)) by {
            assert(forall|i: int| 0 <= i < front.len() ==> front[i] == css[i]);
        }
        lemma_stream_round_trip(front);
        assert(bss.drop_last() =~= Seq::new(front.len(), |i: int| chunk_bytes(front[i])));
        assert(bss.last() == chunk_bytes(css.last()));
        lemma_chunk_round_trip(css.last());
    }
}

} // verus!
