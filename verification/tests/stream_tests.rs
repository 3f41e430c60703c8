use arms::chunk::ChunkWriter;
use arms::decode::decode_chunk;
use arms::encoder::RadEncoder;
use arms::error::DecodeError;
use arms::record::{AlnRecord, LogicalReadRecord, compress_tid};

fn rec(qname: &[u8], tid: u32, is_reverse: bool, barcode: &[u8], umi: &[u8]) -> AlnRecord {
    AlnRecord {
        qname: qname.to_vec(),
        tid,
        is_reverse,
        barcode: barcode.to_vec(),
        umi: umi.to_vec(),
    }
}

fn names() -> Vec<Vec<u8>> {
    vec![b"txp1".to_vec(), b"txp2".to_vec()]
}

#[test]
fn strand_folds_into_top_bit() {
    // forward alignment to target 5 carries the strand bit; reverse does not
    assert_eq!(compress_tid(5, false), 5 | 0x8000_0000);
    assert_eq!(compress_tid(5, false), 0x8000_0005);
    assert_eq!(compress_tid(5, true), 5);
}

#[test]
fn grouping_collapses_consecutive_records() {
    let inputs = vec![
        rec(b"r1", 3, true, b"ACGT", b"TTTT"),
        rec(b"r1", 7, false, b"ACGT", b"TTTT"),
        rec(b"r2", 1, true, b"AAAA", b"CCCC"),
    ];
    let first = &inputs[0];
    let (mut enc, _header, _offset) = RadEncoder::new(&names(), Some(first), 10000).unwrap();
    for r in &inputs {
        assert!(enc.can_accept());
        let out = enc.feed(r).unwrap();
        assert!(out.is_none());
    }
    let (tail, count) = enc.finish();
    assert_eq!(count, 1);
    let recs = decode_chunk(&tail).unwrap();
    assert_eq!(recs.len(), 2);
    // exactly one logical record for read r1, in arrival order
    assert_eq!(recs[0].barcode, 0b00011011); // ACGT
    assert_eq!(recs[0].umi, 255); // TTTT
    assert_eq!(recs[0].target_ids, vec![3, 7 | 0x8000_0000]);
    assert_eq!(recs[1].barcode, 0); // AAAA
    assert_eq!(recs[1].umi, 0b01010101); // CCCC
    assert_eq!(recs[1].target_ids, vec![1]);
}

#[test]
fn double_ambiguous_record_is_skipped_and_pipeline_continues() {
    let inputs = vec![
        rec(b"r1", 5, false, b"ANNG", b"AAAA"),
        rec(b"r2", 6, true, b"ACGT", b"AAAA"),
    ];
    let (mut enc, _h, _o) = RadEncoder::new(&names(), Some(&inputs[0]), 10000).unwrap();
    for r in &inputs {
        assert!(enc.can_accept());
        assert!(enc.feed(r).unwrap().is_none());
    }
    let (tail, count) = enc.finish();
    assert_eq!(count, 1);
    let recs = decode_chunk(&tail).unwrap();
    // the ambiguous read is dropped; the next one survives
    assert_eq!(recs.len(), 1);
    assert_eq!(recs[0].barcode, 0b00011011);
    assert_eq!(recs[0].target_ids, vec![6]);
}

#[test]
fn unknown_nucleotide_is_fatal() {
    let bad = rec(b"r1", 5, false, b"AXGT", b"AAAA");
    let (mut enc, _h, _o) = RadEncoder::new(&names(), Some(&bad), 10000).unwrap();
    assert_eq!(enc.feed(&bad), Err(DecodeError::UnknownNucleotide(b'X')));
}

#[test]
fn chunk_flushes_only_past_capacity() {
    // capacity 2: the chunk is handed out when it holds 3 records
    let first = rec(b"q0", 0, true, b"ACGT", b"ACGT");
    let (mut enc, _h, _o) = RadEncoder::new(&names(), Some(&first), 2).unwrap();
    let mut flushed: Vec<Vec<u8>> = Vec::new();
    for i in 0..5u32 {
        let name = format!("q{}", i);
        let r = rec(name.as_bytes(), i, true, b"ACGT", b"ACGT");
        assert!(enc.can_accept());
        if let Some(chunk) = enc.feed(&r).unwrap() {
            flushed.push(chunk);
        }
    }
    // reads q0..q4: q0..q2 are emitted at the boundaries q1, q2 and q3;
    // emission 3 exceeds capacity 2, so exactly one chunk so far
    assert_eq!(flushed.len(), 1);
    let recs = decode_chunk(&flushed[0]).unwrap();
    assert_eq!(recs.len(), 3);
    // q3 stays buffered and q4 is still open: both land in the tail
    let (tail, count) = enc.finish();
    assert_eq!(count, 2);
    assert_eq!(decode_chunk(&tail).unwrap().len(), 2);
}

#[test]
fn default_capacity_boundary_is_exactly_10001() {
    // with capacity 10000 a chunk may hold 10001 records before the flush
    let first = rec(b"q0", 0, true, b"A", b"A");
    let (mut enc, _h, _o) = RadEncoder::new(&names(), Some(&first), 10000).unwrap();
    let mut flushed: Vec<Vec<u8>> = Vec::new();
    let total = 10003u32;
    for i in 0..total {
        let name = format!("q{}", i);
        let r = rec(name.as_bytes(), 1, true, b"A", b"A");
        assert!(enc.can_accept());
        if let Some(chunk) = enc.feed(&r).unwrap() {
            assert_eq!(i, 10001); // the 10002nd read emits record 10001
            flushed.push(chunk);
        }
    }
    assert_eq!(flushed.len(), 1);
    let recs = decode_chunk(&flushed[0]).unwrap();
    assert_eq!(recs.len(), 10001);
    let (tail, count) = enc.finish();
    assert_eq!(count, 2);
    // one record still buffered, one read still open
    assert_eq!(decode_chunk(&tail).unwrap().len(), 2);
}

#[test]
fn round_trip_reconstructs_all_records_in_order() {
    let inputs = vec![
        rec(b"r1", 3, true, b"ACGT", b"TTTT"),
        rec(b"r1", 7, false, b"ACGT", b"TTTT"),
        rec(b"r2", 1, true, b"AAAA", b"CCCC"),
        rec(b"r3", 0, false, b"GGGG", b"ACGT"),
        rec(b"r3", 1, false, b"GGGG", b"ACGT"),
        rec(b"r3", 2, true, b"GGGG", b"ACGT"),
        rec(b"r4", 1, true, b"TTAA", b"GGCC"),
    ];
    // capacity 1 forces several chunks
    let (mut enc, _h, _o) = RadEncoder::new(&names(), Some(&inputs[0]), 1).unwrap();
    let mut decoded: Vec<LogicalReadRecord> = Vec::new();
    for r in &inputs {
        assert!(enc.can_accept());
        if let Some(chunk) = enc.feed(r).unwrap() {
            decoded.extend(decode_chunk(&chunk).unwrap());
        }
    }
    let (tail, _count) = enc.finish();
    decoded.extend(decode_chunk(&tail).unwrap());

    let expected: Vec<(u64, u64, Vec<u32>)> = vec![
        (0b00011011, 255, vec![3, 7 | 0x8000_0000]),
        (0, 0b01010101, vec![1]),
        (0b10101010, 0b00011011, vec![0x8000_0000, 0x8000_0001, 2]),
        (0b11110000, 0b10100101, vec![1]),
    ];
    assert_eq!(decoded.len(), expected.len());
    for (got, want) in decoded.iter().zip(expected.iter()) {
        assert_eq!(got.barcode, want.0);
        assert_eq!(got.umi, want.1);
        assert_eq!(got.target_ids, want.2);
    }
}

#[test]
fn tail_chunk_is_emitted_even_when_empty() {
    let first = rec(b"r1", 0, true, b"ANNG", b"AAAA");
    let (enc, _h, _o) = RadEncoder::new(&names(), Some(&first), 10000).unwrap();
    // nothing fed at all: the tail is the placeholder-only chunk
    let (tail, count) = enc.finish();
    assert_eq!(count, 1);
    assert_eq!(tail, vec![8, 0, 0, 0, 0, 0, 0, 0]);
    assert_eq!(decode_chunk(&tail).unwrap().len(), 0);
}

#[test]
fn wire_slots_stay_32_bit_regardless_of_width() {
    // a 17-base barcode packs into 64 bits; the record stream still carries
    // the low 32 bits — the catalog alone communicates the semantic width
    let mut w = ChunkWriter::new(10);
    let rec = LogicalReadRecord {
        barcode: 0x1_2345_6789,
        umi: 7,
        target_ids: vec![42],
    };
    assert!(w.push(&rec).is_none());
    let (tail, count) = w.finish(None);
    assert_eq!(count, 1);
    let recs = decode_chunk(&tail).unwrap();
    assert_eq!(recs.len(), 1);
    assert_eq!(recs[0].barcode, 0x2345_6789);
    assert_eq!(recs[0].umi, 7);
    assert_eq!(recs[0].target_ids, vec![42]);
}

#[test]
fn chunk_layout_is_exact() {
    let mut w = ChunkWriter::new(10);
    let rec = LogicalReadRecord { barcode: 27, umi: 255, target_ids: vec![5, 6] };
    assert!(w.push(&rec).is_none());
    let (tail, _count) = w.finish(None);
    let mut expected: Vec<u8> = Vec::new();
    expected.extend_from_slice(&28u32.to_le_bytes()); // 8 + 20 record bytes
    expected.extend_from_slice(&1u32.to_le_bytes()); // record count
    expected.extend_from_slice(&2u32.to_le_bytes()); // target count
    expected.extend_from_slice(&27u32.to_le_bytes()); // barcode
    expected.extend_from_slice(&255u32.to_le_bytes()); // umi
    expected.extend_from_slice(&5u32.to_le_bytes());
    expected.extend_from_slice(&6u32.to_le_bytes());
    assert_eq!(tail, expected);
}

#[test]
fn decoder_rejects_malformed_chunks() {
    assert!(decode_chunk(&[]).is_none());
    assert!(decode_chunk(&[8, 0, 0, 0, 0, 0, 0]).is_none()); // too short
    // record count says one record but no bytes follow
    assert!(decode_chunk(&[8, 0, 0, 0, 1, 0, 0, 0]).is_none());
    // byte-length prefix disagrees with the actual length
    assert!(decode_chunk(&[9, 0, 0, 0, 0, 0, 0, 0]).is_none());
    // trailing garbage after the declared records
    assert!(decode_chunk(&[9, 0, 0, 0, 0, 0, 0, 0, 0]).is_none());
}

#[test]
fn smallest_capacity_still_flushes_past_it() {
    // capacity 0: every pushed record exceeds it at count 1
    let mut w = ChunkWriter::new(0);
    let rec = LogicalReadRecord { barcode: 1, umi: 2, target_ids: vec![3] };
    let chunk = w.push(&rec).expect("must flush at once");
    assert_eq!(decode_chunk(&chunk).unwrap().len(), 1);
    let (tail, count) = w.finish(None);
    assert_eq!(count, 2);
    assert_eq!(decode_chunk(&tail).unwrap().len(), 0);
}
