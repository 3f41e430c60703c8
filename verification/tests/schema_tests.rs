use arms::error::{ConfigError, RadError};
use arms::record::AlnRecord;
use arms::encoder::RadEncoder;
use arms::schema::{RADType, build_header, encode_type_tag, tag_type_for_len};

fn rec(qname: &[u8], tid: u32, is_reverse: bool, barcode: &[u8], umi: &[u8]) -> AlnRecord {
    AlnRecord {
        qname: qname.to_vec(),
        tid,
        is_reverse,
        barcode: barcode.to_vec(),
        umi: umi.to_vec(),
    }
}

#[test]
fn width_selection_boundaries() {
    assert_eq!(tag_type_for_len(1), Some(RADType::U8));
    assert_eq!(tag_type_for_len(4), Some(RADType::U8));
    assert_eq!(tag_type_for_len(5), Some(RADType::U16));
    assert_eq!(tag_type_for_len(8), Some(RADType::U16));
    assert_eq!(tag_type_for_len(9), Some(RADType::U32));
    assert_eq!(tag_type_for_len(16), Some(RADType::U32));
    assert_eq!(tag_type_for_len(17), Some(RADType::U64));
    assert_eq!(tag_type_for_len(32), Some(RADType::U64));
    assert_eq!(tag_type_for_len(33), None);
    assert_eq!(tag_type_for_len(0), None);
}

#[test]
fn type_tags_are_one_byte_discriminators() {
    assert_eq!(encode_type_tag(RADType::U8), 1);
    assert_eq!(encode_type_tag(RADType::U16), 2);
    assert_eq!(encode_type_tag(RADType::U32), 3);
    assert_eq!(encode_type_tag(RADType::U64), 4);
}

#[test]
fn header_layout_is_exact() {
    let names: Vec<Vec<u8>> = vec![b"t1".to_vec(), b"t2".to_vec()];
    let (bytes, offset) = build_header(&names, 4, 4).unwrap();

    let mut expected: Vec<u8> = Vec::new();
    // pairing flag
    expected.push(0);
    // target count
    expected.extend_from_slice(&2u64.to_le_bytes());
    // name table
    expected.extend_from_slice(&2u16.to_le_bytes());
    expected.extend_from_slice(b"t1");
    expected.extend_from_slice(&2u16.to_le_bytes());
    expected.extend_from_slice(b"t2");
    // chunk-count placeholder
    expected.extend_from_slice(&0u64.to_le_bytes());
    // file-level catalog
    expected.extend_from_slice(&2u16.to_le_bytes());
    expected.extend_from_slice(&5u16.to_le_bytes());
    expected.extend_from_slice(b"cblen");
    expected.push(2);
    expected.extend_from_slice(&4u16.to_le_bytes());
    expected.extend_from_slice(b"ulen");
    expected.push(2);
    // read-level catalog: length 4 means 8-bit semantic width
    expected.extend_from_slice(&2u16.to_le_bytes());
    expected.extend_from_slice(&1u16.to_le_bytes());
    expected.extend_from_slice(b"b");
    expected.push(1);
    expected.extend_from_slice(&1u16.to_le_bytes());
    expected.extend_from_slice(b"u");
    expected.push(1);
    // alignment-level catalog
    expected.extend_from_slice(&1u16.to_le_bytes());
    expected.extend_from_slice(&20u16.to_le_bytes());
    expected.extend_from_slice(b"compressed_ori_refid");
    expected.push(3);
    // cached widths
    expected.extend_from_slice(&4u16.to_le_bytes());
    expected.extend_from_slice(&4u16.to_le_bytes());

    assert_eq!(bytes, expected);
    // the placeholder sits after flag, count, and both names
    assert_eq!(offset, 1 + 8 + (2 + 2) + (2 + 2));
    assert_eq!(&bytes[offset..offset + 8], &[0u8; 8]);
}

#[test]
fn header_widths_follow_observed_lengths() {
    let names: Vec<Vec<u8>> = vec![b"t".to_vec()];
    // 16 bases -> 32-bit type code (3); 17 -> 64-bit (4)
    let (h16, _) = build_header(&names, 16, 16).unwrap();
    let (h17, _) = build_header(&names, 17, 17).unwrap();
    let idx_b16 = find_tag_code(&h16, b"b");
    let idx_u16 = find_tag_code(&h16, b"u");
    assert_eq!(h16[idx_b16], 3);
    assert_eq!(h16[idx_u16], 3);
    let idx_b17 = find_tag_code(&h17, b"b");
    let idx_u17 = find_tag_code(&h17, b"u");
    assert_eq!(h17[idx_b17], 4);
    assert_eq!(h17[idx_u17], 4);
}

/// Index of the type-code byte right after a one-byte tag name preceded by
/// its 16-bit length prefix.
fn find_tag_code(h: &[u8], name: &[u8]) -> usize {
    assert_eq!(name.len(), 1);
    for i in 0..h.len() - 3 {
        if h[i] == 1 && h[i + 1] == 0 && h[i + 2] == name[0] {
            return i + 3;
        }
    }
    panic!("tag not found");
}

#[test]
fn oversized_barcode_is_config_error() {
    let names: Vec<Vec<u8>> = vec![b"t".to_vec()];
    assert_eq!(build_header(&names, 33, 4), Err(ConfigError::BarcodeLength(33)));
    assert_eq!(build_header(&names, 4, 33), Err(ConfigError::UmiLength(33)));
    assert_eq!(build_header(&names, 0, 4), Err(ConfigError::BarcodeLength(0)));

    let long = [65u8; 33];
    let first = rec(b"r1", 0, true, &long, b"ACGT");
    match RadEncoder::new(&names, Some(&first), 10000) {
        Err(RadError::Config(ConfigError::BarcodeLength(33))) => {},
        other => panic!("unexpected outcome: {:?}", other.is_ok()),
    }
}

#[test]
fn empty_input_is_config_error() {
    let names: Vec<Vec<u8>> = vec![b"t".to_vec()];
    match RadEncoder::new(&names, None, 10000) {
        Err(RadError::Config(ConfigError::NoRecords)) => {},
        other => panic!("unexpected outcome: {:?}", other.is_ok()),
    }
}

#[test]
fn oversized_umi_through_the_encoder() {
    let names: Vec<Vec<u8>> = vec![b"t".to_vec()];
    let long = [67u8; 33];
    let first = rec(b"r1", 0, false, b"ACGT", &long);
    match RadEncoder::new(&names, Some(&first), 10000) {
        Err(RadError::Config(ConfigError::UmiLength(33))) => {},
        other => panic!("unexpected outcome: {:?}", other.is_ok()),
    }
}

#[test]
fn header_with_empty_target_table() {
    let names: Vec<Vec<u8>> = Vec::new();
    let (bytes, offset) = build_header(&names, 4, 4).unwrap();
    assert_eq!(offset, 9);
    assert_eq!(bytes[0], 0); // unpaired
    assert_eq!(&bytes[1..9], &0u64.to_le_bytes()); // zero targets
    assert_eq!(&bytes[9..17], &0u64.to_le_bytes()); // placeholder
}
