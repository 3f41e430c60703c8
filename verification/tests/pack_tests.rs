use arms::error::DecodeError;
use arms::pack::{cb_string_to_u64, pack_tag, substitute_ambiguous};

#[test]
fn packs_one_base_per_two_bits() {
    // A=00, C=01, G=10, T=11, rightmost base in the lowest slot
    assert_eq!(cb_string_to_u64(b"A").unwrap(), 0);
    assert_eq!(cb_string_to_u64(b"C").unwrap(), 1);
    assert_eq!(cb_string_to_u64(b"G").unwrap(), 2);
    assert_eq!(cb_string_to_u64(b"T").unwrap(), 3);
    assert_eq!(cb_string_to_u64(b"ACGT").unwrap(), 0b00011011);
    assert_eq!(cb_string_to_u64(b"TTTT").unwrap(), 255);
    assert_eq!(cb_string_to_u64(b"").unwrap(), 0);
}

#[test]
fn packs_n_as_a() {
    assert_eq!(cb_string_to_u64(b"N").unwrap(), 0);
    assert_eq!(cb_string_to_u64(b"NT").unwrap(), 3);
}

#[test]
fn packing_is_deterministic() {
    let a = cb_string_to_u64(b"GATTACA").unwrap();
    let b = cb_string_to_u64(b"GATTACA").unwrap();
    assert_eq!(a, b);
    let c = pack_tag(b"GANTACA").unwrap();
    let d = pack_tag(b"GANTACA").unwrap();
    assert_eq!(c, d);
}

#[test]
fn packs_longest_supported_string() {
    // 32 T bases fill all 64 bits
    let s = [84u8; 32];
    assert_eq!(cb_string_to_u64(&s).unwrap(), u64::MAX);
}

#[test]
fn rejects_unknown_nucleotide() {
    assert_eq!(
        cb_string_to_u64(b"ACXG"),
        Err(DecodeError::UnknownNucleotide(b'X'))
    );
    assert_eq!(
        cb_string_to_u64(b"acgt"),
        Err(DecodeError::UnknownNucleotide(b'a'))
    );
}

#[test]
fn substitutes_single_ambiguous_base() {
    // "ANCG" is treated as "AACG"
    assert_eq!(substitute_ambiguous(b"ANCG").unwrap(), b"AACG".to_vec());
    assert_eq!(
        pack_tag(b"ANCG").unwrap(),
        cb_string_to_u64(b"AACG").unwrap()
    );
}

#[test]
fn keeps_unambiguous_string_unchanged() {
    assert_eq!(substitute_ambiguous(b"ACGT").unwrap(), b"ACGT".to_vec());
    assert_eq!(pack_tag(b"ACGT").unwrap(), cb_string_to_u64(b"ACGT").unwrap());
}

#[test]
fn rejects_double_ambiguous_base() {
    assert_eq!(substitute_ambiguous(b"ANNG"), Err(DecodeError::AmbiguousBases));
    assert_eq!(pack_tag(b"ANNG"), Err(DecodeError::AmbiguousBases));
}

#[test]
fn ambiguity_outranks_unknown_symbol() {
    // two Ns reject the record before any symbol check
    assert_eq!(pack_tag(b"NXN"), Err(DecodeError::AmbiguousBases));
    // one N substitutes, then the unknown symbol is fatal
    assert_eq!(pack_tag(b"NX"), Err(DecodeError::UnknownNucleotide(b'X')));
}
