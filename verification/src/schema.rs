//! File header and typed-tag catalogs.
//!
//! The header carries a pairing flag, the target-name table, a chunk-count
//! placeholder that is patched once the stream is exhausted, and three tag
//! catalogs (file-level, read-level, alignment-level). The read-level
//! catalog's type codes communicate the semantic width of the packed barcode
//! and UMI, chosen as the narrowest of {8, 16, 32, 64}-bit able to hold two
//! bits per base; the wire slot in the record stream stays 32-bit regardless.

use vstd::prelude::*;
use vstd::bytes::{
    spec_u16_to_le_bytes, spec_u32_to_le_bytes, spec_u64_to_le_bytes, u16_to_le_bytes,
    u32_to_le_bytes, u64_to_le_bytes, lemma_auto_spec_u16_to_from_le_bytes,
    lemma_auto_spec_u64_to_from_le_bytes,
};
use crate::error::ConfigError;

verus! {

/// The closed set of integer widths a packed tag may be declared with.
#[derive(Clone, Copy, Debug, PartialEq, Eq, Structural)]
pub enum RADType {
    U8,
    U16,
    U32,
    U64,
}

/// The one-byte discriminator each width is written as in a tag catalog.
pub open spec fn type_tag_spec(t: RADType) -> u8 {
    match t {
        RADType::U8 => 1,
        RADType::U16 => 2,
        RADType::U32 => 3,
        RADType::U64 => 4,
    }
}

/// A tag string of this length has a supported integer width.
pub open spec fn supported_tag_len(l: u16) -> bool {
    1 <= l <= 32
}

/// The narrowest width whose 2-bit-per-base packing holds l bases.
pub open spec fn rad_type_for_len_spec(l: u16) -> RADType
    recommends
        supported_tag_len(l),
{
    if l <= 4 {
        RADType::U8
    } else if l <= 8 {
        RADType::U16
    } else if l <= 16 {
        RADType::U32
    } else {
        RADType::U64
    }
}

/// Serializes the width as its catalog discriminator byte.
pub fn encode_type_tag(t: RADType) -> (r: u8)
    ensures
        r == type_tag_spec(t),
{
    match t {
        RADType::U8 => 1,
        RADType::U16 => 2,
        RADType::U32 => 3,
        RADType::U64 => 4,
    }
}

/// Selects the catalog width for a barcode or UMI of l bases; none exists
/// outside 1..=32.
pub fn tag_type_for_len(l: u16) -> (r: Option<RADType>)
    ensures
        r is Some <==> supported_tag_len(l),
        r is Some ==> r->Some_0 == rad_type_for_len_spec(l),
{
    if 1 <= l && l <= 4 {
        Some(RADType::U8)
    } else if 5 <= l && l <= 8 {
        Some(RADType::U16)
    } else if 9 <= l && l <= 16 {
        Some(RADType::U32)
    } else if 17 <= l && l <= 32 {
        Some(RADType::U64)
    } else {
        None
    }
}

/// A length-prefixed string: 16-bit little-endian length, then the bytes.
pub open spec fn str_bin(s: Seq<u8>) -> Seq<u8>
    recommends
        s.len() <= u16::MAX,
{
    spec_u16_to_le_bytes(s.len() as u16) + s
}

/// The target-name table: each name length-prefixed, in order.
pub open spec fn names_table_bytes(names: Seq<Seq<u8>>) -> Seq<u8>
    decreases names.len(),
{
    if names.len() == 0 {
        Seq::empty()
    } else {
        names_table_bytes(names.drop_last()) + str_bin(names.last())
    }
}

/// The byte name of the file-level barcode-length tag.
pub open spec fn cblen_tag_name() -> Seq<u8> {
    seq![99u8, 98u8, 108u8, 101u8, 110u8]
}

/// The byte name of the file-level UMI-length tag.
pub open spec fn ulen_tag_name() -> Seq<u8> {
    seq![117u8, 108u8, 101u8, 110u8]
}

/// The byte name of the read-level barcode tag.
pub open spec fn barcode_tag_name() -> Seq<u8> {
    seq![98u8]
}

/// The byte name of the read-level UMI tag.
pub open spec fn umi_tag_name() -> Seq<u8> {
    seq![117u8]
}

/// The byte name of the alignment-level compressed target-id tag.
pub open spec fn refid_tag_name() -> Seq<u8> {
    seq![
        99u8, 111u8, 109u8, 112u8, 114u8, 101u8, 115u8, 115u8, 101u8, 100u8, 95u8, 111u8, 114u8,
        105u8, 95u8, 114u8, 101u8, 102u8, 105u8, 100u8,
    ]
}

/// The file-level catalog: the barcode and UMI lengths, both 16-bit values.
pub open spec fn file_catalog_bytes() -> Seq<u8> {
    spec_u16_to_le_bytes(2u16) + str_bin(cblen_tag_name()) + seq![2u8] + str_bin(ulen_tag_name())
        + seq![2u8]
}

/// The read-level catalog: the packed barcode and UMI, with the widths
/// derived from the observed string lengths.
pub open spec fn read_catalog_bytes(bc_type: RADType, umi_type: RADType) -> Seq<u8> {
    spec_u16_to_le_bytes(2u16) + str_bin(barcode_tag_name()) + seq![type_tag_spec(bc_type)]
        + str_bin(umi_tag_name()) + seq![type_tag_spec(umi_type)]
}

/// The alignment-level catalog: one 32-bit compressed target-id field.
pub open spec fn aln_catalog_bytes() -> Seq<u8> {
    spec_u16_to_le_bytes(1u16) + str_bin(refid_tag_name()) + seq![3u8]
}

/// Where the 8-byte chunk-count placeholder sits: right after the pairing
/// flag, the target count, and the name table.
pub open spec fn spec_chunk_count_offset(names: Seq<Seq<u8>>) -> int {
    9 + names_table_bytes(names).len() as int
}

/// The complete header: pairing flag, target count, name table, chunk-count
/// placeholder, the three catalogs, and the cached barcode/UMI lengths.
pub open spec fn header_bytes(names: Seq<Seq<u8>>, barcode_len: u16, umi_len: u16) -> Seq<u8>
    recommends
        supported_tag_len(barcode_len),
        supported_tag_len(umi_len),
{
    seq![0u8] + spec_u64_to_le_bytes(names.len() as u64) + names_table_bytes(names)
        + spec_u64_to_le_bytes(0u64) + file_catalog_bytes() + read_catalog_bytes(
        rad_type_for_len_spec(barcode_len),
        rad_type_for_len_spec(umi_len),
    ) + aln_catalog_bytes() + spec_u16_to_le_bytes(barcode_len) + spec_u16_to_le_bytes(umi_len)
}

/// Appends a byte slice to the buffer.
pub fn push_bytes(data: &mut Vec<u8>, s: &[u8])
    ensures
        final(data)@ == old(data)@ + s@,
{
    let ghost entry = data@;
    let n = s.len();
    let mut i: usize = 0;
    proof {
        assert(entry + s@.take(0) =~= entry);
    }
    while i < n
        invariant
            n == s@.len(),
            i <= n,
            data@ == entry + s@.take(i as int),
        decreases n - i,
    {
        data.push(s[i]);
        proof {
            assert(entry + s@.take(i as int + 1) =~= (entry + s@.take(i as int)).push(
                s@[i as int],
            ));
        }
        i = i + 1;
    }
    proof {
        assert(s@.take(n as int) =~= s@);
    }
}

/// Appends a 16-bit little-endian value.
pub fn push_u16_le(data: &mut Vec<u8>, x: u16)
    ensures
        final(data)@ == old(data)@ + spec_u16_to_le_bytes(x),
{
    let b = u16_to_le_bytes(x);
    push_bytes(data, b.as_slice());
}

/// Appends a 32-bit little-endian value.
pub fn push_u32_le(data: &mut Vec<u8>, x: u32)
    ensures
        final(data)@ == old(data)@ + spec_u32_to_le_bytes(x),
{
    let b = u32_to_le_bytes(x);
    push_bytes(data, b.as_slice());
}

/// Appends a 64-bit little-endian value.
pub fn push_u64_le(data: &mut Vec<u8>, x: u64)
    ensures
        final(data)@ == old(data)@ + spec_u64_to_le_bytes(x),
{
    let b = u64_to_le_bytes(x);
    push_bytes(data, b.as_slice());
}

/// Appends a length-prefixed string: 16-bit length, then the bytes.
pub fn write_str_bin(data: &mut Vec<u8>, s: &[u8])
    requires
        s@.len() <= u16::MAX,
    ensures
        final(data)@ == old(data)@ + str_bin(s@),
{
    push_u16_le(data, s.len() as u16);
    push_bytes(data, s);
    proof {
        assert(data@ =~= old(data)@ + str_bin(s@));
    }
}

/// Builds the complete header from the target names and the barcode/UMI
/// lengths observed on the first record, and reports the byte offset of the
/// chunk-count placeholder for the final patch-back.
#[verifier::rlimit(60)]
pub fn build_header(target_names: &Vec<Vec<u8>>, barcode_len: u16, umi_len: u16) -> (r: Result<
    (Vec<u8>, usize),
    ConfigError,
>)
    requires
        forall|i: int| 0 <= i < target_names@.len() ==> #[trigger] target_names@[i]@.len()
            <= u16::MAX,
    ensures
        r is Ok <==> supported_tag_len(barcode_len) && supported_tag_len(umi_len),
        !supported_tag_len(barcode_len) ==> r == Err::<(Vec<u8>, usize), ConfigError>(
            ConfigError::BarcodeLength(barcode_len),
        ),
        supported_tag_len(barcode_len) && !supported_tag_len(umi_len) ==> r == Err::<
            (Vec<u8>, usize),
            ConfigError,
        >(ConfigError::UmiLength(umi_len)),
        r is Ok ==> r->Ok_0.0@ == header_bytes(target_names.deep_view(), barcode_len, umi_len),
        r is Ok ==> r->Ok_0.1 == spec_chunk_count_offset(target_names.deep_view()),
{
    let bc_type = match tag_type_for_len(barcode_len) {
        Some(t) => t,
        None => {
            return Err(ConfigError::BarcodeLength(barcode_len));
        },
    };
    let umi_type = match tag_type_for_len(umi_len) {
        Some(t) => t,
        None => {
            return Err(ConfigError::UmiLength(umi_len));
        },
    };
    let ghost names = target_names.deep_view();
    let mut data: Vec<u8> = Vec::new();
    // pairing flag: fixed to unpaired
    data.push(0u8);
    // target count
    push_u64_le(&mut data, target_names.len() as u64);
    // the target-name table, each name length-prefixed
    let n = target_names.len();
    let mut i: usize = 0;
    proof {
        assert(names.take(0) =~= Seq::<Seq<u8>>::empty());
        assert(data@ =~= seq![0u8] + spec_u64_to_le_bytes(names.len() as u64) + names_table_bytes(
            names.take(0),
        ));
    }
    while i < n
        invariant
            n == target_names@.len(),
            names == target_names.deep_view(),
            i <= n,
            forall|k: int| 0 <= k < n ==> #[trigger] target_names@[k]@.len() <= u16::MAX,
            data@ == seq![0u8] + spec_u64_to_le_bytes(names.len() as u64) + names_table_bytes(
                names.take(i as int),
            ),
        decreases n - i,
    {
        proof {
            assert(names[i as int] == target_names@[i as int]@);
        }
        write_str_bin(&mut data, target_names[i].as_slice());
        proof {
            assert(names.take(i as int + 1).drop_last() =~= names.take(i as int));
            assert(names.take(i as int + 1).last() == names[i as int]);
            assert(data@ =~= seq![0u8] + spec_u64_to_le_bytes(names.len() as u64)
                + names_table_bytes(names.take(i as int + 1)));
        }
        i = i + 1;
    }
    proof {
        assert(names.take(n as int) =~= names);
    }
    // the chunk-count placeholder; its offset is patched after the last chunk
    let offset = data.len();
    proof {
        lemma_auto_spec_u64_to_from_le_bytes();
        assert(offset == spec_chunk_count_offset(names));
    }
    push_u64_le(&mut data, 0u64);
    // file-level catalog: barcode and UMI lengths, both 16-bit
    let cblen_name: [u8; 5] = [99, 98, 108, 101, 110];
    let ulen_name: [u8; 4] = [117, 108, 101, 110];
    push_u16_le(&mut data, 2u16);
    write_str_bin(&mut data, cblen_name.as_slice());
    data.push(2u8);
    write_str_bin(&mut data, ulen_name.as_slice());
    data.push(2u8);
    // read-level catalog: packed barcode and UMI at their observed widths
    let barcode_name: [u8; 1] = [98];
    let umi_name: [u8; 1] = [117];
    push_u16_le(&mut data, 2u16);
    write_str_bin(&mut data, barcode_name.as_slice());
    data.push(encode_type_tag(bc_type));
    write_str_bin(&mut data, umi_name.as_slice());
    data.push(encode_type_tag(umi_type));
    // alignment-level catalog: the 32-bit compressed target id
    let refid_name: [u8; 20] = [
        99, 111, 109, 112, 114, 101, 115, 115, 101, 100, 95, 111, 114, 105, 95, 114, 101, 102,
        105, 100,
    ];
    push_u16_le(&mut data, 1u16);
    write_str_bin(&mut data, refid_name.as_slice());
    data.push(3u8);
    // the cached copy of the widths the read-level catalog was derived from
    push_u16_le(&mut data, barcode_len);
    push_u16_le(&mut data, umi_len);
    proof {
        assert(cblen_name@ =~= cblen_tag_name());
        assert(ulen_name@ =~= ulen_tag_name());
        assert(barcode_name@ =~= barcode_tag_name());
        assert(umi_name@ =~= umi_tag_name());
        assert(refid_name@ =~= refid_tag_name());
        lemma_auto_spec_u16_to_from_le_bytes();
        assert(data@ =~= header_bytes(names, barcode_len, umi_len));
    }
    Ok((data, offset))
}

} // verus!
