//! Packing nucleotide strings into fixed-width unsigned integers.
//!
//! A string over {A, C, G, T, N} is scanned from its rightmost character:
//! each base contributes a 2-bit code (A = 00, C = 01, G = 10, T = 11, and N
//! packs as A) in the next-higher 2-bit slot, so the leftmost base ends up in
//! the highest bits. Before packing, the caller substitutes the first
//! ambiguous base N by A — deterministically, never randomly — and rejects a
//! string in which another N remains.

use vstd::prelude::*;
use vstd::arithmetic::power2::{pow2, lemma_pow2_adds, lemma_pow2_strictly_increases, lemma2_to64};
use crate::error::DecodeError;

verus! {

/// The symbols a nucleotide string may hold: A, C, G, T, N as ASCII bytes.
pub open spec fn valid_nt(b: u8) -> bool {
    b == 65 || b == 67 || b == 71 || b == 84 || b == 78
}

/// The 2-bit code of one base: A = 0, C = 1, G = 2, T = 3; N packs as A.
pub open spec fn nt_code(b: u8) -> int {
    if b == 67 {
        1
    } else if b == 71 {
        2
    } else if b == 84 {
        3
    } else {
        0
    }
}

/// Every symbol of the string is a valid nucleotide.
pub open spec fn all_valid_nt(s: Seq<u8>) -> bool {
    forall|i: int| 0 <= i < s.len() ==> valid_nt(s[i])
}

/// The packed integer value of a nucleotide string: the rightmost base in
/// the lowest 2-bit slot, each earlier base two bits higher.
pub open spec fn pack_spec(s: Seq<u8>) -> int
    decreases s.len(),
{
    if s.len() == 0 {
        0
    } else {
        pack_spec(s.drop_last()) * 4 + nt_code(s.last())
    }
}

/// A packed string of n bases occupies at most 2n bits.
pub proof fn lemma_pack_spec_bound(s: Seq<u8>)
    ensures
        0 <= pack_spec(s) < pow2((2 * s.len()) as nat),
    decreases s.len(),
{
    if s.len() == 0 {
        lemma2_to64();
    } else {
        lemma_pack_spec_bound(s.drop_last());
        lemma_pow2_adds(2, (2 * (s.len() - 1)) as nat);
        lemma2_to64();
    }
}

/// A string of at most 32 bases packs into a 64-bit integer.
pub proof fn lemma_pack_spec_fits_u64(s: Seq<u8>)
    requires
        s.len() <= 32,
    ensures
        0 <= pack_spec(s) <= u64::MAX,
{
    lemma_pack_spec_bound(s);
    if s.len() < 32 {
        lemma_pow2_strictly_increases((2 * s.len()) as nat, 64);
    }
    lemma2_to64();
    lemma_pow2_adds(32, 32);
}

/// How many ambiguous bases (N) the string holds.
pub open spec fn count_ambiguous(s: Seq<u8>) -> int
    decreases s.len(),
{
    if s.len() == 0 {
        0
    } else {
        count_ambiguous(s.drop_last()) + if s.last() == 78 {
            1int
        } else {
            0int
        }
    }
}

/// The string with its first ambiguous base replaced by A; unchanged where
/// no N occurs.
pub open spec fn substitute_first_ambiguous(s: Seq<u8>) -> Seq<u8> {
    Seq::new(
        s.len(),
        |i: int|
            if s[i] == 78 && count_ambiguous(s.take(i)) == 0 {
                65u8
            } else {
                s[i]
            },
    )
}

/// A prefix never holds more ambiguous bases than the whole string.
pub proof fn lemma_count_ambiguous_take(s: Seq<u8>, i: int)
    requires
        0 <= i <= s.len(),
    ensures
        count_ambiguous(s.take(i)) <= count_ambiguous(s),
    decreases s.len(),
{
    if i == s.len() {
        assert(s.take(i) =~= s);
    } else {
        assert(s.drop_last().take(i) =~= s.take(i));
        lemma_count_ambiguous_take(s.drop_last(), i);
    }
}

/// Substitution only turns an N into an A, so it neither adds nor removes
/// invalid symbols.
pub proof fn lemma_substitution_preserves_validity(s: Seq<u8>)
    ensures
        all_valid_nt(substitute_first_ambiguous(s)) <==> all_valid_nt(s),
{
    let t = substitute_first_ambiguous(s);
    if all_valid_nt(s) {
        assert forall|i: int| 0 <= i < t.len() implies valid_nt(t[i]) by {
            assert(valid_nt(s[i]));
        }
    }
    if all_valid_nt(t) {
        assert forall|i: int| 0 <= i < s.len() implies valid_nt(s[i]) by {
            assert(valid_nt(t[i]));
        }
    }
}

/// A string is packable when at most one N needs substitution and every
/// symbol is a valid nucleotide.
pub open spec fn tag_packable(s: Seq<u8>) -> bool {
    count_ambiguous(s) <= 1 && all_valid_nt(s)
}

/// The integer a packable string encodes to, after the single substitution.
pub open spec fn packed_value(s: Seq<u8>) -> int {
    pack_spec(substitute_first_ambiguous(s))
}

/// The byte at position i is the first invalid symbol of the string, and e
/// reports exactly that byte.
pub open spec fn reports_first_invalid(s: Seq<u8>, i: int, e: DecodeError) -> bool {
    &&& 0 <= i < s.len()
    &&& !valid_nt(s[i])
    &&& e == DecodeError::UnknownNucleotide(s[i])
    &&& forall|k: int| 0 <= k < i ==> valid_nt(s[k])
}

/// The error e names the first invalid symbol of the string.
pub open spec fn errs_first_invalid(s: Seq<u8>, e: DecodeError) -> bool {
    exists|i: int| reports_first_invalid(s, i, e)
}

/// Law: packing is deterministic — equal nucleotide strings always encode
/// to equal integers, under the same ambiguous-base substitution.
pub proof fn lemma_packing_deterministic(s1: Seq<u8>, s2: Seq<u8>)
    requires
        s1 == s2,
    ensures
        packed_value(s1) == packed_value(s2),
        substitute_first_ambiguous(s1) == substitute_first_ambiguous(s2),
{
}

/// Converts a nucleotide string to its packed integer, the rightmost
/// character first, each base two bits higher than the one after it.
/// N packs as A here; substitution policy is the caller's.
pub fn cb_string_to_u64(cb_str: &[u8]) -> (r: Result<u64, DecodeError>)
    requires
        cb_str@.len() <= 32,
    ensures
        r is Ok <==> all_valid_nt(cb_str@),
        r is Ok ==> r->Ok_0 == pack_spec(cb_str@),
        r is Err ==> errs_first_invalid(cb_str@, r->Err_0),
{
    let n = cb_str.len();
    let mut cb_id: u64 = 0;
    let mut idx: usize = 0;
    while idx < n
        invariant
            n == cb_str@.len() <= 32,
            idx <= n,
            all_valid_nt(cb_str@.take(idx as int)),
            cb_id == pack_spec(cb_str@.take(idx as int)),
        decreases n - idx,
    {
        let nt = cb_str[idx];
        if !(nt == 65 || nt == 67 || nt == 71 || nt == 84 || nt == 78) {
            proof {
                assert(forall|k: int|
                    0 <= k < idx ==> valid_nt(#[trigger] cb_str@[k])) by {
                    assert(forall|k: int|
                        0 <= k < idx ==> cb_str@.take(idx as int)[k] == #[trigger] cb_str@[k]);
                }
                assert(reports_first_invalid(
                    cb_str@,
                    idx as int,
                    DecodeError::UnknownNucleotide(nt),
                ));
                assert(errs_first_invalid(cb_str@, DecodeError::UnknownNucleotide(nt)));
            }
            return Err(DecodeError::UnknownNucleotide(nt));
        }
        let code: u64 = if nt == 67 {
            1
        } else if nt == 71 {
            2
        } else if nt == 84 {
            3
        } else {
            0
        };
        proof {
            lemma_pack_spec_bound(cb_str@.take(idx as int));
            if 2 * idx < 62 {
                lemma_pow2_strictly_increases((2 * idx) as nat, 62);
            }
            lemma_pow2_adds(2, 62);
            lemma2_to64();
            assert(cb_str@.take(idx as int + 1).drop_last() =~= cb_str@.take(idx as int));
            assert(cb_str@.take(idx as int + 1).last() == cb_str@[idx as int]);
            assert(all_valid_nt(cb_str@.take(idx as int + 1))) by {
                assert(forall|k: int|
                    0 <= k < idx ==> cb_str@.take(idx as int)[k] == #[trigger] cb_str@[k]);
                assert(forall|k: int|
                    0 <= k < idx + 1 ==> cb_str@.take(idx as int + 1)[k] == #[trigger] cb_str@[k]);
            }
        }
        cb_id = cb_id * 4 + code;
        idx = idx + 1;
    }
    proof {
        assert(cb_str@.take(n as int) =~= cb_str@);
    }
    Ok(cb_id)
}

/// Replaces the first N by A; rejects the string if another N remains, so
/// that no record is ever packed by guessing.
pub fn substitute_ambiguous(s: &[u8]) -> (r: Result<Vec<u8>, DecodeError>)
    ensures
        r is Ok <==> count_ambiguous(s@) <= 1,
        r is Ok ==> r->Ok_0@ == substitute_first_ambiguous(s@),
        r is Err ==> r->Err_0 == DecodeError::AmbiguousBases,
{
    let n = s.len();
    let mut out: Vec<u8> = Vec::new();
    let mut seen: usize = 0;
    let mut idx: usize = 0;
    while idx < n
        invariant
            n == s@.len(),
            idx <= n,
            seen == count_ambiguous(s@.take(idx as int)),
            seen <= 1,
            out@ =~= substitute_first_ambiguous(s@).take(idx as int),
        decreases n - idx,
    {
        proof {
            assert(s@.take(idx as int + 1).drop_last() =~= s@.take(idx as int));
        }
        let b = s[idx];
        if b == 78 {
            if seen == 0 {
                seen = 1;
                out.push(65);
            } else {
                proof {
                    lemma_count_ambiguous_take(s@, idx as int + 1);
                }
                return Err(DecodeError::AmbiguousBases);
            }
        } else {
            out.push(b);
        }
        idx = idx + 1;
        proof {
            assert(out@ =~= substitute_first_ambiguous(s@).take(idx as int));
        }
    }
    proof {
        assert(s@.take(n as int) =~= s@);
        assert(substitute_first_ambiguous(s@).take(n as int) =~= substitute_first_ambiguous(s@));
    }
    Ok(out)
}

/// Applies the ambiguous-base rule, then packs: the complete conversion of
/// one barcode or UMI string to its integer.
pub fn pack_tag(s: &[u8]) -> (r: Result<u64, DecodeError>)
    requires
        s@.len() <= 32,
    ensures
        r is Ok <==> tag_packable(s@),
        r is Ok ==> r->Ok_0 == packed_value(s@),
        count_ambiguous(s@) > 1 ==> r == Err::<u64, DecodeError>(DecodeError::AmbiguousBases),
        r is Err && count_ambiguous(s@) <= 1 ==> r->Err_0 is UnknownNucleotide,
{
    let fixed = match substitute_ambiguous(s) {
        Ok(v) => v,
        Err(e) => {
            return Err(e);
        },
    };
    proof {
        lemma_substitution_preserves_validity(s@);
    }
    match cb_string_to_u64(fixed.as_slice()) {
        Ok(v) => Ok(v),
        Err(e) => Err(e),
    }
}

} // verus!
