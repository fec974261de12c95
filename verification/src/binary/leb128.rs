//! Unsigned LEB128 numbers, as the binary format writes counts, sizes and indices.

use vstd::prelude::*;

verus! {

/// The number of bytes that an LEB128 encoding of a `u32` may take.
pub const LEB128_U32_MAX_BYTES: u32 = 5;

/// Reads the LEB128 groups of `s` from byte `i` on, where `acc` holds the bits of the groups
/// before it. A byte with the high bit clear ends the number; its bits are shifted in and
/// whatever does not fit in 32 bits is dropped. The result is the value and the number of bytes
/// read, or `None` when the input ends first or the fifth byte still has its high bit set.
pub open spec fn leb128_u32_from(s: Seq<u8>, i: nat, acc: u32) -> Option<(u32, nat)>
    decreases LEB128_U32_MAX_BYTES - i,
{
    if i >= LEB128_U32_MAX_BYTES || i >= s.len() {
        None
    } else {
        let byte = s[i as int];
        let shift = (7 * i) as u32;
        if byte & 0x80 == 0 {
            Some((acc | ((byte as u32) << shift), i + 1))
        } else if i + 1 == LEB128_U32_MAX_BYTES {
            None
        } else {
            leb128_u32_from(s, i + 1, acc | (((byte & 0x7f) as u32) << shift))
        }
    }
}

/// The unsigned LEB128 number at the front of `s`: its value and its length in bytes.
pub open spec fn spec_leb128_u32(s: Seq<u8>) -> Option<(u32, nat)> {
    leb128_u32_from(s, 0, 0)
}

/// A number is never read from nothing, nor from more bytes than there are.
pub proof fn lemma_leb128_u32_length(s: Seq<u8>, i: nat, acc: u32)
    ensures
        leb128_u32_from(s, i, acc) matches Some((v, n)) ==> i < n <= s.len() && n <= LEB128_U32_MAX_BYTES,
    decreases LEB128_U32_MAX_BYTES - i,
{
    if i < LEB128_U32_MAX_BYTES && i < s.len() {
        let byte = s[i as int];
        let shift = (7 * i) as u32;
        if byte & 0x80 != 0 && i + 1 != LEB128_U32_MAX_BYTES {
            lemma_leb128_u32_length(s, i + 1, acc | (((byte & 0x7f) as u32) << shift));
        }
    }
}

/// Bytes after a complete number do not change what is read.
pub proof fn lemma_leb128_u32_prefix(s: Seq<u8>, t: Seq<u8>, i: nat, acc: u32)
    requires
        leb128_u32_from(s, i, acc) is Some,
    ensures
        leb128_u32_from(s + t, i, acc) == leb128_u32_from(s, i, acc),
    decreases LEB128_U32_MAX_BYTES - i,
{
    if i < LEB128_U32_MAX_BYTES && i < s.len() {
        assert((s + t)[i as int] == s[i as int]);
        let byte = s[i as int];
        let shift = (7 * i) as u32;
        if byte & 0x80 != 0 && i + 1 != LEB128_U32_MAX_BYTES {
            lemma_leb128_u32_prefix(s, t, i + 1, acc | (((byte & 0x7f) as u32) << shift));
        }
    }
}

/// `nom_leb128::leb128_u32` on a byte slice. The contract claims what its source shows: it reads
/// bytes while their high bit is set, or-ing the low seven bits of each in at shifts of 0, 7, 14,
/// 21 and 28 (the last byte whole), and returns the value with the bytes after it; it fails when
/// the input ends first or when the fifth byte still has its high bit set. `spec_leb128_u32`
/// states this; either failure becomes `None`.
#[verifier::external_body]
pub(crate) fn read_leb128_u32<'a>(bytes: &'a [u8]) -> (res: Option<(&'a [u8], u32)>)
    ensures
        match spec_leb128_u32(bytes@) {
            Some((v, n)) => res matches Some((rest, w)) && w == v && rest@ == bytes@.skip(n as int),
            None => res is None,
        },
{
    nom_leb128::leb128_u32::<&[u8], nom::error::Error<&[u8]>>(bytes).ok()
}

} // verus!
