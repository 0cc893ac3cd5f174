//! CRC-32 (IEEE) checksums, computed by the `crc32fast` crate.
use vstd::prelude::*;

verus! {

/// The reflected IEEE polynomial.
pub const CRC32_POLY: u32 = 0xEDB8_8320;

/// One bit step of the reflected CRC-32 register.
pub open spec fn crc_bit(c: u32) -> u32 {
    if c & 1 == 1 {
        (c >> 1u32) ^ CRC32_POLY
    } else {
        c >> 1u32
    }
}

/// The register after taking in one byte: the byte enters the low bits,
/// then eight bit steps.
pub open spec fn crc_byte(c: u32, b: u8) -> u32 {
    crc_bit(crc_bit(crc_bit(crc_bit(crc_bit(crc_bit(crc_bit(crc_bit(c ^ (b as u32)))))))))
}

/// The register after taking in `bytes`, from `c`.
pub open spec fn crc_update(c: u32, bytes: Seq<u8>) -> u32
    decreases bytes.len(),
{
    if bytes.len() == 0 {
        c
    } else {
        crc_byte(crc_update(c, bytes.drop_last()), bytes.last())
    }
}

/// The CRC-32 (IEEE) checksum of a byte sequence: the register starts at
/// all ones and the result is its complement.
pub open spec fn crc32_ieee(bytes: Seq<u8>) -> u32 {
    !crc_update(0xFFFF_FFFFu32, bytes)
}

/// Calls `crc32fast::hash`, whose source is `Hasher::new` (initial state
/// 0), `update` with the bytes and `finalize`: the standard CRC-32 of the
/// IEEE polynomial, reflected, with all-ones initial and final values.
#[verifier::external_body]
pub(crate) fn crc32_of(bytes: &[u8]) -> (c: u32)
    ensures
        c == crc32_ieee(bytes@),
{
    crc32fast::hash(bytes)
}

} // verus!
