//! The checksum of the PNG format, CRC-32 with the IEEE 802.3 polynomial, as
//! the crate `crc` computes it.

use vstd::prelude::*;

verus! {

/// The CRC-32 (IEEE) of a byte string: the value of `crc::crc32::checksum_ieee`
/// on it. It is not defined here, only named.
pub uninterp spec fn crc32_ieee(bytes: Seq<u8>) -> u32;

/// Calls `crc::crc32::checksum_ieee`. That function runs the bytes through a
/// fixed table, starting from a fixed value: its result depends on the bytes
/// alone, and it is the value that `crc32_ieee` names.
#[verifier::external_body]
pub(crate) fn checksum_ieee(bytes: &[u8]) -> (sum: u32)
    ensures
        sum == crc32_ieee(bytes@),
{
    crc::crc32::checksum_ieee(bytes)
}

} // verus!
