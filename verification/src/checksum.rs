//! Integrity codec: the CRC-16 that guards every binary payload.

use vstd::prelude::*;

verus! {

/// The CRC-16/IBM-3740 checksum of a byte sequence (width 16, polynomial
/// 0x1021, initial value 0xffff, no reflection, no final xor), as the `crc`
/// crate computes it.
pub uninterp spec fn crc16_ibm_3740(data: Seq<u8>) -> u16;

/// Calls `crc::Crc::<u16>::new(&crc::CRC_16_IBM_3740)` and then
/// `Crc::checksum` on the bytes. The contract claims only that the outcome
/// depends on nothing but the bytes: it gives that outcome its name.
#[verifier::external_body]
fn crc16_of(data: &[u8]) -> (sum: u16)
    ensures
        sum == crc16_ibm_3740(data@),
{
    crc::Crc::<u16>::new(&crc::CRC_16_IBM_3740).checksum(data)
}

/// Checksum of `data`.
pub fn calculate_crc16(data: &[u8]) -> (sum: u16)
    ensures
        sum == crc16_ibm_3740(data@),
{
    crc16_of(data)
}

/// The two checksum bytes as they travel in a payload, high byte first, read
/// back as one value.
pub open spec fn checksum_from_bytes(high: u8, low: u8) -> u16 {
    (high as u16 * 256 + low as u16) as u16
}

/// Joins the two checksum bytes of a payload, high byte first.
pub fn join_checksum(high: u8, low: u8) -> (sum: u16)
    ensures
        sum == checksum_from_bytes(high, low),
{
    high as u16 * 256 + low as u16
}

} // verus!
