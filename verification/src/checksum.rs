//! The CRC32 checksum that protects every packet, computed by the `crc32fast` crate.
use vstd::prelude::*;

verus! {

/// The CRC32 checksum of `bytes`, as `crc32fast::hash` computes it.
pub uninterp spec fn crc32_of(bytes: Seq<u8>) -> u32;

/// Calls `crc32fast::hash`, which computes the CRC32 (IEEE) checksum of a byte slice. The
/// contract claims only that the result is the checksum of the bytes given, a function of those
/// bytes alone.
#[verifier::external_body]
pub(crate) fn crc32(bytes: &[u8]) -> (r: u32)
    ensures
        r == crc32_of(bytes@),
{
    crc32fast::hash(bytes)
}

} // verus!
