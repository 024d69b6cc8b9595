//! The integrity checksum of a chunk: CRC-32/ISO-HDLC, computed by the `crc`
//! crate.

use vstd::prelude::*;

verus! {

/// The CRC-32/ISO-HDLC checksum of `bytes`: what the `crc` crate computes for
/// them with its `CRC_32_ISO_HDLC` parameters. It depends on the bytes alone.
pub uninterp spec fn crc32(bytes: Seq<u8>) -> u32;

/// Calls `crc::Crc::<u32>::checksum` on a `Crc` built for `CRC_32_ISO_HDLC`.
///
/// Trusted: the result is the checksum named by [`crc32`]. The crate's
/// routine reads the bytes in order through a lookup table and neither fails
/// nor keeps state between calls.
#[verifier::external_body]
pub(crate) fn checksum(bytes: &[u8]) -> (r: u32)
    ensures
        r == crc32(bytes@),
{
    crc::Crc::<u32>::new(&crc::CRC_32_ISO_HDLC).checksum(bytes)
}

} // verus!
