//! The ways in which an operation of this crate can fail.

use vstd::prelude::*;

verus! {

/// Every failure the codec reports. None of them is recovered from inside
/// the crate; each is handed to the caller as it arises.
#[derive(Debug, Clone, Copy, PartialEq, Eq, Structural)]
pub enum Error {
    /// A type code was given as text that is not exactly four bytes long.
    InvalidLength,
    /// A type code was given as text holding a byte that is no ASCII letter.
    InvalidCharacters,
    /// A buffer ended before the chunk it frames was complete.
    Truncated,
    /// The checksum stored with a chunk differs from the one computed over it.
    ChecksumMismatch,
    /// A buffer does not begin with the container signature.
    SignatureMismatch,
    /// No chunk of the requested type is in the container.
    ChunkNotFound,
    /// A payload was asked for as text and is not valid UTF-8.
    NotUtf8,
}

} // verus!
