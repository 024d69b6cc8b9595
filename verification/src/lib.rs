//! Codec for a signature-prefixed container of tagged, checksummed chunks.
//!
//! A container is an eight-byte signature followed by chunks. Each chunk is
//! framed as a big-endian length, a four-byte type code, the payload and a
//! CRC-32 over type code and payload.

pub mod bigendian;
pub mod checksum;
pub mod chunk;
pub mod chunk_type;
pub mod commands;
pub mod error;
pub mod png;
pub mod text;
