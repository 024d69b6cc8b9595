//! A chunk: a type code, a payload and the checksum of both.

use crate::bigendian::{
    lemma_from_be_to_be, lemma_to_be_from_be, read_u32_be, u32_be_bytes, u32_from_be, u32_to_be,
};
use crate::checksum::{checksum, crc32};
use crate::chunk_type::ChunkType;
use crate::error::Error;
use crate::text::{decimal, decimal_text, decode_strict, lossy_text};
use vstd::prelude::*;
use vstd::slice::{slice_subrange, slice_to_vec};
use vstd::string::StringExecFns;
use vstd::utf8::{decode_utf8, valid_utf8};

verus! {

/// What a chunk is: its type code, its payload and its checksum.
pub struct ChunkView {
    pub chunk_type: Seq<u8>,
    pub data: Seq<u8>,
    pub crc: u32,
}

impl ChunkView {
    /// The bytes that the checksum covers: the type code, then the payload.
    pub open spec fn checked_bytes(self) -> Seq<u8> {
        self.chunk_type + self.data
    }

    /// The type code has four bytes and the checksum is that of type code
    /// and payload.
    pub open spec fn well_formed(self) -> bool {
        &&& self.chunk_type.len() == 4
        &&& self.crc == crc32(self.checked_bytes())
    }

    /// The payload is short enough for its length to be written in four
    /// bytes.
    pub open spec fn fits(self) -> bool {
        self.data.len() <= u32::MAX
    }

    /// The length as the accessor reports and the frame records it: the
    /// payload's byte count, reduced to thirty-two bits.
    pub open spec fn length(self) -> u32 {
        (self.data.len() % 0x1_0000_0000) as u32
    }

    /// The chunk set out for reading: its length, its type code as text,
    /// the byte count of its payload and its checksum, a line each.
    pub open spec fn rendering(self) -> Seq<char> {
        "Chunk {\n  Length: "@ + decimal_text(self.length() as nat) + "\n  Type: "@ + lossy_text(
            self.chunk_type,
        ) + "\n  Data: "@ + decimal_text(self.data.len()) + " bytes\n  Crc: "@ + decimal_text(
            self.crc as nat,
        ) + "\n}\n"@
    }

    /// The serialized chunk: length, type code, payload, checksum.
    pub open spec fn serialize(self) -> Seq<u8> {
        u32_to_be(self.length()) + self.chunk_type + self.data + u32_to_be(self.crc)
    }
}

/// The payload length that the first four bytes of a frame declare.
pub open spec fn declared_len(bytes: Seq<u8>) -> int {
    u32_from_be(bytes.subrange(0, 4)) as int
}

/// The three parts of the frame at the front of `bytes`, as they stand
/// there: the checksum is read and not yet verified. Bytes that follow the
/// frame are not looked at.
pub open spec fn parse_frame(bytes: Seq<u8>) -> Result<ChunkView, Error> {
    if bytes.len() < 4 || bytes.len() < declared_len(bytes) + 12 {
        Err(Error::Truncated)
    } else {
        let n = declared_len(bytes);
        Ok(
            ChunkView {
                chunk_type: bytes.subrange(4, 8),
                data: bytes.subrange(8, 8 + n),
                crc: u32_from_be(bytes.subrange(8 + n, 12 + n)),
            },
        )
    }
}

/// The verdict on a frame whose parts were read: it is a chunk if the
/// checksum it carries is that of its type code and payload.
pub open spec fn verify_frame(frame: ChunkView) -> Result<ChunkView, Error> {
    if frame.crc == crc32(frame.checked_bytes()) {
        Ok(frame)
    } else {
        Err(Error::ChecksumMismatch)
    }
}

/// What parsing one chunk from the front of `bytes` gives: the frame is
/// read, then verified.
pub open spec fn parse_chunk(bytes: Seq<u8>) -> Result<ChunkView, Error> {
    match parse_frame(bytes) {
        Err(e) => Err(e),
        Ok(frame) => verify_frame(frame),
    }
}

/// The parts of a chunk as they were read from a buffer, with the checksum
/// that stood there, which may or may not be theirs.
#[derive(Debug)]
pub struct Frame {
    pub chunk_type: ChunkType,
    pub data: Vec<u8>,
    pub crc: u32,
}

impl View for Frame {
    type V = ChunkView;

    open spec fn view(&self) -> ChunkView {
        ChunkView { chunk_type: self.chunk_type@, data: self.data@, crc: self.crc }
    }
}

impl PartialEq for Frame {
    /// Two frames are equal when type code, payload and checksum are.
    fn eq(&self, other: &Frame) -> (r: bool) {
        let same = self.chunk_type == other.chunk_type && self.data == other.data && self.crc
            == other.crc;
        proof {
            if self.data@.len() == other.data@.len() && (forall|i: int|
                0 <= i < self.data@.len() ==> self.data@[i] == other.data@[i]) {
                assert(self.data@ =~= other.data@);
            }
        }
        same
    }
}

impl Eq for Frame {

}

impl vstd::std_specs::cmp::PartialEqSpecImpl for Frame {
    open spec fn obeys_eq_spec() -> bool {
        true
    }

    open spec fn eq_spec(&self, other: &Frame) -> bool {
        self@ == other@
    }
}

impl Frame {
    /// Reads the frame at the front of `value`: a length in four bytes, the
    /// type code, as many payload bytes as the length says, the checksum in
    /// four bytes. A buffer that ends before the frame does is truncated.
    pub fn parse(value: &[u8]) -> (r: Result<Frame, Error>)
        ensures
            match r {
                Ok(frame) => parse_frame(value@) == Ok::<ChunkView, Error>(frame@),
                Err(e) => parse_frame(value@) == Err::<ChunkView, Error>(e),
            },
    {
        let total = value.len();
        if total < 8 {
            return Err(Error::Truncated);
        }
        let length = read_u32_be(value, 0) as usize;
        if total - 8 < length || total - 8 - length < 4 {
            return Err(Error::Truncated);
        }
        let chunk_type = ChunkType::from_bytes([value[4], value[5], value[6], value[7]]);
        let data = slice_to_vec(slice_subrange(value, 8, 8 + length));
        let crc = read_u32_be(value, 8 + length);
        assert(chunk_type@ =~= value@.subrange(4, 8));
        Ok(Frame { chunk_type, data, crc })
    }
}

/// Computes the checksum over a type code and a payload.
fn checksum_of(chunk_type: &ChunkType, data: &[u8]) -> (r: u32)
    ensures
        r == crc32(chunk_type@ + data@),
{
    let code = chunk_type.bytes();
    let mut covered: Vec<u8> = Vec::new();
    covered.extend_from_slice(code.as_slice());
    covered.extend_from_slice(data);
    assert(covered@ =~= chunk_type@ + data@);
    checksum(covered.as_slice())
}

/// A chunk of the container. Its checksum always is that of its type code
/// and payload: it is computed when a chunk is made and verified when one is
/// parsed.
#[derive(Debug)]
pub struct Chunk {
    chunk_type: ChunkType,
    data: Vec<u8>,
    crc: u32,
}

impl View for Chunk {
    type V = ChunkView;

    closed spec fn view(&self) -> ChunkView {
        ChunkView { chunk_type: self.chunk_type@, data: self.data@, crc: self.crc }
    }
}

impl PartialEq for Chunk {
    /// Two chunks are equal when type code, payload and checksum are.
    fn eq(&self, other: &Chunk) -> (r: bool) {
        let same = self.chunk_type == other.chunk_type && self.data == other.data && self.crc
            == other.crc;
        proof {
            if self.data@.len() == other.data@.len() && (forall|i: int|
                0 <= i < self.data@.len() ==> self.data@[i] == other.data@[i]) {
                assert(self.data@ =~= other.data@);
            }
        }
        same
    }
}

impl Eq for Chunk {

}

impl vstd::std_specs::cmp::PartialEqSpecImpl for Chunk {
    open spec fn obeys_eq_spec() -> bool {
        true
    }

    open spec fn eq_spec(&self, other: &Chunk) -> bool {
        self@ == other@
    }
}

impl Clone for Chunk {
    /// A copy with the same type code, payload and checksum.
    fn clone(&self) -> (r: Chunk)
        ensures
            r@ == self@,
    {
        proof {
            use_type_invariant(self);
        }
        Chunk { chunk_type: self.chunk_type, data: self.data.clone(), crc: self.crc }
    }
}

impl Chunk {
    /// Holds of every chunk there is.
    #[verifier::type_invariant]
    pub open spec fn well_formed(&self) -> bool {
        self@.well_formed()
    }

    /// The chunk of the given type code and payload, `crc` being the
    /// checksum computed over the two.
    pub fn from_parts(chunk_type: ChunkType, data: Vec<u8>, crc: u32) -> (r: Chunk)
        requires
            crc == crc32(chunk_type@ + data@),
        ensures
            r@ == (ChunkView { chunk_type: chunk_type@, data: data@, crc }),
    {
        proof {
            chunk_type.lemma_len();
        }
        Chunk { chunk_type, data, crc }
    }

    /// Decides on a frame, `computed` being the checksum computed over its
    /// type code and payload: the frame becomes a chunk if it carries that
    /// checksum, and is a mismatch if it carries another.
    pub fn from_frame(frame: Frame, computed: u32) -> (r: Result<Chunk, Error>)
        requires
            computed == crc32(frame@.checked_bytes()),
        ensures
            match r {
                Ok(chunk) => frame.crc == computed && chunk@ == frame@,
                Err(e) => frame.crc != computed && e == Error::ChecksumMismatch,
            },
    {
        if frame.crc != computed {
            return Err(Error::ChecksumMismatch);
        }
        Ok(Chunk::from_parts(frame.chunk_type, frame.data, frame.crc))
    }

    /// Makes a chunk of the given type and payload and computes its
    /// checksum. The type code is taken as it is.
    pub fn new(chunk_type: ChunkType, data: Vec<u8>) -> (r: Chunk)
        ensures
            r@ == (ChunkView {
                chunk_type: chunk_type@,
                data: data@,
                crc: crc32(chunk_type@ + data@),
            }),
    {
        let crc = checksum_of(&chunk_type, data.as_slice());
        Chunk::from_parts(chunk_type, data, crc)
    }

    /// The payload's byte count, reduced to thirty-two bits.
    pub fn length(&self) -> (r: u32)
        ensures
            r == self@.length(),
    {
        ((self.data.len() as u64) % 0x1_0000_0000) as u32
    }

    /// The type code.
    pub fn chunk_type(&self) -> (r: &ChunkType)
        ensures
            r@ == self@.chunk_type,
    {
        &self.chunk_type
    }

    /// The payload.
    pub fn data(&self) -> (r: &[u8])
        ensures
            r@ == self@.data,
    {
        self.data.as_slice()
    }

    /// The checksum, which is that of type code and payload.
    pub fn crc(&self) -> (r: u32)
        ensures
            r == self@.crc,
            r == crc32(self@.checked_bytes()),
    {
        proof {
            use_type_invariant(self);
        }
        self.crc
    }

    /// The payload as text, if it is valid UTF-8.
    pub fn data_as_string(&self) -> (r: Result<String, Error>)
        ensures
            match r {
                Ok(s) => valid_utf8(self@.data) && s@ == decode_utf8(self@.data),
                Err(e) => !valid_utf8(self@.data) && e == Error::NotUtf8,
            },
    {
        match decode_strict(self.data.clone()) {
            Ok(s) => Ok(s),
            Err(_) => Err(Error::NotUtf8),
        }
    }

    /// The chunk set out for reading.
    pub fn to_string(&self) -> (r: String)
        ensures
            r@ == self@.rendering(),
    {
        let mut r = String::from_str("Chunk {\n  Length: ");
        r.append(decimal(self.length() as u64).as_str());
        r.append("\n  Type: ");
        r.append(self.chunk_type.as_string().as_str());
        r.append("\n  Data: ");
        r.append(decimal(self.data.len() as u64).as_str());
        r.append(" bytes\n  Crc: ");
        r.append(decimal(self.crc as u64).as_str());
        r.append("\n}\n");
        r
    }

    /// The serialized chunk: the length in four bytes, the type code, the
    /// payload, the checksum in four bytes. Where the payload is short
    /// enough for its length field, the bytes parse back to this chunk.
    pub fn as_bytes(&self) -> (r: Vec<u8>)
        ensures
            r@ == self@.serialize(),
            self@.fits() ==> parse_chunk(r@) == Ok::<ChunkView, Error>(self@),
    {
        proof {
            use_type_invariant(self);
            if self@.fits() {
                lemma_parse_serialized(self@, Seq::empty());
                assert(self@.serialize() + Seq::<u8>::empty() =~= self@.serialize());
            }
        }
        let length = u32_be_bytes(self.length());
        let code = self.chunk_type.bytes();
        let crc = u32_be_bytes(self.crc);
        let mut out: Vec<u8> = Vec::new();
        out.extend_from_slice(length.as_slice());
        out.extend_from_slice(code.as_slice());
        out.extend_from_slice(self.data.as_slice());
        out.extend_from_slice(crc.as_slice());
        assert(out@ =~= self@.serialize());
        out
    }
}

impl vstd::std_specs::convert::TryFromSpecImpl<&[u8]> for Chunk {
    /// The result of parsing is stated over views, by the `ensures` of
    /// `try_from` itself.
    open spec fn obeys_try_from_spec() -> bool {
        false
    }

    open spec fn try_from_spec(v: &[u8]) -> Result<Chunk, Error> {
        Err(Error::Truncated)
    }
}

impl TryFrom<&[u8]> for Chunk {
    type Error = Error;

    /// Parses one chunk from the front of `value` and verifies its checksum.
    /// The chunk takes up `12 + length` bytes, which are its serialization;
    /// what follows is left alone.
    fn try_from(value: &[u8]) -> (r: Result<Chunk, Error>)
        ensures
            match r {
                Ok(c) => parse_chunk(value@) == Ok::<ChunkView, Error>(c@),
                Err(e) => parse_chunk(value@) == Err::<ChunkView, Error>(e),
            },
            r matches Ok(c) ==> c@.data.len() + 12 <= value@.len() && c@.serialize()
                == value@.subrange(0, (c@.data.len() + 12) as int),
    {
        proof {
            if parse_chunk(value@) is Ok {
                lemma_serialize_parsed(value@, parse_chunk(value@).unwrap());
            }
        }
        let frame = match Frame::parse(value) {
            Ok(frame) => frame,
            Err(e) => {
                return Err(e);
            },
        };
        let computed = checksum_of(&frame.chunk_type, frame.data.as_slice());
        Chunk::from_frame(frame, computed)
    }
}

/// A serialized chunk parses back to itself, whatever bytes follow it, and
/// takes up exactly the bytes of its own serialization.
pub proof fn lemma_parse_serialized(chunk: ChunkView, rest: Seq<u8>)
    requires
        chunk.well_formed(),
        chunk.fits(),
    ensures
        parse_chunk(chunk.serialize() + rest) == Ok::<ChunkView, Error>(chunk),
        chunk.serialize().len() == chunk.data.len() + 12,
        (chunk.serialize() + rest).skip((chunk.data.len() + 12) as int) == rest,
{
    let bytes = chunk.serialize() + rest;
    let n = chunk.data.len() as int;
    lemma_from_be_to_be(chunk.length());
    lemma_from_be_to_be(chunk.crc);
    assert(bytes.subrange(0, 4) =~= u32_to_be(chunk.length()));
    assert(declared_len(bytes) == n);
    assert(bytes.subrange(4, 8) =~= chunk.chunk_type);
    assert(bytes.subrange(8, 8 + n) =~= chunk.data);
    assert(bytes.subrange(8 + n, 12 + n) =~= u32_to_be(chunk.crc));
    assert(bytes.skip(n + 12) =~= rest);
}

/// Serializing is the inverse of parsing: a chunk parsed from the front of
/// a buffer is well formed, and its serialization is the stretch of the
/// buffer it was parsed from.
pub proof fn lemma_serialize_parsed(bytes: Seq<u8>, chunk: ChunkView)
    requires
        parse_chunk(bytes) == Ok::<ChunkView, Error>(chunk),
    ensures
        chunk.well_formed(),
        chunk.fits(),
        chunk.data.len() + 12 <= bytes.len(),
        chunk.serialize() == bytes.subrange(0, (chunk.data.len() + 12) as int),
{
    let n = declared_len(bytes);
    lemma_to_be_from_be(bytes.subrange(0, 4));
    lemma_to_be_from_be(bytes.subrange(8 + n, 12 + n));
    assert(chunk.serialize() =~= bytes.subrange(0, n + 12));
}

/// A serialized chunk in which one byte of the type code or of the payload
/// has been changed, by one bit or by more, fails to parse with
/// `ChecksumMismatch`, unless the changed bytes happen to have the checksum
/// that the chunk carries.
pub proof fn lemma_corruption_detected(chunk: ChunkView, at: int, byte: u8, rest: Seq<u8>)
    requires
        chunk.well_formed(),
        chunk.fits(),
        4 <= at < 8 + chunk.data.len(),
        crc32(chunk.checked_bytes().update(at - 4, byte)) != chunk.crc,
    ensures
        parse_chunk(chunk.serialize().update(at, byte) + rest) == Err::<ChunkView, Error>(
            Error::ChecksumMismatch,
        ),
{
    let changed = chunk.checked_bytes().update(at - 4, byte);
    let altered = ChunkView {
        chunk_type: changed.subrange(0, 4),
        data: changed.subrange(4, (4 + chunk.data.len()) as int),
        crc: chunk.crc,
    };
    let bytes = chunk.serialize().update(at, byte) + rest;
    let n = chunk.data.len() as int;
    lemma_from_be_to_be(chunk.length());
    lemma_from_be_to_be(chunk.crc);
    assert(bytes.subrange(0, 4) =~= u32_to_be(chunk.length()));
    assert(declared_len(bytes) == n);
    assert(bytes.subrange(4, 8) =~= altered.chunk_type);
    assert(bytes.subrange(8, 8 + n) =~= altered.data);
    assert(bytes.subrange(8 + n, 12 + n) =~= u32_to_be(chunk.crc));
    assert(altered.checked_bytes() =~= changed);
}

} // verus!
