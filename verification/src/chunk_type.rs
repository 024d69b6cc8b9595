//! The four-byte type code of a chunk.

use crate::error::Error;
use crate::text::{decode_lossy, lossy_text};
use vstd::prelude::*;
use vstd::string::StringSliceAdditionalSpecFns;
use vstd::utf8::{encode_utf8, encode_utf8_decode_utf8, encode_utf8_valid_utf8};

verus! {

/// An upper-case ASCII letter.
pub open spec fn is_upper(b: u8) -> bool {
    0x41 <= b <= 0x5a
}

/// A lower-case ASCII letter.
pub open spec fn is_lower(b: u8) -> bool {
    0x61 <= b <= 0x7a
}

/// An ASCII letter of either case.
pub open spec fn is_letter(b: u8) -> bool {
    is_upper(b) || is_lower(b)
}

/// Every byte of `bytes` is an ASCII letter.
pub open spec fn all_letters(bytes: Seq<u8>) -> bool {
    forall|i: int| 0 <= i < bytes.len() ==> is_letter(#[trigger] bytes[i])
}

/// What reading a type code from the bytes of a text gives: the bytes
/// themselves when there are four of them and all are letters.
pub open spec fn type_from_text(bytes: Seq<u8>) -> Result<Seq<u8>, Error> {
    if bytes.len() != 4 {
        Err(Error::InvalidLength)
    } else if !all_letters(bytes) {
        Err(Error::InvalidCharacters)
    } else {
        Ok(bytes)
    }
}

/// The bytes that encode a text read as that text.
pub proof fn lemma_text_of_encoded(text: Seq<char>)
    ensures
        lossy_text(encode_utf8(text)) == text,
{
    encode_utf8_valid_utf8(text);
    encode_utf8_decode_utf8(text);
}

/// A four-byte tag naming the purpose of a chunk. The case of each byte
/// carries one property bit.
#[derive(Debug, Clone, Copy)]
pub struct ChunkType {
    bytes: [u8; 4],
}

impl View for ChunkType {
    type V = Seq<u8>;

    closed spec fn view(&self) -> Seq<u8> {
        self.bytes@
    }
}

impl PartialEq for ChunkType {
    /// Two codes are equal when their bytes are, one for one.
    fn eq(&self, other: &ChunkType) -> (r: bool) {
        let same = self.bytes[0] == other.bytes[0] && self.bytes[1] == other.bytes[1]
            && self.bytes[2] == other.bytes[2] && self.bytes[3] == other.bytes[3];
        proof {
            if same {
                assert(self@ =~= other@);
            }
        }
        same
    }
}

impl Eq for ChunkType {

}

impl vstd::std_specs::cmp::PartialEqSpecImpl for ChunkType {
    open spec fn obeys_eq_spec() -> bool {
        true
    }

    open spec fn eq_spec(&self, other: &ChunkType) -> bool {
        self@ == other@
    }
}

fn byte_is_upper(b: u8) -> (r: bool)
    ensures
        r == is_upper(b),
{
    0x41 <= b && b <= 0x5a
}

fn byte_is_lower(b: u8) -> (r: bool)
    ensures
        r == is_lower(b),
{
    0x61 <= b && b <= 0x7a
}

impl ChunkType {
    /// A type code always has four bytes.
    pub proof fn lemma_len(self)
        ensures
            self@.len() == 4,
    {
    }

    /// The first byte is upper case.
    pub open spec fn spec_is_critical(&self) -> bool {
        is_upper(self@[0])
    }

    /// The second byte is upper case.
    pub open spec fn spec_is_public(&self) -> bool {
        is_upper(self@[1])
    }

    /// The third byte is upper case.
    pub open spec fn spec_is_reserved_bit_valid(&self) -> bool {
        is_upper(self@[2])
    }

    /// The fourth byte is lower case.
    pub open spec fn spec_is_safe_to_copy(&self) -> bool {
        is_lower(self@[3])
    }

    /// All four bytes are letters and the reserved bit is valid.
    pub open spec fn spec_is_valid(&self) -> bool {
        all_letters(self@) && self.spec_is_reserved_bit_valid()
    }

    /// The code made of the four given bytes, whatever they are.
    pub fn from_bytes(value: [u8; 4]) -> (r: ChunkType)
        ensures
            r@ == value@,
    {
        ChunkType { bytes: value }
    }

    /// The four bytes of the code.
    pub fn bytes(&self) -> (r: [u8; 4])
        ensures
            r@ == self@,
    {
        self.bytes
    }

    /// Whether the code is one that the text constructor accepts and whose
    /// reserved bit is valid.
    pub fn is_valid(&self) -> (r: bool)
        ensures
            r == self.spec_is_valid(),
    {
        let mut i: usize = 0;
        while i < 4
            invariant
                i <= 4,
                forall|j: int| 0 <= j < i ==> is_letter(#[trigger] self@[j]),
            decreases 4 - i,
        {
            let b: u8 = self.bytes[i];
            if !(byte_is_upper(b) || byte_is_lower(b)) {
                assert(!is_letter(self@[i as int]));
                return false;
            }
            i += 1;
        }
        self.is_reserved_bit_valid()
    }

    /// Whether the chunk is critical: the first byte is upper case.
    pub fn is_critical(&self) -> (r: bool)
        ensures
            r == self.spec_is_critical(),
    {
        byte_is_upper(self.bytes[0])
    }

    /// Whether the chunk is public: the second byte is upper case.
    pub fn is_public(&self) -> (r: bool)
        ensures
            r == self.spec_is_public(),
    {
        byte_is_upper(self.bytes[1])
    }

    /// Whether the reserved bit is valid: the third byte is upper case.
    pub fn is_reserved_bit_valid(&self) -> (r: bool)
        ensures
            r == self.spec_is_reserved_bit_valid(),
    {
        byte_is_upper(self.bytes[2])
    }

    /// Whether the chunk is safe to copy: the fourth byte is lower case.
    pub fn is_safe_to_copy(&self) -> (r: bool)
        ensures
            r == self.spec_is_safe_to_copy(),
    {
        byte_is_lower(self.bytes[3])
    }

    /// The code as text: its bytes decoded as UTF-8, with a replacement
    /// character where they are not valid.
    pub fn as_string(&self) -> (r: String)
        ensures
            r@ == lossy_text(self@),
    {
        decode_lossy(self.bytes.as_slice())
    }

    /// The code as text, as `as_string` gives it.
    pub fn to_string(&self) -> (r: String)
        ensures
            r@ == lossy_text(self@),
    {
        self.as_string()
    }

    /// Reads a type code from text: four bytes, all of them ASCII letters,
    /// kept as they are, so that the code reads as the text again.
    pub fn from_str(s: &str) -> (r: Result<ChunkType, Error>)
        ensures
            match r {
                Ok(t) => type_from_text(s.spec_bytes()) == Ok::<Seq<u8>, Error>(t@),
                Err(e) => type_from_text(s.spec_bytes()) == Err::<Seq<u8>, Error>(e),
            },
            r matches Ok(t) ==> lossy_text(t@) == s@,
    {
        proof {
            lemma_text_of_encoded(s@);
        }
        let text = s.as_bytes();
        if text.len() != 4 {
            return Err(Error::InvalidLength);
        }
        let mut i: usize = 0;
        while i < 4
            invariant
                i <= 4,
                text@.len() == 4,
                text@ == s.spec_bytes(),
                forall|j: int| 0 <= j < i ==> is_letter(#[trigger] text@[j]),
            decreases 4 - i,
        {
            let b: u8 = text[i];
            if !(byte_is_upper(b) || byte_is_lower(b)) {
                assert(!is_letter(text@[i as int]));
                return Err(Error::InvalidCharacters);
            }
            i += 1;
        }
        let bytes: [u8; 4] = [text[0], text[1], text[2], text[3]];
        assert(bytes@ =~= text@);
        Ok(ChunkType { bytes })
    }
}

impl vstd::std_specs::convert::TryFromSpecImpl<[u8; 4]> for ChunkType {
    open spec fn obeys_try_from_spec() -> bool {
        true
    }

    closed spec fn try_from_spec(v: [u8; 4]) -> Result<ChunkType, Error> {
        Ok(ChunkType { bytes: v })
    }
}

impl TryFrom<[u8; 4]> for ChunkType {
    type Error = Error;

    /// The code made of the four given bytes. Nothing is asked of them, so
    /// this never fails.
    fn try_from(value: [u8; 4]) -> (r: Result<ChunkType, Error>)
        ensures
            r is Ok,
            r.unwrap()@ == value@,
    {
        Ok(ChunkType { bytes: value })
    }
}

impl std::str::FromStr for ChunkType {
    type Err = Error;

    /// Reads a type code from text, as the function of the same name on
    /// the type does: four bytes, all of them ASCII letters, kept as they
    /// are, so that the code reads as the text again.
    fn from_str(s: &str) -> (r: Result<ChunkType, Error>)
        ensures
            match r {
                Ok(t) => type_from_text(s.spec_bytes()) == Ok::<Seq<u8>, Error>(t@),
                Err(e) => type_from_text(s.spec_bytes()) == Err::<Seq<u8>, Error>(e),
            },
            r matches Ok(t) ==> lossy_text(t@) == s@,
    {
        ChunkType::from_str(s)
    }
}

} // verus!
