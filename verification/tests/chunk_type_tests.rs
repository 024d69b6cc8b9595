use nyxpng::chunk_type::ChunkType;
use nyxpng::error::Error;
use std::convert::TryFrom;
use std::str::FromStr;

#[test]
pub fn test_chunk_type_from_bytes() {
    let expected = [82, 117, 83, 116];
    let actual = ChunkType::try_from([82, 117, 83, 116]).unwrap();

    assert_eq!(expected, actual.bytes());
}

#[test]
pub fn test_chunk_type_from_str() {
    let expected = ChunkType::try_from([82, 117, 83, 116]).unwrap();
    let actual = ChunkType::from_str("RuSt").unwrap();
    assert_eq!(expected, actual);
}

#[test]
pub fn test_chunk_type_is_critical() {
    let chunk = ChunkType::from_str("RuSt").unwrap();
    assert!(chunk.is_critical());
}

#[test]
pub fn test_chunk_type_is_not_critical() {
    let chunk = ChunkType::from_str("ruSt").unwrap();
    assert!(!chunk.is_critical());
}

#[test]
pub fn test_chunk_type_is_public() {
    let chunk = ChunkType::from_str("RUSt").unwrap();
    assert!(chunk.is_public());
}

#[test]
pub fn test_chunk_type_is_not_public() {
    let chunk = ChunkType::from_str("RuSt").unwrap();
    assert!(!chunk.is_public());
}

#[test]
pub fn test_chunk_type_is_reserved_bit_valid() {
    let chunk = ChunkType::from_str("RuSt").unwrap();
    assert!(chunk.is_reserved_bit_valid());
}

#[test]
pub fn test_chunk_type_is_reserved_bit_invalid() {
    let chunk = ChunkType::from_str("Rust").unwrap();
    assert!(!chunk.is_reserved_bit_valid());
}

#[test]
pub fn test_chunk_type_is_safe_to_copy() {
    let chunk = ChunkType::from_str("RuSt").unwrap();
    assert!(chunk.is_safe_to_copy());
}

#[test]
pub fn test_chunk_type_is_unsafe_to_copy() {
    let chunk = ChunkType::from_str("RuST").unwrap();
    assert!(!chunk.is_safe_to_copy());
}

#[test]
pub fn test_valid_chunk_is_valid() {
    let chunk = ChunkType::from_str("RuSt").unwrap();
    assert!(chunk.is_valid());
}

#[test]
pub fn test_invalid_chunk_is_valid() {
    let chunk = ChunkType::from_str("Rust").unwrap();
    assert!(!chunk.is_valid());

    let chunk = ChunkType::from_str("Ru1t");
    assert!(chunk.is_err());
}

#[test]
pub fn test_chunk_type_string() {
    let chunk = ChunkType::from_str("RuSt").unwrap();
    assert_eq!(&chunk.to_string(), "RuSt");
}

#[test]
pub fn test_chunk_type_trait_impls() {
    let chunk_type_1: ChunkType = TryFrom::try_from([82, 117, 83, 116]).unwrap();
    let chunk_type_2: ChunkType = FromStr::from_str("RuSt").unwrap();
    let _chunk_string = format!("{}", chunk_type_1.to_string());
    let _are_chunks_equal = chunk_type_1 == chunk_type_2;
}

#[test]
pub fn type_bits_of_a_literal_code() {
    let code = ChunkType::from_str("RuSt").unwrap();
    assert_eq!(code.bytes(), [82, 117, 83, 116]);
    assert!(code.is_critical());
    assert!(!code.is_public());
    assert!(code.is_reserved_bit_valid());
    assert!(code.is_safe_to_copy());
}

#[test]
pub fn text_of_wrong_length_is_refused() {
    assert_eq!(ChunkType::from_str(""), Err(Error::InvalidLength));
    assert_eq!(ChunkType::from_str("RuS"), Err(Error::InvalidLength));
    assert_eq!(ChunkType::from_str("RuStx"), Err(Error::InvalidLength));
    assert_eq!(ChunkType::from_str("1"), Err(Error::InvalidLength));
}

#[test]
pub fn length_counts_bytes_not_characters() {
    // Two characters of two bytes each: four bytes, none of them a letter.
    assert_eq!(ChunkType::from_str("\u{e9}\u{e9}"), Err(Error::InvalidCharacters));
    // Four characters, five bytes.
    assert_eq!(ChunkType::from_str("Ru\u{e9}t"), Err(Error::InvalidLength));
}

#[test]
pub fn text_with_other_than_letters_is_refused() {
    assert_eq!(ChunkType::from_str("Ru1t"), Err(Error::InvalidCharacters));
    assert_eq!(ChunkType::from_str("Ru t"), Err(Error::InvalidCharacters));
    assert_eq!(ChunkType::from_str("@uSt"), Err(Error::InvalidCharacters));
    assert_eq!(ChunkType::from_str("[uSt"), Err(Error::InvalidCharacters));
    assert_eq!(ChunkType::from_str("`uSt"), Err(Error::InvalidCharacters));
    assert_eq!(ChunkType::from_str("RuS{"), Err(Error::InvalidCharacters));
}

#[test]
pub fn letters_at_the_ends_of_the_alphabet_are_accepted() {
    assert_eq!(ChunkType::from_str("AZaz").unwrap().bytes(), [65, 90, 97, 122]);
}

#[test]
pub fn text_keeps_its_case() {
    assert_eq!(ChunkType::from_str("rUsT").unwrap().to_string(), "rUsT");
    assert_eq!(ChunkType::from_str("abcd").unwrap().as_string(), "abcd");
}

#[test]
pub fn bytes_are_taken_unchecked() {
    let code = ChunkType::from_bytes([0, 49, 32, 255]);
    assert_eq!(code.bytes(), [0, 49, 32, 255]);
    assert!(!code.is_valid());
    assert!(!code.is_critical());
    assert!(!code.is_public());
    assert!(!code.is_reserved_bit_valid());
    assert!(!code.is_safe_to_copy());
    assert_eq!(ChunkType::try_from([0, 49, 32, 255]), Ok(code));
}

#[test]
pub fn validity_needs_letters_and_the_reserved_bit() {
    assert!(ChunkType::from_bytes(*b"RuSt").is_valid());
    assert!(ChunkType::from_bytes(*b"ruST").is_valid());
    assert!(!ChunkType::from_bytes(*b"Rust").is_valid());
    assert!(!ChunkType::from_bytes(*b"R1St").is_valid());
    assert!(!ChunkType::from_bytes(*b"RuS1").is_valid());
}

#[test]
pub fn text_of_bytes_that_are_no_text_is_repaired() {
    let code = ChunkType::from_bytes([0xff, 0x41, 0x42, 0x43]);
    assert_eq!(code.as_string(), "\u{fffd}ABC");
    assert_eq!(code.to_string(), "\u{fffd}ABC");
}

#[test]
pub fn equality_is_byte_for_byte() {
    assert_eq!(ChunkType::from_bytes(*b"RuSt"), ChunkType::from_str("RuSt").unwrap());
    assert_ne!(ChunkType::from_bytes(*b"RuSt"), ChunkType::from_bytes(*b"Rust"));
    let code = ChunkType::from_bytes(*b"RuSt");
    assert_eq!(code.clone(), code);
}
