use nyxpng::bigendian::{read_u32_be, u32_be_bytes};
use nyxpng::chunk::{Chunk, Frame};
use nyxpng::chunk_type::ChunkType;
use nyxpng::error::Error;
use nyxpng::text::decimal;
use std::str::FromStr;

fn testing_chunk() -> Chunk {
    let data_length: u32 = 42;
    let chunk_type = "RuSt".as_bytes();
    let message_bytes = "This is where your secret message will be!".as_bytes();
    let crc: u32 = 2882656334;

    let chunk_data: Vec<u8> = data_length
        .to_be_bytes()
        .iter()
        .chain(chunk_type.iter())
        .chain(message_bytes.iter())
        .chain(crc.to_be_bytes().iter())
        .copied()
        .collect();

    Chunk::try_from(chunk_data.as_ref()).unwrap()
}

#[test]
fn test_new_chunk() {
    let chunk_type = ChunkType::from_str("RuSt").unwrap();
    let data = "This is where your secret message will be!"
        .as_bytes()
        .to_vec();
    let chunk = Chunk::new(chunk_type, data);
    assert_eq!(chunk.length(), 42);
    assert_eq!(chunk.crc(), 2882656334);
}

#[test]
fn test_chunk_length() {
    let chunk = testing_chunk();
    assert_eq!(chunk.length(), 42);
}

#[test]
fn test_chunk_type() {
    let chunk = testing_chunk();
    assert_eq!(chunk.chunk_type().to_string(), String::from("RuSt"));
}

#[test]
fn test_chunk_string() {
    let chunk = testing_chunk();
    let chunk_string = chunk.data_as_string().unwrap();
    let expected_chunk_string = String::from("This is where your secret message will be!");
    assert_eq!(chunk_string, expected_chunk_string);
}

#[test]
fn test_chunk_crc() {
    let chunk = testing_chunk();
    assert_eq!(chunk.crc(), 2882656334);
}

#[test]
fn test_valid_chunk_from_bytes() {
    let data_length: u32 = 42;
    let chunk_type = "RuSt".as_bytes();
    let message_bytes = "This is where your secret message will be!".as_bytes();
    let crc: u32 = 2882656334;

    let chunk_data: Vec<u8> = data_length
        .to_be_bytes()
        .iter()
        .chain(chunk_type.iter())
        .chain(message_bytes.iter())
        .chain(crc.to_be_bytes().iter())
        .copied()
        .collect();

    let chunk = Chunk::try_from(chunk_data.as_ref()).unwrap();

    let chunk_string = chunk.data_as_string().unwrap();
    let expected_chunk_string = String::from("This is where your secret message will be!");

    assert_eq!(chunk.length(), 42);
    assert_eq!(chunk.chunk_type().to_string(), String::from("RuSt"));
    assert_eq!(chunk_string, expected_chunk_string);
    assert_eq!(chunk.crc(), 2882656334);
}

#[test]
fn test_invalid_chunk_from_bytes() {
    let data_length: u32 = 42;
    let chunk_type = "RuSt".as_bytes();
    let message_bytes = "This is where your secret message will be!".as_bytes();
    let crc: u32 = 2882656333;

    let chunk_data: Vec<u8> = data_length
        .to_be_bytes()
        .iter()
        .chain(chunk_type.iter())
        .chain(message_bytes.iter())
        .chain(crc.to_be_bytes().iter())
        .copied()
        .collect();

    let chunk = Chunk::try_from(chunk_data.as_ref());

    assert!(chunk.is_err());
}

#[test]
pub fn test_chunk_trait_impls() {
    let data_length: u32 = 42;
    let chunk_type = "RuSt".as_bytes();
    let message_bytes = "This is where your secret message will be!".as_bytes();
    let crc: u32 = 2882656334;

    let chunk_data: Vec<u8> = data_length
        .to_be_bytes()
        .iter()
        .chain(chunk_type.iter())
        .chain(message_bytes.iter())
        .chain(crc.to_be_bytes().iter())
        .copied()
        .collect();

    let chunk: Chunk = TryFrom::try_from(chunk_data.as_ref()).unwrap();

    let _chunk_string = format!("{}", chunk.to_string());
}

fn hello() -> Chunk {
    Chunk::new(ChunkType::from_str("ABCD").unwrap(), b"hello".to_vec())
}

const HELLO_BYTES: [u8; 17] = [
    0, 0, 0, 5, 65, 66, 67, 68, 104, 101, 108, 108, 111, 85, 64, 176, 127,
];

#[test]
fn altered_checksum_is_a_mismatch() {
    let mut bytes = testing_chunk().as_bytes();
    assert_eq!(bytes.len(), 54);
    assert_eq!(&bytes[50..], &2882656334u32.to_be_bytes()[..]);
    bytes[50..].copy_from_slice(&2882656333u32.to_be_bytes());
    assert_eq!(Chunk::try_from(bytes.as_slice()), Err(Error::ChecksumMismatch));
}

#[test]
fn new_computes_the_checksum() {
    let chunk = hello();
    assert_eq!(chunk.crc(), 1430302847);
    assert_eq!(chunk.length(), 5);
    assert_eq!(chunk.data(), b"hello");
    assert_eq!(chunk.chunk_type().bytes(), *b"ABCD");
    let empty = Chunk::new(ChunkType::from_str("IEND").unwrap(), Vec::new());
    assert_eq!(empty.crc(), 2923585666);
    assert_eq!(empty.length(), 0);
}

#[test]
fn new_takes_any_type_code() {
    let chunk = Chunk::new(ChunkType::from_bytes([0xff, 0x41, 0x42, 0x43]), Vec::new());
    assert_eq!(chunk.crc(), 2743272375);
    assert!(!chunk.chunk_type().is_valid());
    let again = Chunk::try_from(chunk.as_bytes().as_slice()).unwrap();
    assert_eq!(again, chunk);
}

#[test]
fn serialized_layout() {
    assert_eq!(hello().as_bytes(), HELLO_BYTES.to_vec());
    let empty = Chunk::new(ChunkType::from_str("IEND").unwrap(), Vec::new());
    assert_eq!(empty.as_bytes(), vec![0, 0, 0, 0, 73, 69, 78, 68, 0xae, 0x42, 0x60, 0x82]);
}

#[test]
fn chunk_round_trip() {
    let chunk = hello();
    let parsed = Chunk::try_from(chunk.as_bytes().as_slice()).unwrap();
    assert_eq!(parsed.chunk_type(), chunk.chunk_type());
    assert_eq!(parsed.data(), chunk.data());
    assert_eq!(parsed.crc(), chunk.crc());
    assert_eq!(parsed, chunk);

    let long = Chunk::new(ChunkType::from_str("daTa").unwrap(), vec![7u8; 70000]);
    assert_eq!(long.length(), 70000);
    let bytes = long.as_bytes();
    assert_eq!(&bytes[..4], &[0, 1, 0x11, 0x70]);
    assert_eq!(Chunk::try_from(bytes.as_slice()).unwrap(), long);
}

#[test]
fn parsing_is_undone_by_serializing() {
    let parsed = Chunk::try_from(&HELLO_BYTES[..]).unwrap();
    assert_eq!(parsed.as_bytes(), HELLO_BYTES.to_vec());
}

#[test]
fn bytes_after_a_chunk_are_left_alone() {
    let mut bytes = HELLO_BYTES.to_vec();
    bytes.extend_from_slice(&[1, 2, 3]);
    let parsed = Chunk::try_from(bytes.as_slice()).unwrap();
    assert_eq!(parsed, hello());
    assert_eq!(parsed.as_bytes().len(), 17);
}

#[test]
fn short_buffers_are_truncated() {
    for n in 0..HELLO_BYTES.len() {
        assert_eq!(Chunk::try_from(&HELLO_BYTES[..n]), Err(Error::Truncated), "{} bytes", n);
    }
    assert!(Chunk::try_from(&HELLO_BYTES[..]).is_ok());
}

#[test]
fn declared_length_beyond_the_buffer_is_truncated() {
    let mut bytes = HELLO_BYTES.to_vec();
    bytes[3] = 6;
    assert_eq!(Chunk::try_from(bytes.as_slice()), Err(Error::Truncated));
    bytes[0] = 0xff;
    bytes[1] = 0xff;
    bytes[2] = 0xff;
    bytes[3] = 0xff;
    assert_eq!(Chunk::try_from(bytes.as_slice()), Err(Error::Truncated));
}

#[test]
fn shorter_declared_length_moves_the_checksum() {
    // With a length of 4 the checksum is read one byte earlier and covers
    // one byte less.
    let mut bytes = HELLO_BYTES.to_vec();
    bytes[3] = 4;
    assert_eq!(Chunk::try_from(bytes.as_slice()), Err(Error::ChecksumMismatch));
}

#[test]
fn every_flipped_bit_of_type_or_payload_is_detected() {
    let bytes = testing_chunk().as_bytes();
    for at in 4..bytes.len() - 4 {
        for bit in 0..8 {
            let mut flipped = bytes.clone();
            flipped[at] ^= 1 << bit;
            assert_eq!(
                Chunk::try_from(flipped.as_slice()),
                Err(Error::ChecksumMismatch),
                "byte {} bit {}",
                at,
                bit
            );
        }
    }
}

#[test]
fn every_flipped_bit_of_the_checksum_is_detected() {
    let bytes = HELLO_BYTES.to_vec();
    for at in 13..17 {
        for bit in 0..8 {
            let mut flipped = bytes.clone();
            flipped[at] ^= 1 << bit;
            assert_eq!(Chunk::try_from(flipped.as_slice()), Err(Error::ChecksumMismatch));
        }
    }
}

#[test]
fn payload_that_is_no_text() {
    let chunk = Chunk::new(ChunkType::from_str("teSt").unwrap(), vec![0xff, 0xfe]);
    assert_eq!(chunk.crc(), 868373728);
    assert_eq!(chunk.data_as_string(), Err(Error::NotUtf8));
    let cut = Chunk::new(ChunkType::from_str("teSt").unwrap(), vec![0xe2, 0x82]);
    assert_eq!(cut.data_as_string(), Err(Error::NotUtf8));
}

#[test]
fn payload_that_is_text() {
    assert_eq!(hello().data_as_string(), Ok(String::from("hello")));
    let euro = Chunk::new(ChunkType::from_str("teSt").unwrap(), vec![0xe2, 0x82, 0xac]);
    assert_eq!(euro.data_as_string(), Ok(String::from("\u{20ac}")));
    let empty = Chunk::new(ChunkType::from_str("teSt").unwrap(), Vec::new());
    assert_eq!(empty.data_as_string(), Ok(String::new()));
}

#[test]
fn chunk_rendering() {
    assert_eq!(
        hello().to_string(),
        "Chunk {\n  Length: 5\n  Type: ABCD\n  Data: 5 bytes\n  Crc: 1430302847\n}\n"
    );
    assert_eq!(
        testing_chunk().to_string(),
        "Chunk {\n  Length: 42\n  Type: RuSt\n  Data: 42 bytes\n  Crc: 2882656334\n}\n"
    );
}

#[test]
fn clone_keeps_the_chunk() {
    let chunk = hello();
    let copy = chunk.clone();
    assert_eq!(copy, chunk);
    assert_eq!(copy.as_bytes(), HELLO_BYTES.to_vec());
}

#[test]
fn big_endian_integers() {
    assert_eq!(u32_be_bytes(0), [0, 0, 0, 0]);
    assert_eq!(u32_be_bytes(1), [0, 0, 0, 1]);
    assert_eq!(u32_be_bytes(0x0102_0304), [1, 2, 3, 4]);
    assert_eq!(u32_be_bytes(2882656334), 2882656334u32.to_be_bytes());
    assert_eq!(u32_be_bytes(u32::MAX), [255, 255, 255, 255]);
    assert_eq!(read_u32_be(&[1, 2, 3, 4], 0), 0x0102_0304);
    assert_eq!(read_u32_be(&[9, 255, 255, 255, 255], 1), u32::MAX);
    assert_eq!(read_u32_be(&[9, 9, 0, 0, 1, 0, 9], 2), 256);
    for x in [0u32, 7, 255, 256, 65535, 65536, 0x00ff_ffff, 0x0100_0000, 0x8000_0000, u32::MAX] {
        assert_eq!(read_u32_be(&u32_be_bytes(x), 0), x);
        assert_eq!(u32_be_bytes(x), x.to_be_bytes());
    }
}

#[test]
fn decimal_numerals() {
    assert_eq!(decimal(0), "0");
    assert_eq!(decimal(9), "9");
    assert_eq!(decimal(10), "10");
    assert_eq!(decimal(1234567890), "1234567890");
    assert_eq!(decimal(u64::MAX), "18446744073709551615");
}

#[test]
fn frame_is_read_before_it_is_verified() {
    let mut bytes = HELLO_BYTES.to_vec();
    bytes[16] = 0;
    let frame = Frame::parse(&bytes).unwrap();
    assert_eq!(frame.chunk_type.bytes(), *b"ABCD");
    assert_eq!(frame.data, b"hello".to_vec());
    assert_eq!(frame.crc, 0x5540_b000);
    assert_eq!(Chunk::from_frame(frame, 1430302847), Err(Error::ChecksumMismatch));

    let frame = Frame::parse(&HELLO_BYTES).unwrap();
    assert_eq!(frame.crc, 1430302847);
    assert_eq!(Chunk::from_frame(frame, 1430302847), Ok(hello()));
}

#[test]
fn frame_that_ends_early_is_truncated() {
    assert_eq!(Frame::parse(&[]), Err(Error::Truncated));
    assert_eq!(Frame::parse(&[0, 0, 0]), Err(Error::Truncated));
    assert_eq!(Frame::parse(&[0, 0, 0, 0, 65, 66, 67, 68, 1, 2, 3]), Err(Error::Truncated));
    let frame = Frame::parse(&[0, 0, 0, 0, 65, 66, 67, 68, 1, 2, 3, 4]).unwrap();
    assert_eq!(frame.data, Vec::<u8>::new());
    assert_eq!(frame.crc, 0x0102_0304);
}

#[test]
fn chunk_from_its_parts() {
    let code = ChunkType::from_str("ABCD").unwrap();
    let chunk = Chunk::from_parts(code, b"hello".to_vec(), 1430302847);
    assert_eq!(chunk, hello());
    assert_eq!(chunk.as_bytes(), HELLO_BYTES.to_vec());
}
