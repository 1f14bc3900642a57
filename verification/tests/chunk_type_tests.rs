use png_chunk::chunk_type::ChunkType;
use png_chunk::ChunkError;

#[test]
pub fn test_chunk_type_from_bytes() {
    let expected = [82, 117, 83, 116];
    let actual = ChunkType::try_from([82, 117, 83, 116]).unwrap();

    assert_eq!(expected, actual.bytes());
}

#[test]
pub fn test_chunk_type_from_str() {
    let expected = ChunkType::try_from([82, 117, 83, 116]).unwrap();
    let actual = ChunkType::from_str("RuSt").unwrap();
    assert_eq!(expected, actual);
}

#[test]
pub fn test_chunk_type_is_critical() {
    let chunk = ChunkType::from_str("RuSt").unwrap();
    assert!(chunk.is_critical());
}

#[test]
pub fn test_chunk_type_is_not_critical() {
    let chunk = ChunkType::from_str("ruSt").unwrap();
    assert!(!chunk.is_critical());
}

#[test]
pub fn test_chunk_type_is_public() {
    let chunk = ChunkType::from_str("RUSt").unwrap();
    assert!(chunk.is_public());
}

#[test]
pub fn test_chunk_type_is_not_public() {
    let chunk = ChunkType::from_str("RuSt").unwrap();
    assert!(!chunk.is_public());
}

#[test]
pub fn test_chunk_type_is_reserved_bit_valid() {
    let chunk = ChunkType::from_str("RuSt").unwrap();
    assert!(chunk.is_reserved_bit_valid());
}

#[test]
pub fn test_chunk_type_is_reserved_bit_invalid() {
    let chunk = ChunkType::from_str("Rust").unwrap();
    assert!(!chunk.is_reserved_bit_valid());
}

#[test]
pub fn test_chunk_type_is_safe_to_copy() {
    let chunk = ChunkType::from_str("RuSt").unwrap();
    assert!(chunk.is_safe_to_copy());
}

#[test]
pub fn test_chunk_type_is_unsafe_to_copy() {
    let chunk = ChunkType::from_str("RuST").unwrap();
    assert!(!chunk.is_safe_to_copy());
}

#[test]
pub fn test_valid_chunk_is_valid() {
    let chunk = ChunkType::from_str("RuSt").unwrap();
    assert!(chunk.is_valid());
}

#[test]
pub fn test_invalid_chunk_is_valid() {
    let chunk = ChunkType::from_str("Rust").unwrap();
    assert!(!chunk.is_valid());

    let chunk = ChunkType::from_str("Ru1t");
    assert!(chunk.is_err());
}

#[test]
pub fn test_chunk_type_string() {
    let chunk = ChunkType::from_str("RuSt").unwrap();
    assert_eq!(&chunk.to_text(), "RuSt");
}

#[test]
pub fn test_chunk_type_trait_impls() {
    let chunk_type_1: ChunkType = ChunkType::try_from([82, 117, 83, 116]).unwrap();
    let chunk_type_2: ChunkType = ChunkType::from_str("RuSt").unwrap();
    let _chunk_string = chunk_type_1.to_text();
    let _are_chunks_equal = chunk_type_1 == chunk_type_2;
}

#[test]
fn test_chunk_type_wrong_length_str() {
    let short = ChunkType::from_str("Ru");
    assert_eq!(short, Err(ChunkError::WrongLength { actual: 2 }));

    let long = ChunkType::from_str("RuStX");
    assert_eq!(long, Err(ChunkError::WrongLength { actual: 5 }));
}

#[test]
fn test_chunk_type_invalid_byte_error() {
    let r = ChunkType::try_from([82, 117, 49, 116]);
    assert_eq!(
        r,
        Err(ChunkError::InvalidChunkType {
            bytes: [82, 117, 49, 116]
        })
    );
}

#[test]
fn test_chunk_type_rejects_non_ascii_text() {
    // A 4-byte string of two 2-byte characters: right byte length, but the
    // encoding bytes are not ASCII letters.
    let r = ChunkType::from_str("éé");
    assert!(matches!(r, Err(ChunkError::InvalidChunkType { .. })));
}

#[test]
fn test_chunk_type_property_bits_of_rust_tag() {
    let chunk = ChunkType::from_str("RuSt").unwrap();
    assert!(chunk.is_critical());
    assert!(!chunk.is_ancillary());
    assert!(!chunk.is_public());
    assert!(chunk.is_private());
    assert!(chunk.is_reserved_bit_valid());
    assert!(chunk.is_safe_to_copy());
    assert!(chunk.is_valid());
}

#[test]
fn test_chunk_type_bytes_round_trip() {
    let tag = ChunkType::from_str("bLOb").unwrap();
    assert_eq!(tag.bytes(), [98, 76, 79, 98]);
    assert!(!tag.is_critical());
    assert!(tag.is_ancillary());
    assert!(tag.is_public());
    assert!(!tag.is_private());
}
