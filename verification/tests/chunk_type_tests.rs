use pngme::chunk_type::{is_ascii_alphabetic, is_ascii_lowercase, is_ascii_uppercase, ChunkType};
use pngme::error::ParseError;
use std::convert::TryFrom;
use std::str::FromStr;

#[test]
pub fn test_chunk_type_from_bytes() {
    let expected = [82, 117, 83, 116];
    let actual = ChunkType::try_from([82, 117, 83, 116]).unwrap();

    assert_eq!(expected, actual.bytes());
}

#[test]
pub fn test_chunk_type_from_str() {
    let expected = ChunkType::try_from([82, 117, 83, 116]).unwrap();
    let actual = ChunkType::from_str("RuSt").unwrap();
    assert_eq!(expected, actual);
}

#[test]
pub fn test_chunk_type_is_critical() {
    let chunk = ChunkType::from_str("RuSt").unwrap();
    assert!(chunk.is_critical());
}

#[test]
pub fn test_chunk_type_is_not_critical() {
    let chunk = ChunkType::from_str("ruSt").unwrap();
    assert!(!chunk.is_critical());
}

#[test]
pub fn test_chunk_type_is_public() {
    let chunk = ChunkType::from_str("RUSt").unwrap();
    assert!(chunk.is_public());
}

#[test]
pub fn test_chunk_type_is_not_public() {
    let chunk = ChunkType::from_str("RuSt").unwrap();
    assert!(!chunk.is_public());
}

#[test]
pub fn test_chunk_type_is_reserved_bit_valid() {
    let chunk = ChunkType::from_str("RuSt").unwrap();
    assert!(chunk.is_reserved_bit_valid());
}

#[test]
pub fn test_chunk_type_is_reserved_bit_invalid() {
    let chunk = ChunkType::from_str("Rust").unwrap();
    assert!(!chunk.is_reserved_bit_valid());
}

#[test]
pub fn test_chunk_type_is_safe_to_copy() {
    let chunk = ChunkType::from_str("RuSt").unwrap();
    assert!(chunk.is_safe_to_copy());
}

#[test]
pub fn test_chunk_type_is_unsafe_to_copy() {
    let chunk = ChunkType::from_str("RuST").unwrap();
    assert!(!chunk.is_safe_to_copy());
}

#[test]
pub fn test_valid_chunk_is_valid() {
    let chunk = ChunkType::from_str("RuSt").unwrap();
    assert!(chunk.is_valid());
}

#[test]
pub fn test_invalid_chunk_is_valid() {
    let chunk = ChunkType::from_str("Rust").unwrap();
    assert!(!chunk.is_valid());

    let chunk = ChunkType::from_str("Ru1t");
    assert!(chunk.is_err());
}

#[test]
pub fn test_chunk_type_string() {
    let chunk = ChunkType::from_str("RuSt").unwrap();
    assert_eq!(&chunk.to_string(), "RuSt");
}

#[test]
pub fn test_chunk_type_trait_impls() {
    let chunk_type_1: ChunkType = TryFrom::try_from([82, 117, 83, 116]).unwrap();
    let chunk_type_2: ChunkType = FromStr::from_str("RuSt").unwrap();
    let _chunk_string = format!("{}", chunk_type_1.to_string());
    let _are_chunks_equal = chunk_type_1 == chunk_type_2;
}

#[test]
pub fn test_chunk_type_all_four_properties() {
    let chunk = ChunkType::from_str("RuSt").unwrap();
    assert!(chunk.is_critical());
    assert!(!chunk.is_public());
    assert!(chunk.is_reserved_bit_valid());
    assert!(chunk.is_safe_to_copy());
    assert!(chunk.is_valid());
}

#[test]
pub fn test_chunk_type_parse_error_is_the_error() {
    assert_eq!(ChunkType::from_str("Ru1t"), Err(ParseError));
    let parsed: Result<ChunkType, ParseError> = "Ru1t".parse();
    assert_eq!(parsed, Err(ParseError));
}

#[test]
pub fn test_chunk_type_wrong_length_is_refused() {
    assert_eq!(ChunkType::from_str(""), Err(ParseError));
    assert_eq!(ChunkType::from_str("RuS"), Err(ParseError));
    assert_eq!(ChunkType::from_str("RuStt"), Err(ParseError));
    assert_eq!(ChunkType::from_str("RuSt "), Err(ParseError));
}

#[test]
pub fn test_chunk_type_non_ascii_letters_are_refused() {
    // Four characters, but not four ASCII letters.
    assert_eq!(ChunkType::from_str("Rüst"), Err(ParseError));
    assert_eq!(ChunkType::from_str("Ru t"), Err(ParseError));
    assert_eq!(ChunkType::from_str("Ru_t"), Err(ParseError));
    assert_eq!(ChunkType::from_str("@uSt"), Err(ParseError));
    assert_eq!(ChunkType::from_str("[uSt"), Err(ParseError));
    assert_eq!(ChunkType::from_str("`uSt"), Err(ParseError));
    assert_eq!(ChunkType::from_str("{uSt"), Err(ParseError));
    // Two characters of two bytes each: four bytes, not four characters.
    assert_eq!(ChunkType::from_str("üü"), Err(ParseError));
}

#[test]
pub fn test_chunk_type_boundary_letters_are_accepted() {
    assert_eq!(ChunkType::from_str("AZaz").unwrap().bytes(), [65, 90, 97, 122]);
}

#[test]
pub fn test_chunk_type_case_counts_in_equality() {
    let upper = ChunkType::from_str("RuSt").unwrap();
    let lower = ChunkType::from_str("rust").unwrap();
    assert_ne!(upper, lower);
    assert_eq!(upper, ChunkType::from_str("RuSt").unwrap());
}

#[test]
pub fn test_chunk_type_raw_bytes_are_kept() {
    let raw = ChunkType::try_from([0, 200, 49, 255]).unwrap();
    assert_eq!(raw.bytes(), [0, 200, 49, 255]);
    assert!(!raw.is_valid());
    assert!(!raw.is_critical());
    assert!(!raw.is_safe_to_copy());
}

#[test]
pub fn test_chunk_type_is_valid_asks_for_four_letters() {
    assert!(!ChunkType::try_from([b'1', b'u', b'S', b't']).unwrap().is_valid());
    assert!(!ChunkType::try_from([b'R', b'1', b'S', b't']).unwrap().is_valid());
    assert!(!ChunkType::try_from([b'R', b'u', b'1', b't']).unwrap().is_valid());
    assert!(!ChunkType::try_from([b'R', b'u', b'S', b'1']).unwrap().is_valid());
    assert!(ChunkType::try_from([b'r', b'U', b'S', b'T']).unwrap().is_valid());
}

#[test]
pub fn test_chunk_type_text_of_raw_bytes() {
    let raw = ChunkType::try_from([b'I', b'D', b'A', b'T']).unwrap();
    assert_eq!(raw.to_string(), "IDAT");
    // A byte above the ASCII range is shown as the character with that code.
    let odd = ChunkType::try_from([0xe9, b'D', b'A', b'T']).unwrap();
    assert_eq!(odd.to_string(), "\u{e9}DAT");
}

#[test]
pub fn test_ascii_letter_ranges() {
    assert!(is_ascii_uppercase(b'A') && is_ascii_uppercase(b'Z'));
    assert!(!is_ascii_uppercase(b'@') && !is_ascii_uppercase(b'['));
    assert!(is_ascii_lowercase(b'a') && is_ascii_lowercase(b'z'));
    assert!(!is_ascii_lowercase(b'`') && !is_ascii_lowercase(b'{'));
    assert!(is_ascii_alphabetic(b'Q') && is_ascii_alphabetic(b'q'));
    assert!(!is_ascii_alphabetic(b'0') && !is_ascii_alphabetic(0xc4));
}
