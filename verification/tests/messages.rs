use chunktype::ascii::{is_ascii_lowercase, is_ascii_uppercase};
use chunktype::chunk_type::{ChunkType, ChunkTypeDecodingError};
use chunktype::text::push_numeral;
use std::str::FromStr;

#[test]
fn bad_byte_message_gives_decimal_and_binary() {
    assert_eq!(
        ChunkTypeDecodingError::BadByte(49).to_string(),
        "Bad byte: 49 (110001)"
    );
    assert_eq!(
        ChunkTypeDecodingError::BadByte(0).to_string(),
        "Bad byte: 0 (0)"
    );
    assert_eq!(
        ChunkTypeDecodingError::BadByte(1).to_string(),
        "Bad byte: 1 (1)"
    );
    assert_eq!(
        ChunkTypeDecodingError::BadByte(32).to_string(),
        "Bad byte: 32 (100000)"
    );
    assert_eq!(
        ChunkTypeDecodingError::BadByte(255).to_string(),
        "Bad byte: 255 (11111111)"
    );
}

#[test]
fn bad_byte_message_for_every_byte() {
    for byte in 0..=255u8 {
        assert_eq!(
            ChunkTypeDecodingError::BadByte(byte).to_string(),
            format!("Bad byte: {} ({:b})", byte, byte)
        );
    }
}

#[test]
fn bad_length_message_gives_the_length_and_the_expected_one() {
    assert_eq!(
        ChunkTypeDecodingError::BadLength(0).to_string(),
        "Bad length: 0 (expected 4)"
    );
    assert_eq!(
        ChunkTypeDecodingError::BadLength(3).to_string(),
        "Bad length: 3 (expected 4)"
    );
    assert_eq!(
        ChunkTypeDecodingError::BadLength(5).to_string(),
        "Bad length: 5 (expected 4)"
    );
    assert_eq!(
        ChunkTypeDecodingError::BadLength(10).to_string(),
        "Bad length: 10 (expected 4)"
    );
    assert_eq!(
        ChunkTypeDecodingError::BadLength(1234567890).to_string(),
        "Bad length: 1234567890 (expected 4)"
    );
    assert_eq!(
        ChunkTypeDecodingError::BadLength(usize::MAX).to_string(),
        format!("Bad length: {} (expected 4)", usize::MAX)
    );
}

#[test]
fn message_of_a_refused_text() {
    let error = ChunkType::from_str("Ru1t").unwrap_err();
    assert_eq!(error.to_string(), "Bad byte: 49 (110001)");
    let error = ChunkType::from_str("Rusty").unwrap_err();
    assert_eq!(error.to_string(), "Bad length: 5 (expected 4)");
}

#[test]
fn numeral_in_base_ten() {
    for (n, digits) in [
        (0usize, "0"),
        (7, "7"),
        (9, "9"),
        (10, "10"),
        (99, "99"),
        (100, "100"),
        (4096, "4096"),
        (1000000007, "1000000007"),
    ] {
        let mut out = String::new();
        push_numeral(&mut out, n, 10);
        assert_eq!(out, digits);
    }
}

#[test]
fn numeral_in_base_two_and_eight() {
    for n in [0usize, 1, 2, 3, 7, 8, 63, 64, 255, 256, 65535, usize::MAX] {
        let mut binary = String::new();
        push_numeral(&mut binary, n, 2);
        assert_eq!(binary, format!("{:b}", n));
        let mut octal = String::new();
        push_numeral(&mut octal, n, 8);
        assert_eq!(octal, format!("{:o}", n));
    }
    let mut out = String::new();
    push_numeral(&mut out, 5, 2);
    assert_eq!(out, "101");
}

#[test]
fn numeral_is_appended_to_what_is_there() {
    let mut out = String::from("n = ");
    push_numeral(&mut out, 42, 10);
    assert_eq!(out, "n = 42");
    push_numeral(&mut out, 0, 10);
    assert_eq!(out, "n = 420");
}

#[test]
fn case_tests_are_ascii_only() {
    for byte in 0..=255u8 {
        assert_eq!(is_ascii_uppercase(byte), (b'A'..=b'Z').contains(&byte));
        assert_eq!(is_ascii_lowercase(byte), (b'a'..=b'z').contains(&byte));
    }
    // Latin-1 letters with a case are no ASCII letters.
    assert!(!is_ascii_uppercase(0xc9));
    assert!(!is_ascii_lowercase(0xe9));
}
