//! What holds between reading, rendering and comparing chunk types.
//!
//! Reading is `ChunkType::decode_bytes` and `ChunkType::decode_text`, which
//! are what `try_from` and `from_str` return; rendering is `spelled`, which
//! is what `to_string` returns for the bytes of a chunk type.

use crate::ascii::{
    all_letter_chars, all_letters, is_letter, is_letter_char, lemma_ascii_encoding,
    lemma_encoding_after_ascii, lemma_encoding_length, lemma_first_byte,
    lemma_first_non_letter_at, lemma_first_non_letter_found, lemma_letter_text,
    lemma_letter_text_encoding, lemma_letters_are_ascii, lemma_spelled_encoding, spelled,
};
use crate::chunk_type::{ChunkType, ChunkTypeDecodingError};
use vstd::prelude::*;
use vstd::std_specs::cmp::PartialEqSpec;
use vstd::utf8::{encode_scalar, encode_utf8};

verus! {

/// Four bytes are accepted exactly when all of them are letters, and the
/// chunk type then holds them as they are, in their order.
pub proof fn lemma_bytes_kept(bytes: Seq<u8>)
    requires
        bytes.len() == 4,
    ensures
        ChunkType::decode_bytes(bytes) is Ok <==> all_letters(bytes),
        ChunkType::decode_bytes(bytes) matches Ok(tag) ==> tag@ == bytes,
{
    lemma_first_non_letter_found(bytes);
    ChunkType::lemma_holding(bytes);
}

/// A text is accepted exactly when it is four ASCII letters.
pub proof fn lemma_text_accepted(text: Seq<char>)
    ensures
        ChunkType::decode_text(text) is Ok <==> text.len() == 4 && all_letter_chars(text),
{
    let bytes = encode_utf8(text);
    if text.len() == 4 && all_letter_chars(text) {
        lemma_letter_text_encoding(text);
        lemma_bytes_kept(bytes);
    }
    if ChunkType::decode_text(text) is Ok {
        lemma_first_non_letter_found(bytes);
        lemma_letters_are_ascii(bytes);
        lemma_encoding_length(text);
        lemma_ascii_encoding(text);
        lemma_spelled_encoding(bytes);
        lemma_letter_text(bytes);
    }
}

/// Round trip through text: the chunk type read from a text of four
/// letters spells that same text.
pub proof fn lemma_text_round_trip(text: Seq<char>)
    requires
        text.len() == 4,
        all_letter_chars(text),
    ensures
        ChunkType::decode_text(text) matches Ok(tag) && spelled(tag@) == text,
{
    lemma_letter_text_encoding(text);
    lemma_bytes_kept(encode_utf8(text));
}

/// Round trip through bytes: four letters give a chunk type that holds
/// them, and the text they spell is read as that same chunk type.
pub proof fn lemma_bytes_round_trip(bytes: Seq<u8>)
    requires
        bytes.len() == 4,
        all_letters(bytes),
    ensures
        ChunkType::decode_bytes(bytes) matches Ok(tag) && tag@ == bytes,
        ChunkType::decode_text(spelled(bytes)) == ChunkType::decode_bytes(bytes),
{
    lemma_bytes_kept(bytes);
    lemma_letters_are_ascii(bytes);
    lemma_spelled_encoding(bytes);
}

/// Bytes with a non-letter among them are refused, with the first
/// non-letter as the bad byte, wherever it stands.
pub proof fn lemma_bytes_refused(bytes: Seq<u8>, at: int)
    requires
        0 <= at < bytes.len(),
        !is_letter(bytes[at]),
        forall|j: int| 0 <= j < at ==> is_letter(#[trigger] bytes[j]),
    ensures
        ChunkType::decode_bytes(bytes) == Err::<ChunkType, ChunkTypeDecodingError>(
            ChunkTypeDecodingError::BadByte(bytes[at]),
        ),
{
    lemma_first_non_letter_at(bytes, at);
}

/// A text of four characters with a non-letter among them is refused for
/// the first of these, wherever it stands. The bad byte is the first byte
/// of its encoding, which for an ASCII character is its code.
pub proof fn lemma_text_refused(text: Seq<char>, at: int)
    requires
        text.len() == 4,
        0 <= at < 4,
        !is_letter_char(text[at]),
        forall|j: int| 0 <= j < at ==> is_letter_char(#[trigger] text[j]),
    ensures
        ChunkType::decode_text(text) == Err::<ChunkType, ChunkTypeDecodingError>(
            ChunkTypeDecodingError::BadByte(encode_scalar(text[at] as u32)[0]),
        ),
        text[at] <= '\u{7f}' ==> encode_scalar(text[at] as u32)[0] == text[at] as u8,
{
    let bytes = encode_utf8(text);
    assert forall|j: int| 0 <= j < at implies #[trigger] text[j] <= '\u{7f}' by {
        assert(is_letter_char(text[j]));
    }
    lemma_encoding_after_ascii(text, at);
    lemma_first_byte(text[at]);
    assert forall|j: int| 0 <= j < at implies is_letter(#[trigger] bytes[j]) by {
        assert(is_letter_char(text[j]));
    }
    lemma_first_non_letter_at(bytes, at);
}

/// Whatever is refused for a byte is refused for a byte of the input that
/// is not a letter.
pub proof fn lemma_bad_byte_is_non_letter(bytes: Seq<u8>)
    requires
        !all_letters(bytes),
    ensures
        ChunkType::decode_bytes(bytes) matches Err(ChunkTypeDecodingError::BadByte(byte))
            && !is_letter(byte) && bytes.contains(byte),
{
    lemma_first_non_letter_found(bytes);
}

/// The length is judged before the letters: a text that is not four
/// characters long is refused for its length, whatever it holds.
pub proof fn lemma_length_judged_first(text: Seq<char>)
    requires
        text.len() != 4,
    ensures
        ChunkType::decode_text(text) == Err::<ChunkType, ChunkTypeDecodingError>(
            ChunkTypeDecodingError::BadLength(text.len() as usize),
        ),
{
}

/// The same four letters give chunk types that compare equal, whether they
/// come as bytes or as text.
pub proof fn lemma_same_letters_equal(bytes: Seq<u8>, text: Seq<char>)
    requires
        bytes.len() == 4,
        all_letters(bytes),
        text == spelled(bytes),
    ensures
        ChunkType::decode_bytes(bytes) matches Ok(a) && ChunkType::decode_text(text) matches Ok(b)
            && a == b && a.eq_spec(&b),
{
    lemma_bytes_round_trip(bytes);
}

/// Letters that differ in any place give chunk types that compare unequal.
pub proof fn lemma_different_letters_unequal(first: Seq<u8>, second: Seq<u8>)
    requires
        first.len() == 4,
        second.len() == 4,
        all_letters(first),
        all_letters(second),
        first != second,
    ensures
        ChunkType::decode_bytes(first) matches Ok(a) && ChunkType::decode_bytes(second) matches Ok(
            b,
        ) && a != b && !a.eq_spec(&b),
{
    lemma_bytes_kept(first);
    lemma_bytes_kept(second);
}

} // verus!
