//! The ASCII letters, as classes of bytes and of characters, and the
//! correspondence between a text and the bytes of its UTF-8 encoding where
//! these are ASCII.

use vstd::prelude::*;
use vstd::utf8::{
    encode_scalar, encode_utf8, encode_utf8_decode_utf8, has_width_1_encoding, is_ascii_chars,
    is_ascii_chars_encode_utf8,
};

verus! {

/// An ASCII capital letter: `A` (0x41) to `Z` (0x5a).
pub open spec fn is_upper(byte: u8) -> bool {
    0x41 <= byte <= 0x5a
}

/// An ASCII small letter: `a` (0x61) to `z` (0x7a).
pub open spec fn is_lower(byte: u8) -> bool {
    0x61 <= byte <= 0x7a
}

/// An ASCII letter of either case.
pub open spec fn is_letter(byte: u8) -> bool {
    is_upper(byte) || is_lower(byte)
}

/// The character `c` is an ASCII letter of either case.
pub open spec fn is_letter_char(c: char) -> bool {
    ('A' <= c <= 'Z') || ('a' <= c <= 'z')
}

/// Every byte of `bytes` is an ASCII letter.
pub open spec fn all_letters(bytes: Seq<u8>) -> bool {
    forall|i: int| 0 <= i < bytes.len() ==> is_letter(#[trigger] bytes[i])
}

/// Every character of `text` is an ASCII letter.
pub open spec fn all_letter_chars(text: Seq<char>) -> bool {
    forall|i: int| 0 <= i < text.len() ==> is_letter_char(#[trigger] text[i])
}

/// The first byte of `bytes` that is not an ASCII letter, if there is one.
pub open spec fn first_non_letter(bytes: Seq<u8>) -> Option<u8>
    decreases bytes.len(),
{
    if bytes.len() == 0 {
        None
    } else if !is_letter(bytes[0]) {
        Some(bytes[0])
    } else {
        first_non_letter(bytes.drop_first())
    }
}

/// The text that `bytes` spells when each byte stands for the character with
/// its code.
pub open spec fn spelled(bytes: Seq<u8>) -> Seq<char> {
    Seq::new(bytes.len(), |i: int| bytes[i] as char)
}

/// Whether `byte` is an ASCII capital letter. No other alphabet counts.
pub fn is_ascii_uppercase(byte: u8) -> (upper: bool)
    ensures
        upper == is_upper(byte),
{
    0x41 <= byte && byte <= 0x5a
}

/// Whether `byte` is an ASCII small letter. No other alphabet counts.
pub fn is_ascii_lowercase(byte: u8) -> (lower: bool)
    ensures
        lower == is_lower(byte),
{
    0x61 <= byte && byte <= 0x7a
}

/// Where `bytes[at]` is not a letter and every byte before it is,
/// `bytes[at]` is the first non-letter.
pub proof fn lemma_first_non_letter_at(bytes: Seq<u8>, at: int)
    requires
        0 <= at < bytes.len(),
        !is_letter(bytes[at]),
        forall|j: int| 0 <= j < at ==> is_letter(#[trigger] bytes[j]),
    ensures
        first_non_letter(bytes) == Some(bytes[at]),
    decreases at,
{
    if at > 0 {
        lemma_first_non_letter_at(bytes.drop_first(), at - 1);
    }
}

/// There is a first non-letter exactly when some byte is not a letter; it
/// then is a non-letter that occurs in `bytes`.
pub proof fn lemma_first_non_letter_found(bytes: Seq<u8>)
    ensures
        first_non_letter(bytes) is None <==> all_letters(bytes),
        first_non_letter(bytes) matches Some(byte) ==> !is_letter(byte) && bytes.contains(byte),
    decreases bytes.len(),
{
    if bytes.len() > 0 {
        let rest = bytes.drop_first();
        lemma_first_non_letter_found(rest);
        if is_letter(bytes[0]) {
            if all_letters(rest) {
                assert forall|i: int| 0 <= i < bytes.len() implies is_letter(
                    #[trigger] bytes[i],
                ) by {
                    if i > 0 {
                        assert(bytes[i] == rest[i - 1]);
                    }
                }
            } else {
                let k = choose|k: int| 0 <= k < rest.len() && !is_letter(#[trigger] rest[k]);
                assert(bytes[k + 1] == rest[k]);
            }
            if first_non_letter(rest) is Some {
                let byte = first_non_letter(rest)->Some_0;
                let k = choose|k: int| 0 <= k < rest.len() && rest[k] == byte;
                assert(bytes[k + 1] == byte);
            }
        } else {
            assert(bytes.contains(bytes[0]));
        }
    }
}

/// ASCII bytes are the UTF-8 encoding of the text they spell, and of no
/// other text.
pub proof fn lemma_spelled_encoding(bytes: Seq<u8>)
    requires
        forall|i: int| 0 <= i < bytes.len() ==> #[trigger] bytes[i] < 0x80,
    ensures
        is_ascii_chars(spelled(bytes)),
        encode_utf8(spelled(bytes)) == bytes,
        forall|text: Seq<char>| encode_utf8(text) == bytes ==> text == spelled(bytes),
{
    let text = spelled(bytes);
    is_ascii_chars_encode_utf8(text);
    assert(encode_utf8(text) =~= bytes);
    assert forall|other: Seq<char>| encode_utf8(other) == bytes implies other == text by {
        encode_utf8_decode_utf8(other);
        encode_utf8_decode_utf8(text);
    }
}

/// Letters are ASCII: each is below 0x80.
pub proof fn lemma_letters_are_ascii(bytes: Seq<u8>)
    requires
        all_letters(bytes),
    ensures
        forall|i: int| 0 <= i < bytes.len() ==> #[trigger] bytes[i] < 0x80,
{
    assert forall|i: int| 0 <= i < bytes.len() implies #[trigger] bytes[i] < 0x80 by {
        assert(is_letter(bytes[i]));
    }
}

/// The encoding of one character starts with a byte below 0x80 exactly when
/// the character is ASCII, from `\0` to `\u{7f}`; that byte is then its code,
/// and the only one.
pub proof fn lemma_first_byte(c: char)
    ensures
        '\0' <= c,
        encode_scalar(c as u32).len() >= 1,
        c <= '\u{7f}' ==> encode_scalar(c as u32) == seq![c as u8],
        c > '\u{7f}' ==> encode_scalar(c as u32)[0] >= 0xc0,
{
    let scalar = c as u32;
    if has_width_1_encoding(scalar) {
        assert((scalar & 0x7f) as u8 == scalar as u8) by (bit_vector)
            requires
                scalar <= 0x7f,
        ;
    } else {
        assert forall|low: u8| 0xc0u8 | low >= 0xc0 && 0xe0u8 | low >= 0xc0 && 0xf0u8 | low
            >= 0xc0 by {
            assert(0xc0u8 | low >= 0xc0 && 0xe0u8 | low >= 0xc0 && 0xf0u8 | low >= 0xc0)
                by (bit_vector);
        }
    }
}

/// The encoding of a text has at least one byte for each character.
pub proof fn lemma_encoding_length(text: Seq<char>)
    ensures
        encode_utf8(text).len() >= text.len(),
    decreases text.len(),
{
    if text.len() > 0 {
        lemma_first_byte(text[0]);
        lemma_encoding_length(text.drop_first());
    }
}

/// Where the first bytes of the encoding, one for each character, are
/// below 0x80, the text is ASCII and its encoding has no more bytes.
pub proof fn lemma_ascii_encoding(text: Seq<char>)
    requires
        forall|i: int| 0 <= i < text.len() ==> #[trigger] encode_utf8(text)[i] < 0x80,
    ensures
        is_ascii_chars(text),
        encode_utf8(text).len() == text.len(),
    decreases text.len(),
{
    if text.len() > 0 {
        let rest = text.drop_first();
        let head = encode_scalar(text[0] as u32);
        lemma_first_byte(text[0]);
        lemma_encoding_length(rest);
        assert(encode_utf8(text)[0] == head[0]);
        assert forall|i: int| 0 <= i < rest.len() implies #[trigger] encode_utf8(rest)[i]
            < 0x80 by {
            assert(encode_utf8(text)[i + 1] == encode_utf8(rest)[i]);
        }
        lemma_ascii_encoding(rest);
        assert forall|i: int| 0 <= i < text.len() implies '\0' <= #[trigger] text[i]
            <= '\u{7f}' by {
            if i > 0 {
                assert(text[i] == rest[i - 1]);
            }
        }
    }
    is_ascii_chars_encode_utf8(text);
}

/// Where the characters before `at` are ASCII, the encoding holds their
/// codes, one byte each, and goes on with the encoding of `text[at]`.
pub proof fn lemma_encoding_after_ascii(text: Seq<char>, at: int)
    requires
        0 <= at < text.len(),
        forall|j: int| 0 <= j < at ==> #[trigger] text[j] <= '\u{7f}',
    ensures
        encode_utf8(text).len() > at,
        forall|j: int| 0 <= j < at ==> #[trigger] encode_utf8(text)[j] == text[j] as u8,
        encode_utf8(text)[at] == encode_scalar(text[at] as u32)[0],
    decreases at,
{
    lemma_first_byte(text[0]);
    if at > 0 {
        let rest = text.drop_first();
        assert forall|j: int| 0 <= j < at - 1 implies #[trigger] rest[j] <= '\u{7f}' by {
            assert(rest[j] == text[j + 1]);
        }
        lemma_encoding_after_ascii(rest, at - 1);
        assert forall|j: int| 0 <= j < at implies #[trigger] encode_utf8(text)[j] == text[j]
            as u8 by {
            if j > 0 {
                assert(encode_utf8(text)[j] == encode_utf8(rest)[j - 1]);
                assert(text[j] == rest[j - 1]);
            }
        }
        assert(encode_utf8(text)[at] == encode_utf8(rest)[at - 1]);
    }
}

/// A text of letters is encoded in one byte for each character: the
/// letters themselves, which spell the text.
pub proof fn lemma_letter_text_encoding(text: Seq<char>)
    requires
        all_letter_chars(text),
    ensures
        encode_utf8(text).len() == text.len(),
        all_letters(encode_utf8(text)),
        spelled(encode_utf8(text)) == text,
{
    let bytes = encode_utf8(text);
    assert(is_ascii_chars(text)) by {
        assert forall|i: int| 0 <= i < text.len() implies '\0' <= #[trigger] text[i]
            <= '\u{7f}' by {
            assert(is_letter_char(text[i]));
        }
    }
    is_ascii_chars_encode_utf8(text);
    assert forall|i: int| 0 <= i < bytes.len() implies is_letter(#[trigger] bytes[i]) by {
        assert(is_letter_char(text[i]));
    }
    assert(spelled(bytes) =~= text);
}

/// For letters, the classes of bytes and of characters agree.
pub proof fn lemma_letter_text(bytes: Seq<u8>)
    ensures
        all_letters(bytes) <==> all_letter_chars(spelled(bytes)),
{
    let text = spelled(bytes);
    if all_letters(bytes) {
        assert forall|i: int| 0 <= i < text.len() implies is_letter_char(#[trigger] text[i]) by {
            assert(is_letter(bytes[i]));
        }
    }
    if all_letter_chars(text) {
        assert forall|i: int| 0 <= i < bytes.len() implies is_letter(#[trigger] bytes[i]) by {
            assert(is_letter_char(text[i]));
        }
    }
}

} // verus!
