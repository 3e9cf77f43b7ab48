//! The chunk type: four ASCII letters whose cases carry four flags.

use crate::ascii::{
    all_letter_chars, all_letters, first_non_letter, is_ascii_lowercase, is_ascii_uppercase,
    is_letter, is_lower, is_upper, lemma_ascii_encoding, lemma_encoding_length,
    lemma_first_non_letter_at, lemma_first_non_letter_found, lemma_letter_text, spelled,
};
use crate::text::{numeral, push_numeral};
use std::str::FromStr;
use vstd::prelude::*;
use vstd::std_specs::cmp::PartialEqSpecImpl;
use vstd::std_specs::convert::TryFromSpecImpl;
use vstd::utf8::encode_utf8;

verus! {

/// Why an input was refused as a chunk type.
#[derive(Debug, Clone, Copy, PartialEq, Eq, Structural)]
pub enum ChunkTypeDecodingError {
    /// The input holds this byte, which is not an ASCII letter.
    BadByte(u8),
    /// The input is a text of this many characters, and not of four.
    BadLength(usize),
}

impl ChunkTypeDecodingError {
    /// The message that tells a reader which rule was broken, and by what.
    pub open spec fn message(self) -> Seq<char> {
        match self {
            ChunkTypeDecodingError::BadByte(byte) => "Bad byte: "@ + numeral(byte as nat, 10)
                + " ("@ + numeral(byte as nat, 2) + ")"@,
            ChunkTypeDecodingError::BadLength(len) => "Bad length: "@ + numeral(len as nat, 10)
                + " (expected 4)"@,
        }
    }

    /// Renders the error for a reader: a bad byte in decimal and, in
    /// brackets, in binary; a bad length in decimal beside the expected one.
    pub fn to_string(&self) -> (text: String)
        ensures
            text@ == self.message(),
    {
        let mut text = String::new();
        match *self {
            ChunkTypeDecodingError::BadByte(byte) => {
                text.append("Bad byte: ");
                push_numeral(&mut text, byte as usize, 10);
                text.append(" (");
                push_numeral(&mut text, byte as usize, 2);
                text.append(")");
            },
            ChunkTypeDecodingError::BadLength(len) => {
                text.append("Bad length: ");
                push_numeral(&mut text, len, 10);
                text.append(" (expected 4)");
            },
        }
        assert(text@ =~= self.message());
        text
    }
}

/// A chunk type. It holds four bytes, each of them an ASCII letter, and can
/// only be made from input that was checked to be so.
#[derive(Debug, Eq)]
pub struct ChunkType {
    ct_bytes: [u8; 4],
}

impl View for ChunkType {
    type V = Seq<u8>;

    /// The four bytes, in order.
    closed spec fn view(&self) -> Seq<u8> {
        self.ct_bytes@
    }
}

impl ChunkType {
    /// Every byte that a chunk type holds is an ASCII letter.
    #[verifier::type_invariant]
    spec fn only_letters(&self) -> bool {
        all_letters(self.ct_bytes@)
    }

    /// The chunk type whose four bytes are `bytes[0]` to `bytes[3]`.
    pub closed spec fn holding(bytes: Seq<u8>) -> ChunkType {
        ChunkType { ct_bytes: [bytes[0], bytes[1], bytes[2], bytes[3]] }
    }

    /// What bytes are read as: the first of them that is not a letter, or,
    /// where all are letters, the chunk type that holds them. Only four
    /// bytes make a chunk type: `try_from` reads an array of four, and the
    /// encoding of four characters is four bytes long wherever all of its
    /// bytes are letters.
    pub open spec fn decode_bytes(bytes: Seq<u8>) -> Result<ChunkType, ChunkTypeDecodingError> {
        match first_non_letter(bytes) {
            Some(byte) => Err(ChunkTypeDecodingError::BadByte(byte)),
            None => Ok(ChunkType::holding(bytes)),
        }
    }

    /// What a text is read as. Its length is judged first, and is counted
    /// in characters; a text of four characters is then read as the bytes
    /// of its UTF-8 encoding, so that a character outside ASCII is refused
    /// for the first byte of its encoding.
    pub open spec fn decode_text(text: Seq<char>) -> Result<ChunkType, ChunkTypeDecodingError> {
        if text.len() != 4 {
            Err(ChunkTypeDecodingError::BadLength(text.len() as usize))
        } else {
            ChunkType::decode_bytes(encode_utf8(text))
        }
    }

    /// A chunk type has four bytes.
    pub proof fn lemma_four_bytes(self)
        ensures
            self@.len() == 4,
    {
    }

    /// `holding` is the inverse of the view.
    pub proof fn lemma_holding(bytes: Seq<u8>)
        requires
            bytes.len() == 4,
        ensures
            ChunkType::holding(bytes)@ == bytes,
    {
        assert(ChunkType::holding(bytes)@ =~= bytes);
    }

    /// Chunk types are equal exactly when they hold the same bytes.
    pub proof fn lemma_equal_by_bytes(self, other: ChunkType)
        ensures
            self == other <==> self@ == other@,
    {
        if self@ == other@ {
            assert(self.ct_bytes =~= other.ct_bytes);
        }
    }

    /// The four bytes, as a copy.
    pub fn bytes(&self) -> (out: [u8; 4])
        ensures
            out@ == self@,
            all_letters(out@),
    {
        proof {
            use_type_invariant(self);
        }
        self.ct_bytes
    }

    /// Whether the chunk is critical: the first letter is a capital.
    pub fn is_critical(&self) -> (critical: bool)
        ensures
            critical == is_upper(self@[0]),
    {
        is_ascii_uppercase(self.ct_bytes[0])
    }

    /// Whether the chunk is public: the second letter is a capital.
    pub fn is_public(&self) -> (public: bool)
        ensures
            public == is_upper(self@[1]),
    {
        is_ascii_uppercase(self.ct_bytes[1])
    }

    /// Whether the reserved bit is as it must be: the third letter is a
    /// capital.
    pub fn is_reserved_bit_valid(&self) -> (reserved_ok: bool)
        ensures
            reserved_ok == is_upper(self@[2]),
    {
        is_ascii_uppercase(self.ct_bytes[2])
    }

    /// Whether the chunk is safe to copy: the fourth letter is a small one.
    pub fn is_safe_to_copy(&self) -> (safe: bool)
        ensures
            safe == is_lower(self@[3]),
    {
        is_ascii_lowercase(self.ct_bytes[3])
    }

    /// Whether the chunk type is valid, which asks for the reserved bit and
    /// for nothing else.
    pub fn is_valid(&self) -> (valid: bool)
        ensures
            valid == is_upper(self@[2]),
    {
        self.is_reserved_bit_valid()
    }

    /// Whether `byte` may stand in a chunk type: an ASCII letter.
    pub fn is_valid_byte(byte: u8) -> (valid: bool)
        ensures
            valid == is_letter(byte),
    {
        is_ascii_uppercase(byte) || is_ascii_lowercase(byte)
    }

    /// The four letters as text: one character for each byte, in order, and
    /// nothing else.
    pub fn to_string(&self) -> (text: String)
        ensures
            text@ == spelled(self@),
            text@.len() == 4,
            all_letter_chars(text@),
    {
        proof {
            use_type_invariant(self);
            lemma_letter_text(self@);
        }
        let mut text = String::new();
        let mut i: usize = 0;
        while i < 4
            invariant
                i <= 4,
                text@ == spelled(self@.take(i as int)),
            decreases 4 - i,
        {
            text.push(self.ct_bytes[i] as char);
            i += 1;
            assert(text@ =~= spelled(self@.take(i as int)));
        }
        assert(self@.take(4) =~= self@);
        text
    }
}

impl TryFrom<[u8; 4]> for ChunkType {
    type Error = ChunkTypeDecodingError;

    /// Reads four bytes as a chunk type. They are taken as they are where
    /// all are ASCII letters; else the first that is not comes back.
    fn try_from(bytes: [u8; 4]) -> (made: Result<ChunkType, ChunkTypeDecodingError>)
        ensures
            made == ChunkType::decode_bytes(bytes@),
            made matches Ok(tag) ==> tag@ == bytes@,
    {
        let mut i: usize = 0;
        while i < 4
            invariant
                i <= 4,
                forall|j: int| 0 <= j < i ==> is_letter(#[trigger] bytes@[j]),
            decreases 4 - i,
        {
            let byte = bytes[i];
            if !ChunkType::is_valid_byte(byte) {
                proof {
                    lemma_first_non_letter_at(bytes@, i as int);
                }
                return Err(ChunkTypeDecodingError::BadByte(byte));
            }
            i += 1;
        }
        let tag = ChunkType { ct_bytes: bytes };
        proof {
            lemma_first_non_letter_found(bytes@);
            ChunkType::lemma_holding(bytes@);
            tag.lemma_equal_by_bytes(ChunkType::holding(bytes@));
        }
        Ok(tag)
    }
}

impl TryFromSpecImpl<[u8; 4]> for ChunkType {
    open spec fn obeys_try_from_spec() -> bool {
        true
    }

    open spec fn try_from_spec(bytes: [u8; 4]) -> Result<ChunkType, ChunkTypeDecodingError> {
        ChunkType::decode_bytes(bytes@)
    }
}

impl FromStr for ChunkType {
    type Err = ChunkTypeDecodingError;

    /// Reads a text as a chunk type. A text that is not four characters
    /// long is refused for its length, whatever it holds; one of four
    /// characters is read as the bytes of its encoding.
    fn from_str(s: &str) -> (made: Result<ChunkType, ChunkTypeDecodingError>)
        ensures
            made == ChunkType::decode_text(s@),
            made matches Ok(tag) ==> tag@ == encode_utf8(s@),
    {
        let len = s.unicode_len();
        if len != 4 {
            return Err(ChunkTypeDecodingError::BadLength(len));
        }
        let raw = s.as_bytes();
        proof {
            lemma_encoding_length(s@);
        }
        let mut str_bytes: [u8; 4] = [0; 4];
        let mut index: usize = 0;
        while index < 4
            invariant
                index <= 4,
                s@.len() == 4,
                raw@.len() >= 4,
                raw@ == encode_utf8(s@),
                forall|j: int| 0 <= j < index ==> is_letter(#[trigger] raw@[j]),
                forall|j: int| 0 <= j < index ==> str_bytes@[j] == raw@[j],
            decreases 4 - index,
        {
            let byte = raw[index];
            if ChunkType::is_valid_byte(byte) {
                str_bytes[index] = byte;
            } else {
                proof {
                    lemma_first_non_letter_at(raw@, index as int);
                }
                return Err(ChunkTypeDecodingError::BadByte(byte));
            }
            index += 1;
        }
        proof {
            assert forall|j: int| 0 <= j < s@.len() implies #[trigger] raw@[j] < 0x80 by {
                assert(is_letter(raw@[j]));
            }
            lemma_ascii_encoding(s@);
        }
        assert(str_bytes@ =~= raw@);
        let tag = ChunkType { ct_bytes: str_bytes };
        proof {
            lemma_first_non_letter_found(raw@);
            ChunkType::lemma_holding(raw@);
            tag.lemma_equal_by_bytes(ChunkType::holding(raw@));
        }
        Ok(tag)
    }
}

impl PartialEq for ChunkType {
    fn eq(&self, other: &ChunkType) -> (same: bool) {
        let same = self.ct_bytes[0] == other.ct_bytes[0] && self.ct_bytes[1] == other.ct_bytes[1]
            && self.ct_bytes[2] == other.ct_bytes[2] && self.ct_bytes[3] == other.ct_bytes[3];
        proof {
            if same {
                assert(self@ =~= other@);
            }
        }
        same
    }
}

impl PartialEqSpecImpl for ChunkType {
    open spec fn obeys_eq_spec() -> bool {
        true
    }

    open spec fn eq_spec(&self, other: &ChunkType) -> bool {
        self@ == other@
    }
}

impl Clone for ChunkType {
    fn clone(&self) -> (copy: ChunkType)
        ensures
            copy == *self,
    {
        proof {
            use_type_invariant(self);
        }
        ChunkType { ct_bytes: self.ct_bytes }
    }
}

} // verus!
