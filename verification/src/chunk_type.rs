//! The four-byte type of a chunk, and the four properties that the case of its
//! letters encodes.

use crate::error::ParseError;
use std::convert::TryFrom;
use std::str::FromStr;
use vstd::prelude::*;
use vstd::std_specs::cmp::PartialEqSpecImpl;
use vstd::std_specs::convert::TryFromSpecImpl;

verus! {

/// An upper-case ASCII letter.
pub open spec fn is_upper(b: u8) -> bool {
    0x41 <= b <= 0x5a
}

/// A lower-case ASCII letter.
pub open spec fn is_lower(b: u8) -> bool {
    0x61 <= b <= 0x7a
}

/// An ASCII letter of either case.
pub open spec fn is_letter(b: u8) -> bool {
    is_upper(b) || is_lower(b)
}

/// The texts that name a chunk type: four characters, each an ASCII letter.
pub open spec fn is_type_text(text: Seq<char>) -> bool {
    &&& text.len() == 4
    &&& forall|i: int| 0 <= i < 4 ==> is_letter_char(#[trigger] text[i])
}

/// An ASCII letter, as a character.
pub open spec fn is_letter_char(c: char) -> bool {
    ('A' <= c && c <= 'Z') || ('a' <= c && c <= 'z')
}

/// The bytes that stand for a text, one byte for each character. It is meant
/// for texts whose characters are all below U+0100.
pub open spec fn text_bytes(text: Seq<char>) -> Seq<u8> {
    Seq::new(text.len(), |i: int| text[i] as u8)
}

/// The text that four type bytes are shown as: each byte as the character with
/// that code. For ASCII bytes this is the text that they encode.
pub open spec fn type_text(name: Seq<u8>) -> Seq<char> {
    Seq::new(name.len(), |i: int| name[i] as char)
}

/// Whether the four bytes are a type that the PNG standard admits: four
/// ASCII letters, the third of them upper-case.
pub open spec fn is_valid_type(name: Seq<u8>) -> bool {
    &&& is_letter(name[0])
    &&& is_letter(name[1])
    &&& is_upper(name[2])
    &&& is_letter(name[3])
}

/// The type of a chunk: four bytes, kept exactly as they were given.
#[derive(Clone, Copy, Debug, Eq)]
pub struct ChunkType {
    chunk_name: [u8; 4],
}

impl View for ChunkType {
    type V = Seq<u8>;

    /// The four bytes, in order.
    closed spec fn view(&self) -> Seq<u8> {
        self.chunk_name@
    }
}

impl ChunkType {
    /// The view of a chunk type has four bytes.
    pub broadcast proof fn lemma_view_len(self)
        ensures
            #[trigger] self@.len() == 4,
    {
    }

    /// The text that the type is shown as.
    pub open spec fn text(&self) -> Seq<char> {
        type_text(self@)
    }

    /// Keeps four raw bytes as a chunk type. No byte is refused or changed:
    /// whether they form an admissible type is what `is_valid` tells.
    pub fn try_from(value: [u8; 4]) -> (r: Result<ChunkType, ParseError>)
        ensures
            r is Ok,
            r->Ok_0@ == value@,
    {
        Ok(ChunkType { chunk_name: value })
    }

    /// Reads a chunk type from its text.
    pub fn from_str(s: &str) -> (r: Result<ChunkType, ParseError>)
        ensures
            r is Ok <==> is_type_text(s@),
            r matches Ok(t) ==> t@ == text_bytes(s@) && t.text() == s@,
    {
        if s.unicode_len() != 4 {
            return Err(ParseError);
        }
        let mut name: [u8; 4] = [0u8; 4];
        let mut i: usize = 0;
        while i < 4
            invariant
                i <= 4,
                s@.len() == 4,
                forall|j: int|
                    0 <= j < i ==> is_letter_char(#[trigger] s@[j]) && name@[j] == s@[j] as u8,
            decreases 4 - i,
        {
            let c: char = s.get_char(i);
            if !(('A' <= c && c <= 'Z') || ('a' <= c && c <= 'z')) {
                return Err(ParseError);
            }
            name[i] = c as u8;
            i += 1;
        }
        let t = ChunkType { chunk_name: name };
        proof {
            assert(t@ =~= text_bytes(s@));
            assert forall|j: int| 0 <= j < 4 implies t.text()[j] == s@[j] by {
                assert(is_letter_char(s@[j]));
            }
            assert(t.text() =~= s@);
        }
        Ok(t)
    }

    /// The four bytes.
    pub fn bytes(&self) -> (r: [u8; 4])
        ensures
            r@ == self@,
    {
        self.chunk_name
    }

    /// Whether a decoder has to understand this chunk to show the image: the
    /// first letter is upper-case.
    pub fn is_critical(&self) -> (r: bool)
        ensures
            r == is_upper(self@[0]),
    {
        is_ascii_uppercase(self.chunk_name[0])
    }

    /// Whether the type is one that the PNG standard defines rather than a private
    /// one: the second letter is upper-case.
    pub fn is_public(&self) -> (r: bool)
        ensures
            r == is_upper(self@[1]),
    {
        is_ascii_uppercase(self.chunk_name[1])
    }

    /// Whether the reserved bit is as version 1.2 of the PNG standard asks:
    /// the third letter is upper-case.
    pub fn is_reserved_bit_valid(&self) -> (r: bool)
        ensures
            r == is_upper(self@[2]),
    {
        is_ascii_uppercase(self.chunk_name[2])
    }

    /// Whether an editor that does not know the chunk may copy it into a
    /// changed file: the fourth letter is lower-case.
    pub fn is_safe_to_copy(&self) -> (r: bool)
        ensures
            r == is_lower(self@[3]),
    {
        is_ascii_lowercase(self.chunk_name[3])
    }

    /// Whether the type is admissible: every byte is an ASCII letter and the
    /// reserved bit is valid.
    pub fn is_valid(&self) -> (r: bool)
        ensures
            r == is_valid_type(self@),
    {
        self.is_reserved_bit_valid() && is_ascii_alphabetic(self.chunk_name[0])
            && is_ascii_alphabetic(self.chunk_name[1]) && is_ascii_alphabetic(self.chunk_name[3])
    }

    /// The type as text, one character for each byte.
    pub fn to_string(&self) -> (s: String)
        ensures
            s@ == self.text(),
    {
        let mut s = String::new();
        let mut i: usize = 0;
        while i < 4
            invariant
                i <= 4,
                s@ == self.text().take(i as int),
            decreases 4 - i,
        {
            s.push(self.chunk_name[i] as char);
            i += 1;
            assert(s@ =~= self.text().take(i as int));
        }
        assert(self.text().take(4) =~= self.text());
        s
    }
}

/// Whether a byte is an upper-case ASCII letter.
pub fn is_ascii_uppercase(b: u8) -> (r: bool)
    ensures
        r == is_upper(b),
{
    0x41 <= b && b <= 0x5a
}

/// Whether a byte is a lower-case ASCII letter.
pub fn is_ascii_lowercase(b: u8) -> (r: bool)
    ensures
        r == is_lower(b),
{
    0x61 <= b && b <= 0x7a
}

/// Whether a byte is an ASCII letter.
pub fn is_ascii_alphabetic(b: u8) -> (r: bool)
    ensures
        r == is_letter(b),
{
    is_ascii_uppercase(b) || is_ascii_lowercase(b)
}

impl PartialEq for ChunkType {
    /// Two chunk types are equal when their bytes are: case counts.
    fn eq(&self, other: &Self) -> (r: bool) {
        let r = self.chunk_name[0] == other.chunk_name[0] && self.chunk_name[1]
            == other.chunk_name[1] && self.chunk_name[2] == other.chunk_name[2]
            && self.chunk_name[3] == other.chunk_name[3];
        proof {
            if r {
                assert(self@ =~= other@);
            }
        }
        r
    }
}

impl PartialEqSpecImpl for ChunkType {
    open spec fn obeys_eq_spec() -> bool {
        true
    }

    open spec fn eq_spec(&self, other: &Self) -> bool {
        self@ == other@
    }
}

impl TryFrom<[u8; 4]> for ChunkType {
    type Error = ParseError;

    /// The same as `ChunkType::try_from`.
    fn try_from(value: [u8; 4]) -> (r: Result<Self, ParseError>)
        ensures
            r is Ok,
            r->Ok_0@ == value@,
    {
        ChunkType::try_from(value)
    }
}

impl TryFromSpecImpl<[u8; 4]> for ChunkType {
    open spec fn obeys_try_from_spec() -> bool {
        false
    }

    open spec fn try_from_spec(v: [u8; 4]) -> Result<Self, ParseError> {
        arbitrary()
    }
}

impl FromStr for ChunkType {
    type Err = ParseError;

    /// The same as `ChunkType::from_str`.
    fn from_str(s: &str) -> (r: Result<Self, ParseError>)
        ensures
            r is Ok <==> is_type_text(s@),
            r matches Ok(t) ==> t@ == text_bytes(s@) && t.text() == s@,
    {
        ChunkType::from_str(s)
    }
}

} // verus!
