//! One chunk of a PNG file: its length, type, data and checksum, and the bytes
//! that it is written as.

use crate::checksum::{checksum_ieee, crc32_ieee};
use crate::chunk_type::{type_text, ChunkType};
use crate::endian::{
    be_bytes, be_value, from_be_bytes, lemma_be_bytes_of_value, lemma_be_value_of_bytes, to_be_bytes,
};
use crate::error::{DecodeError, EncodingError};
use crate::text::{decimal, push_decimal};
use std::convert::TryFrom;
use vstd::prelude::*;
use vstd::slice::{slice_subrange, slice_to_vec};
use vstd::std_specs::convert::TryFromSpecImpl;
use vstd::string::StringExecFns;
use vstd::utf8::{decode_utf8, valid_utf8};

verus! {

/// What a chunk is, as plain values.
pub struct ChunkView {
    /// How many bytes of data there are.
    pub length: u32,
    /// The four bytes of the chunk's type.
    pub chunk_type: Seq<u8>,
    /// The bytes of data.
    pub data: Seq<u8>,
    /// The checksum over the type and the data.
    pub crc: u32,
}

impl ChunkView {
    /// What holds of every chunk: the type has four bytes, the length is that
    /// of the data, and the checksum is that of the type followed by the data.
    pub open spec fn wf(self) -> bool {
        &&& self.chunk_type.len() == 4
        &&& self.length == self.data.len()
        &&& self.crc == crc32_ieee(self.chunk_type + self.data)
    }

    /// The chunk with the given type and data.
    pub open spec fn new(chunk_type: Seq<u8>, data: Seq<u8>) -> ChunkView {
        ChunkView {
            length: data.len() as u32,
            chunk_type,
            data,
            crc: crc32_ieee(chunk_type + data),
        }
    }
}

/// The bytes of a chunk: its length in four bytes, most significant first,
/// the four bytes of its type, its data, and its checksum in four bytes, most
/// significant first.
pub open spec fn encode_chunk(c: ChunkView) -> Seq<u8> {
    be_bytes(c.length) + c.chunk_type + c.data + be_bytes(c.crc)
}

/// The chunk that a byte string starts with, its checksum read but not yet
/// checked. The first four bytes give the length `n` of the data, the next
/// four the type; `n` bytes of data follow, then four bytes of checksum. Bytes
/// after those are not looked at.
pub open spec fn decode_frame(bytes: Seq<u8>) -> Result<ChunkView, DecodeError> {
    if bytes.len() < 8 {
        Err(DecodeError::Truncated)
    } else {
        let length = be_value(bytes.subrange(0, 4));
        if bytes.len() < 12 + length {
            Err(DecodeError::Truncated)
        } else {
            Ok(
                ChunkView {
                    length,
                    chunk_type: bytes.subrange(4, 8),
                    data: bytes.subrange(8, 8 + length),
                    crc: be_value(bytes.subrange(8 + length, 12 + length)),
                },
            )
        }
    }
}

/// The chunk that a byte string starts with: the one that `decode_frame`
/// finds there, if the checksum stored with it is that of its type and data.
pub open spec fn decode_chunk(bytes: Seq<u8>) -> Result<ChunkView, DecodeError> {
    match decode_frame(bytes) {
        Err(e) => Err(e),
        Ok(c) => if c.crc == crc32_ieee(c.chunk_type + c.data) {
            Ok(c)
        } else {
            Err(DecodeError::InvalidChecksum)
        },
    }
}

/// A chunk that `Chunk::new` builds, written out and read back, is the same
/// chunk: the same length, type, data and checksum.
pub proof fn lemma_round_trip_of_new(chunk_type: Seq<u8>, data: Seq<u8>)
    requires
        chunk_type.len() == 4,
        data.len() <= u32::MAX,
    ensures
        ChunkView::new(chunk_type, data).wf(),
        decode_chunk(encode_chunk(ChunkView::new(chunk_type, data))) == Ok::<ChunkView, DecodeError>(
            ChunkView::new(chunk_type, data),
        ),
{
    lemma_round_trip(ChunkView::new(chunk_type, data));
}

/// A chunk that is written out and read back is the same chunk. This holds
/// of every chunk, since every chunk is well formed.
pub proof fn lemma_round_trip(c: ChunkView)
    requires
        c.wf(),
    ensures
        decode_chunk(encode_chunk(c)) == Ok::<ChunkView, DecodeError>(c),
{
    lemma_decode_encode(c, Seq::empty());
    assert(encode_chunk(c) + Seq::<u8>::empty() =~= encode_chunk(c));
}

/// A chunk that is written out is read back as the same chunk whatever bytes
/// follow it.
pub proof fn lemma_decode_encode(c: ChunkView, rest: Seq<u8>)
    requires
        c.wf(),
    ensures
        decode_chunk(encode_chunk(c) + rest) == Ok::<ChunkView, DecodeError>(c),
{
    lemma_decode_encoded_frame(c, rest);
}

/// Reading back the bytes of a length, a type, data and a checksum gives
/// those four, whatever bytes follow and whether or not the checksum is right.
pub proof fn lemma_decode_encoded_frame(c: ChunkView, rest: Seq<u8>)
    requires
        c.chunk_type.len() == 4,
        c.length == c.data.len(),
    ensures
        decode_frame(encode_chunk(c) + rest) == Ok::<ChunkView, DecodeError>(c),
{
    let bytes = encode_chunk(c) + rest;
    lemma_be_value_of_bytes(c.length);
    lemma_be_value_of_bytes(c.crc);
    assert(bytes.subrange(0, 4) =~= be_bytes(c.length));
    assert(bytes.subrange(4, 8) =~= c.chunk_type);
    assert(bytes.subrange(8, 8 + c.length) =~= c.data);
    assert(bytes.subrange(8 + c.length, 12 + c.length) =~= be_bytes(c.crc));
}

/// Bytes of a chunk in which type or data were changed, with the length and
/// the stored checksum left as they were, are refused for their checksum
/// exactly when the checksum of the changed type and data differs from the
/// stored one; otherwise they are read as the changed chunk.
pub proof fn lemma_changed_chunk(c: ChunkView, chunk_type: Seq<u8>, data: Seq<u8>, rest: Seq<u8>)
    requires
        c.wf(),
        chunk_type.len() == 4,
        data.len() == c.data.len(),
    ensures
        decode_chunk(be_bytes(c.length) + chunk_type + data + be_bytes(c.crc) + rest) == (if c.crc
            == crc32_ieee(chunk_type + data) {
            Ok::<ChunkView, DecodeError>(ChunkView { chunk_type, data, ..c })
        } else {
            Err::<ChunkView, DecodeError>(DecodeError::InvalidChecksum)
        }),
{
    lemma_decode_encoded_frame(ChunkView { chunk_type, data, ..c }, rest);
}

/// What `decode_chunk` accepts is a well-formed chunk, and the bytes that it
/// was read from are the bytes that it is written as.
pub proof fn lemma_encode_decode(bytes: Seq<u8>)
    requires
        decode_chunk(bytes) is Ok,
    ensures
        decode_chunk(bytes)->Ok_0.wf(),
        12 + decode_chunk(bytes)->Ok_0.length <= bytes.len(),
        encode_chunk(decode_chunk(bytes)->Ok_0) == bytes.subrange(
            0,
            12 + decode_chunk(bytes)->Ok_0.length,
        ),
{
    let c = decode_chunk(bytes)->Ok_0;
    lemma_be_bytes_of_value(bytes.subrange(0, 4));
    lemma_be_bytes_of_value(bytes.subrange(8 + c.length, 12 + c.length));
    assert(encode_chunk(c) =~= bytes.subrange(0, 12 + c.length));
}

/// A chunk is written as twelve bytes and its data.
pub proof fn lemma_encode_chunk_len(c: ChunkView)
    ensures
        encode_chunk(c).len() == 12 + c.chunk_type.len() + c.data.len() - 4,
{
    lemma_be_value_of_bytes(c.length);
    lemma_be_value_of_bytes(c.crc);
}

/// What a chunk is shown as: its length, its type, the number of bytes of its
/// data and its checksum, each on a line of its own. The data is not shown.
pub open spec fn summary(c: ChunkView) -> Seq<char> {
    "Length: "@ + decimal(c.length as nat) + "\nType: "@ + type_text(c.chunk_type)
        + "\nData bytes: "@ + decimal(c.data.len()) + "\nCRC: "@ + decimal(c.crc as nat) + "\n"@
}

/// A chunk of a PNG file.
#[derive(Debug)]
pub struct Chunk {
    length: u32,
    chunk_type: ChunkType,
    data: Vec<u8>,
    crc: u32,
}

impl View for Chunk {
    type V = ChunkView;

    closed spec fn view(&self) -> ChunkView {
        ChunkView {
            length: self.length,
            chunk_type: self.chunk_type@,
            data: self.data@,
            crc: self.crc,
        }
    }
}

/// The checksum of a chunk with the given type and data.
pub fn checksum(chunk_type: &ChunkType, data: &[u8]) -> (sum: u32)
    ensures
        sum == crc32_ieee(chunk_type@ + data@),
{
    let name = chunk_type.bytes();
    let mut covered: Vec<u8> = Vec::new();
    covered.extend_from_slice(name.as_slice());
    covered.extend_from_slice(data);
    proof {
        chunk_type.lemma_view_len();
        assert(covered@ =~= chunk_type@ + data@);
    }
    checksum_ieee(covered.as_slice())
}

/// Splits the chunk that `bytes` starts with into its type, its data and the
/// checksum stored with them. The checksum is not checked here.
pub fn read_frame(bytes: &[u8]) -> (r: Result<(ChunkType, Vec<u8>, u32), DecodeError>)
    ensures
        match r {
            Ok((chunk_type, data, crc)) => decode_frame(bytes@) == Ok::<ChunkView, DecodeError>(
                ChunkView { length: data@.len() as u32, chunk_type: chunk_type@, data: data@, crc },
            ) && data@.len() <= u32::MAX,
            Err(e) => decode_frame(bytes@) == Err::<ChunkView, DecodeError>(e),
        },
{
    let n = bytes.len();
    if n < 8 {
        return Err(DecodeError::Truncated);
    }
    let length = from_be_bytes([bytes[0], bytes[1], bytes[2], bytes[3]]);
    proof {
        assert(bytes@.subrange(0, 4) =~= seq![bytes@[0], bytes@[1], bytes@[2], bytes@[3]]);
    }
    if n < 12 || ((n - 12) as u64) < (length as u64) {
        return Err(DecodeError::Truncated);
    }
    let len = length as usize;
    let chunk_type = ChunkType::try_from([bytes[4], bytes[5], bytes[6], bytes[7]]).unwrap();
    let data = slice_to_vec(slice_subrange(bytes, 8, 8 + len));
    let crc = from_be_bytes([bytes[8 + len], bytes[9 + len], bytes[10 + len], bytes[11 + len]]);
    proof {
        assert(bytes@.subrange(4, 8) =~= chunk_type@);
        assert(bytes@.subrange(8 + length, 12 + length) =~= seq![
            bytes@[8 + len],
            bytes@[9 + len],
            bytes@[10 + len],
            bytes@[11 + len],
        ]);
    }
    Ok((chunk_type, data, crc))
}

impl Chunk {
    /// Every chunk is well formed.
    #[verifier::type_invariant]
    pub open spec fn inv(&self) -> bool {
        self@.wf()
    }

    /// The chunk with the given type and data. Its length and checksum are
    /// computed here.
    pub fn new(chunk_type: ChunkType, data: Vec<u8>) -> (c: Chunk)
        requires
            data@.len() <= u32::MAX,
        ensures
            c@ == ChunkView::new(chunk_type@, data@),
            c@.wf(),
    {
        let crc = checksum(&chunk_type, data.as_slice());
        proof {
            chunk_type.lemma_view_len();
        }
        Chunk { length: data.len() as u32, chunk_type, data, crc }
    }

    /// The chunk with the given type and data, if the checksum that was stored
    /// with them is the one computed over them. `computed_crc` is what
    /// `checksum` gives for this type and data.
    pub fn from_parts(
        chunk_type: ChunkType,
        data: Vec<u8>,
        stored_crc: u32,
        computed_crc: u32,
    ) -> (r: Result<Chunk, DecodeError>)
        requires
            data@.len() <= u32::MAX,
            computed_crc == crc32_ieee(chunk_type@ + data@),
        ensures
            r is Ok <==> stored_crc == computed_crc,
            r matches Ok(c) ==> c@ == ChunkView::new(chunk_type@, data@) && c@.wf(),
            r matches Err(e) ==> e == DecodeError::InvalidChecksum,
    {
        if stored_crc == computed_crc {
            proof {
                chunk_type.lemma_view_len();
            }
            Ok(Chunk { length: data.len() as u32, chunk_type, data, crc: computed_crc })
        } else {
            Err(DecodeError::InvalidChecksum)
        }
    }

    /// Reads the chunk that `bytes` starts with.
    pub fn try_from(bytes: &[u8]) -> (r: Result<Chunk, DecodeError>)
        ensures
            match r {
                Ok(c) => decode_chunk(bytes@) == Ok::<ChunkView, DecodeError>(c@) && c@.wf(),
                Err(e) => decode_chunk(bytes@) == Err::<ChunkView, DecodeError>(e),
            },
    {
        match read_frame(bytes) {
            Err(e) => Err(e),
            Ok((chunk_type, data, stored_crc)) => {
                let computed_crc = checksum(&chunk_type, data.as_slice());
                Chunk::from_parts(chunk_type, data, stored_crc, computed_crc)
            },
        }
    }

    /// How many bytes of data the chunk has.
    pub fn length(&self) -> (r: u32)
        ensures
            r == self@.length,
            r == self@.data.len(),
    {
        proof {
            use_type_invariant(self);
        }
        self.length
    }

    /// The type of the chunk.
    pub fn chunk_type(&self) -> (r: &ChunkType)
        ensures
            r@ == self@.chunk_type,
            r@.len() == 4,
    {
        proof {
            self.chunk_type.lemma_view_len();
        }
        &self.chunk_type
    }

    /// The bytes of data.
    pub fn data(&self) -> (r: &[u8])
        ensures
            r@ == self@.data,
    {
        self.data.as_slice()
    }

    /// The checksum over the type and the data.
    pub fn crc(&self) -> (r: u32)
        ensures
            r == self@.crc,
            r == crc32_ieee(self@.chunk_type + self@.data),
    {
        proof {
            use_type_invariant(self);
        }
        self.crc
    }

    /// The data as text, if it is UTF-8.
    pub fn data_as_string(&self) -> (r: Result<String, EncodingError>)
        ensures
            r is Ok <==> valid_utf8(self@.data),
            r matches Ok(s) ==> s@ == decode_utf8(self@.data),
    {
        let copy = self.data.clone();
        proof {
            assert(copy@ =~= self.data@);
        }
        match String::from_utf8(copy) {
            Ok(s) => Ok(s),
            Err(_) => Err(EncodingError),
        }
    }

    /// The chunk in words, for a reader: see `summary`.
    pub fn to_string(&self) -> (s: String)
        ensures
            s@ == summary(self@),
    {
        let mut s = String::new();
        s.append("Length: ");
        push_decimal(&mut s, self.length as u64);
        s.append("\nType: ");
        s.append(self.chunk_type.to_string().as_str());
        s.append("\nData bytes: ");
        push_decimal(&mut s, self.data.len() as u64);
        s.append("\nCRC: ");
        push_decimal(&mut s, self.crc as u64);
        s.append("\n");
        proof {
            assert(s@ =~= summary(self@));
        }
        s
    }

    /// The bytes that the chunk is written as.
    pub fn as_bytes(&self) -> (r: Vec<u8>)
        ensures
            r@ == encode_chunk(self@),
    {
        let length = to_be_bytes(self.length);
        let name = self.chunk_type.bytes();
        let crc = to_be_bytes(self.crc);
        let mut out: Vec<u8> = Vec::new();
        out.extend_from_slice(length.as_slice());
        out.extend_from_slice(name.as_slice());
        out.extend_from_slice(self.data.as_slice());
        out.extend_from_slice(crc.as_slice());
        proof {
            lemma_be_value_of_bytes(self.length);
            lemma_be_value_of_bytes(self.crc);
            self.chunk_type.lemma_view_len();
            assert(out@ =~= encode_chunk(self@));
        }
        out
    }
}

/// The error that tells why bytes are not UTF-8, as `String::from_utf8` gives it.
#[verifier::external_type_specification]
#[verifier::external_body]
pub struct ExFromUtf8Error(std::string::FromUtf8Error);

/// `String::from_utf8` succeeds exactly on UTF-8, and the string then is the
/// text that the bytes encode.
pub assume_specification[ String::from_utf8 ](vec: Vec<u8>) -> (r: Result<
    String,
    std::string::FromUtf8Error,
>)
    ensures
        r is Ok <==> valid_utf8(vec@),
        r matches Ok(s) ==> s@ == decode_utf8(vec@),
;

impl<'a> TryFrom<&'a [u8]> for Chunk {
    type Error = DecodeError;

    /// The same as `Chunk::try_from`.
    fn try_from(bytes: &'a [u8]) -> (r: Result<Self, DecodeError>)
        ensures
            match r {
                Ok(c) => decode_chunk(bytes@) == Ok::<ChunkView, DecodeError>(c@) && c@.wf(),
                Err(e) => decode_chunk(bytes@) == Err::<ChunkView, DecodeError>(e),
            },
    {
        Chunk::try_from(bytes)
    }
}

impl<'a> TryFromSpecImpl<&'a [u8]> for Chunk {
    open spec fn obeys_try_from_spec() -> bool {
        false
    }

    open spec fn try_from_spec(v: &'a [u8]) -> Result<Self, DecodeError> {
        arbitrary()
    }
}

} // verus!
