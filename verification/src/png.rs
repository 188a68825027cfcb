//! A PNG file: the eight signature bytes and the chunks that follow them, in
//! the order of the file.

use crate::chunk::{
    decode_chunk, encode_chunk, lemma_decode_encode, lemma_encode_chunk_len, lemma_encode_decode, Chunk,
    ChunkView,
};
use crate::chunk_type::type_text;
use crate::error::{DecodeError, RemovalError};
use std::convert::TryFrom;
use vstd::prelude::*;
use vstd::slice::slice_subrange;
use vstd::std_specs::convert::TryFromSpecImpl;

verus! {

/// The eight bytes that every PNG file starts with.
pub open spec fn signature() -> Seq<u8> {
    seq![137u8, 80, 78, 71, 13, 10, 26, 10]
}

/// The bytes of a sequence of chunks: those of each chunk, one after the other.
pub open spec fn encode_chunks(chunks: Seq<ChunkView>) -> Seq<u8>
    decreases chunks.len(),
{
    if chunks.len() == 0 {
        Seq::empty()
    } else {
        encode_chunk(chunks.first()) + encode_chunks(chunks.drop_first())
    }
}

/// The bytes of a file with the given chunks.
pub open spec fn encode_png(chunks: Seq<ChunkView>) -> Seq<u8> {
    signature() + encode_chunks(chunks)
}

/// The chunks that a byte string is made of: chunk after chunk is read until
/// no byte is left. The first chunk that cannot be read fails the whole.
pub open spec fn decode_chunks(bytes: Seq<u8>) -> Result<Seq<ChunkView>, DecodeError>
    decreases bytes.len(),
{
    if bytes.len() == 0 {
        Ok(Seq::empty())
    } else {
        match decode_chunk(bytes) {
            Err(e) => Err(e),
            Ok(c) => then_chunks(seq![c], decode_chunks(bytes.skip(12 + c.length))),
        }
    }
}

/// The chunks `done` followed by those of `rest`, where `rest` has any.
pub open spec fn then_chunks(done: Seq<ChunkView>, rest: Result<Seq<ChunkView>, DecodeError>) -> Result<
    Seq<ChunkView>,
    DecodeError,
> {
    match rest {
        Ok(more) => Ok(done + more),
        Err(e) => Err(e),
    }
}

/// No chunks followed by those of `rest` are those of `rest`.
pub proof fn lemma_then_chunks_empty(rest: Result<Seq<ChunkView>, DecodeError>)
    ensures
        then_chunks(Seq::empty(), rest) == rest,
{
    match rest {
        Ok(more) => {
            assert(Seq::<ChunkView>::empty() + more =~= more);
        },
        Err(_) => {},
    }
}

/// The chunks of a file: the bytes start with the signature, and what follows
/// it is read as chunks.
pub open spec fn decode_png(bytes: Seq<u8>) -> Result<Seq<ChunkView>, DecodeError> {
    if bytes.len() < 8 || bytes.subrange(0, 8) != signature() {
        Err(DecodeError::BadSignature)
    } else {
        decode_chunks(bytes.skip(8))
    }
}

/// Every chunk of the sequence is well formed.
pub open spec fn all_wf(chunks: Seq<ChunkView>) -> bool {
    forall|i: int| 0 <= i < chunks.len() ==> (#[trigger] chunks[i]).wf()
}

/// Whether the type of the chunk is shown as `text`.
pub open spec fn has_type(c: ChunkView, text: Seq<char>) -> bool {
    type_text(c.chunk_type) == text
}

/// Whether the chunk at `i` is the first one of the type `text`.
pub open spec fn is_first_of_type(chunks: Seq<ChunkView>, text: Seq<char>, i: int) -> bool {
    &&& 0 <= i < chunks.len()
    &&& has_type(chunks[i], text)
    &&& forall|j: int| 0 <= j < i ==> !has_type(#[trigger] chunks[j], text)
}

/// Where the first chunk of the type `text` stands, if there is one.
pub open spec fn first_of_type(chunks: Seq<ChunkView>, text: Seq<char>) -> Option<int> {
    if exists|i: int| is_first_of_type(chunks, text, i) {
        Some(choose|i: int| is_first_of_type(chunks, text, i))
    } else {
        None
    }
}

/// The first chunk of a type stands at one place only.
pub proof fn lemma_first_of_type_at(chunks: Seq<ChunkView>, text: Seq<char>, i: int)
    requires
        is_first_of_type(chunks, text, i),
    ensures
        first_of_type(chunks, text) == Some(i),
{
    let k = choose|k: int| is_first_of_type(chunks, text, k);
    assert(k == i) by {
        if k < i {
            assert(!has_type(chunks[k], text));
        }
        if i < k {
            assert(!has_type(chunks[i], text));
        }
    }
}

/// There is a first chunk of a type exactly when some chunk has that type.
pub proof fn lemma_first_of_type_none(chunks: Seq<ChunkView>, text: Seq<char>)
    ensures
        first_of_type(chunks, text) is None <==> forall|j: int|
            0 <= j < chunks.len() ==> !has_type(#[trigger] chunks[j], text),
        first_of_type(chunks, text) matches Some(i) ==> is_first_of_type(chunks, text, i),
{
    if exists|j: int| 0 <= j < chunks.len() && has_type(#[trigger] chunks[j], text) {
        let j = choose|j: int| 0 <= j < chunks.len() && has_type(#[trigger] chunks[j], text);
        lemma_first_up_to(chunks, text, j);
    }
}

/// A chunk of a type has a first chunk of that type at or before it.
proof fn lemma_first_up_to(chunks: Seq<ChunkView>, text: Seq<char>, j: int)
    requires
        0 <= j < chunks.len(),
        has_type(chunks[j], text),
    ensures
        exists|i: int| 0 <= i <= j && is_first_of_type(chunks, text, i),
    decreases j,
{
    if exists|k: int| 0 <= k < j && has_type(#[trigger] chunks[k], text) {
        let k = choose|k: int| 0 <= k < j && has_type(#[trigger] chunks[k], text);
        lemma_first_up_to(chunks, text, k);
    } else {
        assert(is_first_of_type(chunks, text, j));
    }
}

/// The bytes of chunks with one more chunk at the end are the bytes of the
/// chunks followed by those of the last.
pub proof fn lemma_encode_chunks_push(chunks: Seq<ChunkView>, c: ChunkView)
    ensures
        encode_chunks(chunks.push(c)) == encode_chunks(chunks) + encode_chunk(c),
    decreases chunks.len(),
{
    if chunks.len() == 0 {
        assert(chunks.push(c).drop_first() =~= chunks);
        assert(encode_chunks(chunks.push(c)) =~= encode_chunks(chunks) + encode_chunk(c));
    } else {
        assert(chunks.push(c).drop_first() =~= chunks.drop_first().push(c));
        lemma_encode_chunks_push(chunks.drop_first(), c);
        assert(encode_chunks(chunks.push(c)) =~= encode_chunks(chunks) + encode_chunk(c));
    }
}

/// Chunks that are written out and read back are the same chunks.
pub proof fn lemma_decode_encode_chunks(chunks: Seq<ChunkView>)
    requires
        all_wf(chunks),
    ensures
        decode_chunks(encode_chunks(chunks)) == Ok::<Seq<ChunkView>, DecodeError>(chunks),
    decreases chunks.len(),
{
    if chunks.len() == 0 {
        assert(chunks =~= Seq::empty());
    } else {
        let c = chunks.first();
        let tail = chunks.drop_first();
        let bytes = encode_chunks(chunks);
        assert(c.wf());
        assert(all_wf(tail)) by {
            assert forall|i: int| 0 <= i < tail.len() implies (#[trigger] tail[i]).wf() by {
                assert(tail[i] == chunks[i + 1]);
            }
        }
        lemma_decode_encode(c, encode_chunks(tail));
        lemma_decode_encode_chunks(tail);
        lemma_encode_chunk_len(c);
        assert(bytes.skip(12 + c.length) =~= encode_chunks(tail));
        assert(seq![c] + tail =~= chunks);
    }
}

/// A file that is written out and read back has the same chunks: for every
/// sequence of chunks, reading the bytes of the file that holds them gives
/// that sequence.
pub proof fn lemma_decode_encode_png(chunks: Seq<ChunkView>)
    requires
        all_wf(chunks),
    ensures
        decode_png(encode_png(chunks)) == Ok::<Seq<ChunkView>, DecodeError>(chunks),
{
    let bytes = encode_png(chunks);
    assert(bytes.subrange(0, 8) =~= signature());
    assert(bytes.skip(8) =~= encode_chunks(chunks));
    lemma_decode_encode_chunks(chunks);
}

/// Bytes that are read as chunks are the bytes that those chunks are written
/// as, and the chunks are well formed.
pub proof fn lemma_encode_decode_chunks(bytes: Seq<u8>)
    requires
        decode_chunks(bytes) is Ok,
    ensures
        all_wf(decode_chunks(bytes)->Ok_0),
        encode_chunks(decode_chunks(bytes)->Ok_0) == bytes,
    decreases bytes.len(),
{
    if bytes.len() == 0 {
        assert(encode_chunks(decode_chunks(bytes)->Ok_0) =~= bytes);
    } else {
        let c = decode_chunk(bytes)->Ok_0;
        let rest = bytes.skip(12 + c.length);
        let tail = decode_chunks(rest)->Ok_0;
        let chunks = decode_chunks(bytes)->Ok_0;
        lemma_encode_decode(bytes);
        lemma_encode_decode_chunks(rest);
        assert(chunks == seq![c] + tail);
        assert(chunks.first() == c);
        assert(chunks.drop_first() =~= tail);
        assert(encode_chunks(chunks) =~= bytes);
    }
}

/// A file that was read is written out as the bytes that it was read from.
pub proof fn lemma_encode_decode_png(bytes: Seq<u8>)
    requires
        decode_png(bytes) is Ok,
    ensures
        all_wf(decode_png(bytes)->Ok_0),
        encode_png(decode_png(bytes)->Ok_0) == bytes,
{
    lemma_encode_decode_chunks(bytes.skip(8));
    assert(signature() + bytes.skip(8) =~= bytes);
}

/// After a chunk is put at the end, the first chunk of its type is the one
/// that was first before, or the new chunk where there was none.
pub proof fn lemma_first_of_type_push(chunks: Seq<ChunkView>, c: ChunkView, text: Seq<char>)
    ensures
        first_of_type(chunks.push(c), text) == (match first_of_type(chunks, text) {
            Some(i) => Some(i),
            None => if has_type(c, text) {
                Some(chunks.len() as int)
            } else {
                None
            },
        }),
{
    let longer = chunks.push(c);
    lemma_first_of_type_none(chunks, text);
    lemma_first_of_type_none(longer, text);
    match first_of_type(chunks, text) {
        Some(i) => {
            assert(is_first_of_type(longer, text, i)) by {
                assert(longer[i] == chunks[i]);
                assert forall|j: int| 0 <= j < i implies !has_type(#[trigger] longer[j], text) by {
                    assert(longer[j] == chunks[j]);
                }
            }
            lemma_first_of_type_at(longer, text, i);
        },
        None => {
            if has_type(c, text) {
                assert(is_first_of_type(longer, text, chunks.len() as int)) by {
                    assert forall|j: int| 0 <= j < chunks.len() implies !has_type(
                        #[trigger] longer[j],
                        text,
                    ) by {
                        assert(longer[j] == chunks[j]);
                    }
                }
                lemma_first_of_type_at(longer, text, chunks.len() as int);
            } else {
                assert forall|j: int| 0 <= j < longer.len() implies !has_type(
                    #[trigger] longer[j],
                    text,
                ) by {
                    if j < chunks.len() {
                        assert(longer[j] == chunks[j]);
                    }
                }
            }
        },
    }
}

/// Putting a chunk at the end of a file that has none of its type makes it
/// the chunk that is found for that type.
pub proof fn lemma_append_then_find(chunks: Seq<ChunkView>, c: ChunkView)
    requires
        first_of_type(chunks, type_text(c.chunk_type)) is None,
    ensures
        first_of_type(chunks.push(c), type_text(c.chunk_type)) == Some(chunks.len() as int),
        chunks.push(c)[chunks.len() as int] == c,
{
    lemma_first_of_type_push(chunks, c, type_text(c.chunk_type));
}

/// After the first chunk of a type is taken out, no chunk of that type is
/// found, provided that the file held no second one.
pub proof fn lemma_remove_then_find(chunks: Seq<ChunkView>, text: Seq<char>, i: int)
    requires
        is_first_of_type(chunks, text, i),
        forall|j: int| i < j < chunks.len() ==> !has_type(#[trigger] chunks[j], text),
    ensures
        first_of_type(chunks.remove(i), text) is None,
{
    let shorter = chunks.remove(i);
    assert forall|j: int| 0 <= j < shorter.len() implies !has_type(#[trigger] shorter[j], text) by {
        if j < i {
            assert(shorter[j] == chunks[j]);
        } else {
            assert(shorter[j] == chunks[j + 1]);
        }
    }
    lemma_first_of_type_none(shorter, text);
}

/// A PNG file, as the chunks that it holds.
#[derive(Debug)]
pub struct Png {
    chunks: Vec<Chunk>,
}

impl View for Png {
    type V = Seq<ChunkView>;

    /// The chunks, in the order of the file.
    closed spec fn view(&self) -> Seq<ChunkView> {
        self.chunks@.map_values(|c: Chunk| c@)
    }
}

impl Png {
    /// The eight bytes that every PNG file starts with.
    pub const STANDARD_HEADER: [u8; 8] = [137, 80, 78, 71, 13, 10, 26, 10];

    /// Every chunk of a file is well formed.
    #[verifier::type_invariant]
    pub open spec fn inv(&self) -> bool {
        all_wf(self@)
    }

    /// Reads a file. Nothing is kept of a file in which one chunk cannot be read.
    pub fn try_from(bytes: &[u8]) -> (r: Result<Png, DecodeError>)
        ensures
            match r {
                Ok(png) => decode_png(bytes@) == Ok::<Seq<ChunkView>, DecodeError>(png@) && all_wf(
                    png@,
                ),
                Err(e) => decode_png(bytes@) == Err::<Seq<ChunkView>, DecodeError>(e),
            },
    {
        let n = bytes.len();
        if n < 8 {
            return Err(DecodeError::BadSignature);
        }
        let mut k: usize = 0;
        while k < 8
            invariant
                k <= 8 <= n == bytes@.len(),
                forall|j: int| 0 <= j < k ==> bytes@[j] == signature()[j],
            decreases 8 - k,
        {
            if bytes[k] != Png::STANDARD_HEADER[k] {
                proof {
                    assert(bytes@.subrange(0, 8)[k as int] != signature()[k as int]);
                }
                return Err(DecodeError::BadSignature);
            }
            k += 1;
        }
        proof {
            assert(bytes@.subrange(0, 8) =~= signature());
        }
        let mut chunks: Vec<Chunk> = Vec::new();
        let mut pos: usize = 8;
        proof {
            lemma_then_chunks_empty(decode_chunks(bytes@.skip(8)));
            assert(chunks@.map_values(|c: Chunk| c@) =~= Seq::<ChunkView>::empty());
        }
        while pos < n
            invariant
                8 <= pos <= n == bytes@.len(),
                bytes@.subrange(0, 8) == signature(),
                all_wf(chunks@.map_values(|c: Chunk| c@)),
                decode_chunks(bytes@.skip(8)) == then_chunks(
                    chunks@.map_values(|c: Chunk| c@),
                    decode_chunks(bytes@.skip(pos as int)),
                ),
            decreases n - pos,
        {
            let rest = slice_subrange(bytes, pos, n);
            let ghost done = chunks@.map_values(|c: Chunk| c@);
            proof {
                assert(rest@ =~= bytes@.skip(pos as int));
            }
            match Chunk::try_from(rest) {
                Err(e) => {
                    proof {
                        assert(decode_chunks(rest@) == Err::<Seq<ChunkView>, DecodeError>(e));
                    }
                    return Err(e);
                },
                Ok(c) => {
                    proof {
                        lemma_encode_decode(rest@);
                        assert(rest@.skip(12 + c@.length) =~= bytes@.skip(pos + 12 + c@.length));
                        assert(chunks@.push(c).map_values(|c: Chunk| c@) =~= done.push(c@));
                        match decode_chunks(bytes@.skip(pos + 12 + c@.length)) {
                            Ok(more) => {
                                assert(done + (seq![c@] + more) =~= done.push(c@) + more);
                            },
                            Err(_) => {},
                        }
                    }
                    pos = pos + 12 + c.length() as usize;
                    chunks.push(c);
                },
            }
        }
        proof {
            assert(bytes@.skip(pos as int) =~= Seq::<u8>::empty());
            assert(chunks@.map_values(|c: Chunk| c@) + Seq::<ChunkView>::empty()
                =~= chunks@.map_values(|c: Chunk| c@));
        }
        Ok(Png { chunks })
    }

    /// The bytes of the file: the signature, then each chunk in turn.
    pub fn as_bytes(&self) -> (r: Vec<u8>)
        ensures
            r@ == encode_png(self@),
    {
        let mut out: Vec<u8> = Vec::new();
        out.extend_from_slice(Png::STANDARD_HEADER.as_slice());
        assert(out@ =~= signature());
        let mut i: usize = 0;
        while i < self.chunks.len()
            invariant
                i <= self.chunks.len(),
                out@ == signature() + encode_chunks(self@.take(i as int)),
            decreases self.chunks.len() - i,
        {
            let bytes = self.chunks[i].as_bytes();
            out.extend_from_slice(bytes.as_slice());
            proof {
                lemma_encode_chunks_push(self@.take(i as int), self@[i as int]);
                assert(self@.take(i + 1) =~= self@.take(i as int).push(self@[i as int]));
                assert(out@ =~= signature() + encode_chunks(self@.take(i + 1)));
            }
            i += 1;
        }
        proof {
            assert(self@.take(i as int) =~= self@);
        }
        out
    }

    /// Puts a chunk at the end of the file. Nothing is asked of its type or of
    /// the chunks that are there already.
    pub fn append_chunk(&mut self, chunk: Chunk)
        ensures
            final(self)@ == old(self)@.push(chunk@),
    {
        proof {
            use_type_invariant(&*self);
            use_type_invariant(&chunk);
            assert(self.chunks@.push(chunk).map_values(|c: Chunk| c@) =~= self@.push(chunk@));
        }
        // The chunks are taken out while they change: what stays behind is a
        // well-formed file at every moment.
        let mut chunks: Vec<Chunk> = Vec::new();
        std::mem::swap(&mut self.chunks, &mut chunks);
        chunks.push(chunk);
        std::mem::swap(&mut self.chunks, &mut chunks);
    }

    /// The first chunk of the given type, if the file holds one.
    pub fn chunk_by_type(&self, chunk_type: &str) -> (r: Option<&Chunk>)
        ensures
            match first_of_type(self@, chunk_type@) {
                Some(i) => r matches Some(c) && c@ == self@[i],
                None => r is None,
            },
    {
        match self.position(chunk_type) {
            Some(i) => {
                let c = &self.chunks[i];
                assert(self@[i as int] == c@);
                Some(c)
            },
            None => None,
        }
    }

    /// Takes the first chunk of the given type out of the file. A file that
    /// holds none is left as it is.
    pub fn remove_chunk(&mut self, chunk_type: &str) -> (r: Result<(), RemovalError>)
        ensures
            match first_of_type(old(self)@, chunk_type@) {
                Some(i) => r is Ok && final(self)@ == old(self)@.remove(i),
                None => r == Err::<(), RemovalError>(RemovalError::NotFound) && final(self)@ == old(
                    self,
                )@,
            },
    {
        match self.position(chunk_type) {
            Some(i) => {
                proof {
                    use_type_invariant(&*self);
                    assert(self.chunks@.remove(i as int).map_values(|c: Chunk| c@) =~= self@.remove(
                        i as int,
                    ));
                }
                // As in `append_chunk`, the chunks are taken out while they change.
                let mut chunks: Vec<Chunk> = Vec::new();
                std::mem::swap(&mut self.chunks, &mut chunks);
                let _ = chunks.remove(i);
                std::mem::swap(&mut self.chunks, &mut chunks);
                Ok(())
            },
            None => Err(RemovalError::NotFound),
        }
    }

    /// The chunks of the file, in order.
    pub fn chunks(&self) -> (r: &[Chunk])
        ensures
            r@.len() == self@.len(),
            forall|i: int| 0 <= i < r@.len() ==> (#[trigger] r@[i])@ == self@[i],
    {
        self.chunks.as_slice()
    }

    /// Where the first chunk of the given type stands.
    fn position(&self, chunk_type: &str) -> (r: Option<usize>)
        ensures
            match r {
                Some(i) => first_of_type(self@, chunk_type@) == Some(i as int) && i
                    < self.chunks@.len(),
                None => first_of_type(self@, chunk_type@) is None,
            },
    {
        let wanted: String = chunk_type.to_owned();
        let mut i: usize = 0;
        while i < self.chunks.len()
            invariant
                i <= self.chunks.len(),
                wanted@ == chunk_type@,
                forall|j: int| 0 <= j < i ==> !has_type(#[trigger] self@[j], chunk_type@),
            decreases self.chunks.len() - i,
        {
            let name = self.chunks[i].chunk_type().to_string();
            if name == wanted {
                proof {
                    lemma_first_of_type_at(self@, chunk_type@, i as int);
                }
                return Some(i);
            }
            i += 1;
        }
        proof {
            lemma_first_of_type_none(self@, chunk_type@);
        }
        None
    }
}

impl<'a> TryFrom<&'a [u8]> for Png {
    type Error = DecodeError;

    /// The same as `Png::try_from`.
    fn try_from(bytes: &'a [u8]) -> (r: Result<Self, DecodeError>)
        ensures
            match r {
                Ok(png) => decode_png(bytes@) == Ok::<Seq<ChunkView>, DecodeError>(png@) && all_wf(
                    png@,
                ),
                Err(e) => decode_png(bytes@) == Err::<Seq<ChunkView>, DecodeError>(e),
            },
    {
        Png::try_from(bytes)
    }
}

impl<'a> TryFromSpecImpl<&'a [u8]> for Png {
    open spec fn obeys_try_from_spec() -> bool {
        false
    }

    open spec fn try_from_spec(v: &'a [u8]) -> Result<Self, DecodeError> {
        arbitrary()
    }
}

} // verus!
