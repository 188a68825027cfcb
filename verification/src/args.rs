//! The four requests, each as a function from the bytes of a file to what is
//! to be written back or shown. Reading and writing the file is left to the
//! caller.

use crate::chunk::{summary, Chunk, ChunkView};
use crate::commands::{Decode, Encode, Print, Remove};
use crate::error::{DecodeError, EncodingError, Error, RemovalError};
use crate::chunk_type::type_text;
use crate::png::{
    all_wf, decode_png, encode_png, first_of_type, lemma_append_then_find, lemma_decode_encode_png,
    lemma_encode_decode_png, Png,
};
use vstd::prelude::*;
use vstd::slice::slice_to_vec;
use vstd::utf8::{
    decode_utf8, encode_utf8, encode_utf8_decode_utf8, encode_utf8_valid_utf8, valid_utf8,
};

verus! {

/// Reads a file, for a request.
fn read_png(img: &[u8]) -> (r: Result<Png, Error>)
    ensures
        match r {
            Ok(png) => decode_png(img@) == Ok::<Seq<ChunkView>, DecodeError>(png@),
            Err(e) => decode_png(img@) is Err && e == Error::Decode(decode_png(img@)->Err_0),
        },
{
    match Png::try_from(img) {
        Ok(png) => Ok(png),
        Err(e) => Err(Error::Decode(e)),
    }
}

/// The bytes of the file `img` with one more chunk at its end, of the type
/// and with the message of the request. The message is stored as UTF-8.
pub fn encode(e: &Encode, img: &[u8]) -> (r: Result<Vec<u8>, Error>)
    requires
        encode_utf8(e.message@).len() <= u32::MAX,
    ensures
        match decode_png(img@) {
            Ok(chunks) => r matches Ok(out) && out@ == encode_png(
                chunks.push(ChunkView::new(e.chunk_type@, encode_utf8(e.message@))),
            ),
            Err(err) => r == Err::<Vec<u8>, Error>(Error::Decode(err)),
        },
{
    let mut png = read_png(img)?;
    let data = slice_to_vec(e.message.as_str().as_bytes());
    png.append_chunk(Chunk::new(e.chunk_type, data));
    Ok(png.as_bytes())
}

/// The message in the file `img`: the data of the first chunk of the type of
/// the request, as text. Where the file has no such chunk there is no message.
pub fn decode(d: &Decode, img: &[u8]) -> (r: Result<Option<String>, Error>)
    ensures
        match decode_png(img@) {
            Ok(chunks) => match first_of_type(chunks, d.chunk_type.text()) {
                Some(i) => if valid_utf8(chunks[i].data) {
                    r matches Ok(Some(s)) && s@ == decode_utf8(chunks[i].data)
                } else {
                    r == Err::<Option<String>, Error>(Error::Encoding(EncodingError))
                },
                None => r == Ok::<Option<String>, Error>(None),
            },
            Err(err) => r == Err::<Option<String>, Error>(Error::Decode(err)),
        },
{
    let png = read_png(img)?;
    let wanted = d.chunk_type.to_string();
    match png.chunk_by_type(wanted.as_str()) {
        Some(chunk) => match chunk.data_as_string() {
            Ok(s) => Ok(Some(s)),
            Err(e) => Err(Error::Encoding(e)),
        },
        None => Ok(None),
    }
}

/// The bytes of the file `img` without its first chunk of the type of the request.
pub fn remove(r: &Remove, img: &[u8]) -> (out: Result<Vec<u8>, Error>)
    ensures
        match decode_png(img@) {
            Ok(chunks) => match first_of_type(chunks, r.chunk_type.text()) {
                Some(i) => out matches Ok(bytes) && bytes@ == encode_png(chunks.remove(i)),
                None => out == Err::<Vec<u8>, Error>(Error::Removal(RemovalError::NotFound)),
            },
            Err(err) => out == Err::<Vec<u8>, Error>(Error::Decode(err)),
        },
{
    let mut png = read_png(img)?;
    let wanted = r.chunk_type.to_string();
    match png.remove_chunk(wanted.as_str()) {
        Ok(()) => Ok(png.as_bytes()),
        Err(e) => Err(Error::Removal(e)),
    }
}

/// What each chunk of the file `img` is shown as, in the order of the file.
pub fn print(_p: &Print, img: &[u8]) -> (r: Result<Vec<String>, Error>)
    ensures
        match decode_png(img@) {
            Ok(chunks) => r matches Ok(lines) && lines@.len() == chunks.len() && forall|i: int|
                0 <= i < chunks.len() ==> (#[trigger] lines@[i])@ == summary(chunks[i]),
            Err(err) => r == Err::<Vec<String>, Error>(Error::Decode(err)),
        },
{
    let png = read_png(img)?;
    let chunks = png.chunks();
    let mut lines: Vec<String> = Vec::new();
    let mut i: usize = 0;
    while i < chunks.len()
        invariant
            i <= chunks@.len(),
            chunks@.len() == png@.len(),
            forall|j: int| 0 <= j < chunks@.len() ==> (#[trigger] chunks@[j])@ == png@[j],
            lines@.len() == i,
            forall|j: int| 0 <= j < i ==> (#[trigger] lines@[j])@ == summary(png@[j]),
        decreases chunks.len() - i,
    {
        lines.push(chunks[i].to_string());
        i += 1;
    }
    Ok(lines)
}

/// What is hidden can be found and taken out again. Where a file holds no
/// chunk of the chosen type, the file that `encode` writes for a message is
/// one in which `decode` finds that message, and from which `remove` gives
/// back the bytes of the first file.
pub proof fn lemma_encode_then_decode(img: Seq<u8>, chunk_type: Seq<u8>, message: Seq<char>)
    requires
        decode_png(img) is Ok,
        chunk_type.len() == 4,
        encode_utf8(message).len() <= u32::MAX,
        first_of_type(decode_png(img)->Ok_0, type_text(chunk_type)) is None,
    ensures
        ({
            let chunks = decode_png(img)->Ok_0;
            let hidden = ChunkView::new(chunk_type, encode_utf8(message));
            let place = chunks.len() as int;
            &&& decode_png(encode_png(chunks.push(hidden))) == Ok::<Seq<ChunkView>, DecodeError>(
                chunks.push(hidden),
            )
            &&& first_of_type(chunks.push(hidden), type_text(chunk_type)) == Some(place)
            &&& chunks.push(hidden)[place] == hidden
            &&& valid_utf8(hidden.data)
            &&& decode_utf8(hidden.data) == message
            &&& encode_png(chunks.push(hidden).remove(place)) == img
        }),
{
    let chunks = decode_png(img)->Ok_0;
    let hidden = ChunkView::new(chunk_type, encode_utf8(message));
    lemma_encode_decode_png(img);
    assert(hidden.wf());
    assert(all_wf(chunks.push(hidden))) by {
        assert forall|i: int| 0 <= i < chunks.push(hidden).len() implies (#[trigger] chunks.push(
            hidden,
        )[i]).wf() by {
            if i < chunks.len() {
                assert(chunks.push(hidden)[i] == chunks[i]);
            }
        }
    }
    lemma_decode_encode_png(chunks.push(hidden));
    lemma_append_then_find(chunks, hidden);
    encode_utf8_valid_utf8(message);
    encode_utf8_decode_utf8(message);
    assert(chunks.push(hidden).remove(chunks.len() as int) =~= chunks);
}

} // verus!
