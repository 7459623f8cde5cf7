//! The decompressor of the frame stream.

use vstd::prelude::*;

verus! {

/// The error of the LZMA decoder.
#[verifier::external_type_specification]
#[verifier::external_body]
pub struct ExLzmaError(lzma_rs::error::Error);

/// What an LZMA stream with the classic header (properties, dictionary size,
/// unpacked size) decompresses to; nothing where the bytes are no such stream.
pub uninterp spec fn lzma_unpacked(packed: Seq<u8>) -> Option<Seq<u8>>;

/// `lzma_rs::lzma_decompress` with its default options, from a buffer into a
/// fresh vector. Decompression is a function of the input bytes alone; this
/// gives that function the name `lzma_unpacked` and claims no more of it.
#[verifier::external_body]
pub(crate) fn lzma_unpack(packed: &[u8]) -> (r: Result<Vec<u8>, lzma_rs::error::Error>)
    ensures
        match r {
            Ok(out) => lzma_unpacked(packed@) == Some(out@),
            Err(_) => lzma_unpacked(packed@) is None,
        },
{
    let mut input = std::io::BufReader::new(packed);
    let mut out: Vec<u8> = Vec::new();
    match lzma_rs::lzma_decompress(&mut input, &mut out) {
        Ok(()) => Ok(out),
        Err(e) => Err(e),
    }
}

} // verus!
