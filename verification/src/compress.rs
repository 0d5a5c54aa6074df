//! The compression boundary.  The container's record stream is compressed
//! as a single brotli stream; decompression is the inverse.  Both calls go
//! through trusted wrappers whose contracts speak of `brotli_inflate`, the
//! name of what brotli decompression returns.

use vstd::prelude::*;

verus! {

/// What brotli decompression returns for a byte stream: the decompressed
/// bytes, or `None` where the stream is not valid brotli data.
/// Decompression is deterministic, so the result depends on the bytes alone.
pub uninterp spec fn brotli_inflate(b: Seq<u8>) -> Option<Seq<u8>>;

/// What brotli compression (quality 11, window 22, as the wire format fixes
/// them) returns for a byte stream, or `None` where the compressor reports
/// an error.  With the parameters fixed, compression is deterministic, so
/// the result depends on the bytes alone.
pub uninterp spec fn brotli_deflate(b: Seq<u8>) -> Option<Seq<u8>>;

/// Relies on `brotli::BrotliCompress` (quality 11, window 22, as the wire
/// format fixes them): its result is `brotli_deflate`, and brotli
/// compression is lossless, so decompressing its output returns the input
/// exactly.
#[verifier::external_body]
pub(crate) fn compress_bytes(data: &Vec<u8>) -> (r: Option<Vec<u8>>)
    ensures
        match r {
            Some(c) => brotli_deflate(data@) == Some(c@) && brotli_inflate(c@) == Some(data@),
            None => brotli_deflate(data@) is None,
        },
{
    let mut params = brotli::enc::BrotliEncoderParams::default();
    params.quality = 11;
    params.lgwin = 22;
    let mut out: Vec<u8> = Vec::new();
    match brotli::BrotliCompress(&mut data.as_slice(), &mut out, &params) {
        Ok(_) => Some(out),
        Err(_) => None,
    }
}

/// Relies on `brotli::BrotliDecompress`: returns the decompressed bytes and
/// fails exactly on input that is not one valid brotli stream.
#[verifier::external_body]
pub(crate) fn decompress_bytes(data: &Vec<u8>) -> (r: Option<Vec<u8>>)
    ensures
        match r {
            Some(v) => brotli_inflate(data@) == Some(v@),
            None => brotli_inflate(data@) is None,
        },
{
    let mut out: Vec<u8> = Vec::new();
    match brotli::BrotliDecompress(&mut data.as_slice(), &mut out) {
        Ok(()) => Some(out),
        Err(_) => None,
    }
}

} // verus!
