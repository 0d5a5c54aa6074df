//! The unpacker: the packer's inverse.  Given an artifact's bytes it
//! decompresses them fully, strips records from the front of the
//! decompressed stream until the stream is exactly exhausted, and returns
//! the (name, content) pairs as text, in stream order.  A corrupt artifact
//! fails the whole operation; no partial mapping is ever returned.
//!
//! Reading the artifact file is the caller's side.

use vstd::prelude::*;
use vstd::utf8::encode_utf8;
use vstd::utf8::valid_utf8;
use crate::codec::RawEntryV;
use crate::codec::decode_records;
use crate::codec::spec_parse;
use crate::codec::stream_valid;
use crate::codec::views_of;
use crate::compress::brotli_inflate;
use crate::compress::decompress_bytes;

verus! {

/// Why an unpack failed.
#[derive(Clone, Copy, PartialEq, Eq, Structural, Debug)]
pub enum UnpackError {
    /// The artifact is not a valid brotli stream.
    DecompressFailed,
    /// A declared record length reads past the end of the decompressed
    /// stream, or a partial record header is left over.
    DecodeTruncated,
    /// Some record's name or content is not valid UTF-8.
    DecodeInvalidText,
}

/// Every record of the stream carries UTF-8-decodable name and content.
pub open spec fn records_text_ok(rs: Seq<RawEntryV>) -> bool {
    forall|i: int|
        #![trigger rs[i]]
        0 <= i < rs.len() ==> valid_utf8(rs[i].name) && valid_utf8(rs[i].content)
}

/// The string pairs are exactly the records' text: pair by pair, the UTF-8
/// encoding of the strings gives the record's bytes back.
pub open spec fn pairs_match_records(prs: Seq<(String, String)>, rs: Seq<RawEntryV>) -> bool {
    &&& prs.len() == rs.len()
    &&& forall|i: int|
        #![trigger prs[i]]
        0 <= i < rs.len() ==> encode_utf8(prs[i].0@) == rs[i].name && encode_utf8(prs[i].1@)
            == rs[i].content
}

/// What a successful unpack of an artifact's bytes establishes: the bytes
/// decompress to a valid record stream, and the returned pairs are exactly
/// that stream's records, decoded as text, in stream order.
pub open spec fn unpack_ok(artifact: Seq<u8>, prs: Seq<(String, String)>) -> bool {
    match brotli_inflate(artifact) {
        Some(p) => stream_valid(p) && pairs_match_records(prs, spec_parse(p)),
        None => false,
    }
}

/// Relies on `String::from_utf8`: succeeds exactly on valid UTF-8 bytes,
/// and the returned string's UTF-8 encoding is those bytes.
#[verifier::external_body]
fn string_from_utf8(v: &Vec<u8>) -> (r: Option<String>)
    ensures
        match r {
            Some(s) => valid_utf8(v@) && encode_utf8(s@) == v@,
            None => !valid_utf8(v@),
        },
{
    match String::from_utf8(v.clone()) {
        Ok(s) => Some(s),
        Err(_) => None,
    }
}

/// The unpacker, holding the artifact's path.  Reading that file is the
/// caller's side; `unpack` is handed the bytes.
#[derive(Debug)]
pub struct UnPacker {
    pub plugin_source: String,
}

impl UnPacker {
    /// Creates an unpacker for the given artifact path.
    pub fn new(plugin_source: &str) -> (r: Self)
        ensures
            r.plugin_source@ == plugin_source@,
    {
        UnPacker { plugin_source: plugin_source.to_owned() }
    }

    /// Unpacks an artifact's bytes into its (name, content) pairs, in stream
    /// order.  Fails atomically, naming the first reason: not a brotli
    /// stream, a truncated record stream, or content that is not text.
    pub fn unpack(&self, artifact: &Vec<u8>) -> (r: Result<Vec<(String, String)>, UnpackError>)
        ensures
            r matches Ok(prs) ==> unpack_ok(artifact@, prs@),
            r matches Err(e) ==> match e {
                UnpackError::DecompressFailed => brotli_inflate(artifact@) is None,
                UnpackError::DecodeTruncated => match brotli_inflate(artifact@) {
                    Some(p) => !stream_valid(p),
                    None => false,
                },
                UnpackError::DecodeInvalidText => match brotli_inflate(artifact@) {
                    Some(p) => stream_valid(p) && !records_text_ok(spec_parse(p)),
                    None => false,
                },
            },
    {
        let payload = match decompress_bytes(artifact) {
            Some(p) => p,
            None => {
                return Err(UnpackError::DecompressFailed);
            },
        };
        let raws = match decode_records(&payload) {
            Some(rs) => rs,
            None => {
                return Err(UnpackError::DecodeTruncated);
            },
        };
        let ghost recs = spec_parse(payload@);
        let mut out: Vec<(String, String)> = Vec::new();
        let mut i: usize = 0;
        while i < raws.len()
            invariant
                i <= raws@.len(),
                brotli_inflate(artifact@) == Some(payload@),
                stream_valid(payload@),
                recs == spec_parse(payload@),
                views_of(raws@) == recs,
                out@.len() == i,
                forall|t: int|
                    #![trigger out@[t]]
                    0 <= t < i ==> encode_utf8(out@[t].0@) == recs[t].name && encode_utf8(
                        out@[t].1@,
                    ) == recs[t].content,
            decreases raws@.len() - i,
        {
            proof {
                assert(views_of(raws@)[i as int] == raws@[i as int]@);
            }
            let name_s = match string_from_utf8(&raws[i].name) {
                Some(s) => s,
                None => {
                    proof {
                        assert(!valid_utf8(recs[i as int].name));
                    }
                    return Err(UnpackError::DecodeInvalidText);
                },
            };
            let content_s = match string_from_utf8(&raws[i].content) {
                Some(s) => s,
                None => {
                    proof {
                        assert(!valid_utf8(recs[i as int].content));
                    }
                    return Err(UnpackError::DecodeInvalidText);
                },
            };
            out.push((name_s, content_s));
            i = i + 1;
        }
        proof {
            assert(pairs_match_records(out@, recs));
        }
        Ok(out)
    }
}

} // verus!
