//! The packer: turns an ordered set of (name, text-content) files into one
//! compressed artifact.  The entries are encoded as the container's record
//! stream in the given order; the stream is compressed as a single brotli
//! stream; the artifact is named after the manifest's package name.
//!
//! Enumerating and reading the source files, and writing the artifact file,
//! are the caller's side; the packer is given the entries as values.  A pack
//! fails, and no artifact value is produced, unless exactly one entry is the
//! manifest and it parses.

use vstd::prelude::*;
use vstd::string::StrSliceExecFns;
use vstd::utf8::encode_utf8;
use crate::codec::RawEntry;
use crate::codec::RawEntryV;
use crate::codec::encode_records;
use crate::codec::len_ok;
use crate::codec::spec_encode;
use crate::codec::views_of;
use crate::compress::brotli_deflate;
use crate::compress::brotli_inflate;
use crate::compress::compress_bytes;
use crate::manifest::manifest_file_name;
use crate::manifest::parse_config;
use crate::manifest::toml_manifest_of;

verus! {

/// One file to pack: a relative path name and its text content.
#[derive(Debug)]
pub struct FileEntry {
    pub name: String,
    pub content: String,
}

/// The byte record a file entry becomes on the wire: its name and content
/// in their UTF-8 encoding.
pub open spec fn entry_bytes(e: FileEntry) -> RawEntryV {
    RawEntryV { name: encode_utf8(e.name@), content: encode_utf8(e.content@) }
}

/// The byte records of a whole entry sequence, in order.
pub open spec fn entries_bytes(es: Seq<FileEntry>) -> Seq<RawEntryV> {
    es.map_values(|e: FileEntry| entry_bytes(e))
}

/// The entry's name and content fit the wire format's 32-bit length fields.
pub open spec fn entry_len_ok(e: FileEntry) -> bool {
    len_ok(entry_bytes(e))
}

/// Whether this entry is the manifest: its name is the reserved file name.
pub open spec fn is_manifest_entry(e: FileEntry) -> bool {
    e.name@ == manifest_file_name()
}

/// No entry is the manifest.
pub open spec fn no_manifest(es: Seq<FileEntry>) -> bool {
    forall|i: int| 0 <= i < es.len() ==> !is_manifest_entry(#[trigger] es[i])
}

/// The entry at `k` is the manifest, and no other entry is.
pub open spec fn manifest_at(es: Seq<FileEntry>, k: int) -> bool {
    &&& 0 <= k < es.len()
    &&& is_manifest_entry(es[k])
    &&& forall|i: int| 0 <= i < es.len() && i != k ==> !is_manifest_entry(#[trigger] es[i])
}

/// More than one entry is the manifest.
pub open spec fn has_duplicate_manifest(es: Seq<FileEntry>) -> bool {
    exists|i: int, j: int|
        0 <= i < j < es.len() && is_manifest_entry(#[trigger] es[i]) && is_manifest_entry(
            #[trigger] es[j],
        )
}

/// The artifact's file name extension.
pub open spec fn artifact_extension() -> Seq<char> {
    ".notex.plugin"@
}

/// The compressed artifact: its file name (package name plus extension) and
/// its bytes, ready to be written out by the caller.
#[derive(Debug)]
pub struct Artifact {
    pub file_name: String,
    pub data: Vec<u8>,
}

/// Why a pack failed.  No artifact value exists then, so the caller writes
/// no file and a pre-existing artifact is left untouched.
#[derive(Clone, Copy, PartialEq, Eq, Structural, Debug)]
pub enum PackError {
    /// No entry is named like the manifest.
    ManifestMissing,
    /// More than one entry is named like the manifest.
    ManifestDuplicate,
    /// The manifest entry's content does not parse as a manifest.
    ManifestInvalid,
    /// The compressor reported an error.
    CompressionFailed,
}

/// What a successful pack of `es` with its manifest at `k` establishes: the
/// artifact is named after the manifest's package name, and decompressing
/// its bytes returns exactly the encoded record stream of all entries.
pub open spec fn pack_ok_at(es: Seq<FileEntry>, k: int, a: Artifact) -> bool {
    &&& manifest_at(es, k)
    &&& match toml_manifest_of(es[k].content@) {
        Some(m) => a.file_name@ == m.0 + artifact_extension(),
        None => false,
    }
    &&& brotli_inflate(a.data@) == Some(spec_encode(entries_bytes(es)))
}

/// The packer, rooted at a source directory path.  Checking that the path
/// exists, walking it and reading its files are the caller's side.
#[derive(Debug)]
pub struct Packer {
    pub source: String,
}

impl Packer {
    /// Creates a packer for the given source directory path.
    pub fn new(source: &str) -> (r: Self)
        ensures
            r.source@ == source@,
    {
        Packer { source: source.to_owned() }
    }

    /// Packs the entries into one artifact.  Succeeds if and only if exactly
    /// one entry is the manifest, its content parses, and brotli compression
    /// of the encoded record stream — a function of that stream alone —
    /// returns a result; each failure names its reason.
    #[verifier::rlimit(100)]
    pub fn pack(&self, entries: &Vec<FileEntry>) -> (r: Result<Artifact, PackError>)
        requires
            forall|i: int| 0 <= i < entries@.len() ==> entry_len_ok(#[trigger] entries@[i]),
        ensures
            r matches Ok(a) ==> exists|k: int| #[trigger] pack_ok_at(entries@, k, a),
            r matches Err(e) ==> match e {
                PackError::ManifestMissing => no_manifest(entries@),
                PackError::ManifestDuplicate => has_duplicate_manifest(entries@),
                PackError::ManifestInvalid => exists|k: int|
                    #[trigger] manifest_at(entries@, k) && toml_manifest_of(entries@[k].content@)
                        is None,
                PackError::CompressionFailed => (exists|k: int|
                    #[trigger] manifest_at(entries@, k) && toml_manifest_of(entries@[k].content@)
                        is Some) && brotli_deflate(spec_encode(entries_bytes(entries@))) is None,
            },
    {
        let ghost es = entries@;
        let mname: String = "plugin.conf.toml".to_owned();
        let mut count: usize = 0;
        let mut midx: usize = 0;
        let ghost mut midx2: int = 0;
        let mut i: usize = 0;
        while i < entries.len()
            invariant
                i <= es.len(),
                es == entries@,
                count <= i,
                mname@ == manifest_file_name(),
                count == 0 ==> forall|t: int| 0 <= t < i ==> !is_manifest_entry(#[trigger] es[t]),
                count == 1 ==> 0 <= midx < i && is_manifest_entry(es[midx as int]) && forall|
                    t: int,
                |
                    0 <= t < i && t != midx ==> !is_manifest_entry(#[trigger] es[t]),
                count >= 2 ==> 0 <= midx < midx2 < i && is_manifest_entry(es[midx as int])
                    && is_manifest_entry(es[midx2]),
            decreases es.len() - i,
        {
            if entries[i].name == mname {
                if count == 0 {
                    midx = i;
                } else if count == 1 {
                    proof {
                        midx2 = i as int;
                    }
                }
                count = count + 1;
            }
            i = i + 1;
        }
        if count == 0 {
            return Err(PackError::ManifestMissing);
        }
        if count >= 2 {
            proof {
                assert(is_manifest_entry(es[midx as int]) && is_manifest_entry(es[midx2]));
            }
            return Err(PackError::ManifestDuplicate);
        }
        proof {
            assert(manifest_at(es, midx as int));
        }
        let config = match parse_config(entries[midx].content.as_str()) {
            Ok(c) => c,
            Err(_) => {
                return Err(PackError::ManifestInvalid);
            },
        };
        let mut raw: Vec<RawEntry> = Vec::new();
        let mut j: usize = 0;
        while j < entries.len()
            invariant
                j <= es.len(),
                es == entries@,
                forall|t: int| 0 <= t < es.len() ==> entry_len_ok(#[trigger] es[t]),
                views_of(raw@) == entries_bytes(es.take(j as int)),
            decreases es.len() - j,
        {
            let name_b = entries[j].name.as_str().as_bytes_vec();
            let content_b = entries[j].content.as_str().as_bytes_vec();
            raw.push(RawEntry { name: name_b, content: content_b });
            j = j + 1;
            proof {
                assert(entries_bytes(es.take(j as int)) =~= entries_bytes(
                    es.take(j - 1),
                ).push(entry_bytes(es[j - 1])));
                assert(views_of(raw@) =~= views_of(raw@.drop_last()).push(raw@.last()@));
            }
        }
        proof {
            assert(es.take(es.len() as int) =~= es);
            assert(forall|t: int| 0 <= t < raw@.len() ==> len_ok(#[trigger] raw@[t]@)) by {
                assert(forall|t: int|
                    0 <= t < raw@.len() ==> #[trigger] raw@[t]@ == entries_bytes(es)[t]);
            }
        }
        let payload = encode_records(&raw);
        let result: Result<Artifact, PackError> = match compress_bytes(&payload) {
            Some(data) => {
                let file_name = config.package.name.clone().concat(".notex.plugin");
                Ok(Artifact { file_name, data })
            },
            None => Err(PackError::CompressionFailed),
        };
        proof {
            assert(payload@ == spec_encode(entries_bytes(entries@)));
            if result is Ok {
                assert(pack_ok_at(entries@, midx as int, result->Ok_0));
            } else {
                assert(brotli_deflate(spec_encode(entries_bytes(entries@))) is None);
            }
        }
        result
    }
}

} // verus!
