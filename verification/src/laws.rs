//! The library's cross-function laws: packing then unpacking returns the
//! packed set exactly, and the unpacked mapping is determined by the record
//! stream alone, so repeated packs of one input unpack identically even
//! where the compressed bytes differ.

use vstd::prelude::*;
use vstd::utf8::encode_utf8;
use vstd::utf8::encode_utf8_decode_utf8;
use crate::codec::len_ok;
use crate::codec::lemma_encode_parses;
use crate::compress::brotli_inflate;
use crate::packer::Artifact;
use crate::packer::FileEntry;
use crate::packer::entries_bytes;
use crate::packer::entry_bytes;
use crate::packer::entry_len_ok;
use crate::packer::pack_ok_at;
use crate::unpacker::unpack_ok;

verus! {

/// The name-to-content mapping a pair sequence denotes, later pairs winning
/// on a repeated name.
pub open spec fn map_of(prs: Seq<(Seq<char>, Seq<char>)>) -> Map<Seq<char>, Seq<char>>
    decreases prs.len(),
{
    if prs.len() == 0 {
        Map::empty()
    } else {
        map_of(prs.drop_last()).insert(prs.last().0, prs.last().1)
    }
}

/// The char-level pairs of decoded strings.
pub open spec fn pairs_view(prs: Seq<(String, String)>) -> Seq<(Seq<char>, Seq<char>)> {
    prs.map_values(|p: (String, String)| (p.0@, p.1@))
}

/// The char-level pairs of file entries.
pub open spec fn entries_pairs(es: Seq<FileEntry>) -> Seq<(Seq<char>, Seq<char>)> {
    es.map_values(|e: FileEntry| (e.name@, e.content@))
}

/// UTF-8 encoding is injective: strings with equal encodings are equal.
proof fn lemma_encode_utf8_injective(x: Seq<char>, y: Seq<char>)
    requires
        encode_utf8(x) == encode_utf8(y),
    ensures
        x == y,
{
    encode_utf8_decode_utf8(x);
    encode_utf8_decode_utf8(y);
}

/// Round trip: unpacking an artifact that a successful pack produced
/// returns exactly the packed (name, content) pairs — the same sequence,
/// hence the same name-to-content mapping, the manifest entry included.
/// This covers records with empty names or empty contents, whose lengths
/// the wire format carries like any others.
pub proof fn theorem_pack_unpack_roundtrip(
    entries: Seq<FileEntry>,
    k: int,
    a: Artifact,
    out: Seq<(String, String)>,
)
    requires
        forall|i: int| 0 <= i < entries.len() ==> entry_len_ok(#[trigger] entries[i]),
        pack_ok_at(entries, k, a),
        unpack_ok(a.data@, out),
    ensures
        out.len() == entries.len(),
        forall|i: int|
            #![trigger out[i]]
            0 <= i < entries.len() ==> out[i].0@ == entries[i].name@ && out[i].1@
                == entries[i].content@,
        map_of(pairs_view(out)) == map_of(entries_pairs(entries)),
{
    let recs = entries_bytes(entries);
    assert(forall|i: int| 0 <= i < recs.len() ==> len_ok(#[trigger] recs[i])) by {
        assert(forall|i: int|
            0 <= i < recs.len() ==> #[trigger] recs[i] == entry_bytes(entries[i]));
    }
    lemma_encode_parses(recs);
    assert forall|i: int| #![trigger out[i]] 0 <= i < entries.len() implies out[i].0@
        == entries[i].name@ && out[i].1@ == entries[i].content@ by {
        assert(recs[i] == entry_bytes(entries[i]));
        assert(encode_utf8(out[i].0@) == encode_utf8(entries[i].name@));
        assert(encode_utf8(out[i].1@) == encode_utf8(entries[i].content@));
        lemma_encode_utf8_injective(out[i].0@, entries[i].name@);
        lemma_encode_utf8_injective(out[i].1@, entries[i].content@);
    }
    assert(pairs_view(out) =~= entries_pairs(entries));
}

/// Idempotence of content: two artifacts whose bytes decompress to the same
/// record stream unpack to the same pairs and the same mapping, even where
/// the two compressed artifacts differ byte for byte.
pub proof fn theorem_unpack_deterministic(
    a1: Seq<u8>,
    a2: Seq<u8>,
    out1: Seq<(String, String)>,
    out2: Seq<(String, String)>,
)
    requires
        brotli_inflate(a1) == brotli_inflate(a2),
        unpack_ok(a1, out1),
        unpack_ok(a2, out2),
    ensures
        pairs_view(out1) == pairs_view(out2),
        map_of(pairs_view(out1)) == map_of(pairs_view(out2)),
{
    assert forall|i: int| #![trigger out1[i], out2[i]] 0 <= i < out1.len() implies out1[i].0@
        == out2[i].0@ && out1[i].1@ == out2[i].1@ by {
        lemma_encode_utf8_injective(out1[i].0@, out2[i].0@);
        lemma_encode_utf8_injective(out1[i].1@, out2[i].1@);
    }
    assert(pairs_view(out1) =~= pairs_view(out2));
}

} // verus!
