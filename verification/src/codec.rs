//! The container codec: an ordered sequence of (name, content) byte records
//! is encoded as a concatenation of length-prefixed records
//! `[u32 BE name_len][u32 BE content_len][name bytes][content bytes]`,
//! with no trailing terminator.  Decoding strips records from the front and
//! must consume the stream exactly; leftover or insufficient bytes are
//! corruption.

use vstd::prelude::*;

verus! {

/// One record of the container, at the byte level.
#[derive(Debug)]
pub struct RawEntry {
    pub name: Vec<u8>,
    pub content: Vec<u8>,
}

/// The mathematical value of a `RawEntry`.
pub struct RawEntryV {
    pub name: Seq<u8>,
    pub content: Seq<u8>,
}

impl View for RawEntry {
    type V = RawEntryV;

    open spec fn view(&self) -> RawEntryV {
        RawEntryV { name: self.name@, content: self.content@ }
    }
}

/// The views of a sequence of records.
pub open spec fn views_of(es: Seq<RawEntry>) -> Seq<RawEntryV> {
    es.map_values(|e: RawEntry| e@)
}

/// Both length fields of a record must fit the wire format's 32-bit fields.
pub open spec fn len_ok(e: RawEntryV) -> bool {
    e.name.len() <= u32::MAX && e.content.len() <= u32::MAX
}

// ---------------------------------------------------------------------------
// 32-bit big-endian length fields
// ---------------------------------------------------------------------------

/// The four big-endian bytes of a 32-bit length field.
pub open spec fn be32_bytes(x: u32) -> Seq<u8> {
    seq![
        ((x >> 24) & 0xff) as u8,
        ((x >> 16) & 0xff) as u8,
        ((x >> 8) & 0xff) as u8,
        (x & 0xff) as u8,
    ]
}

/// The 32-bit value of four big-endian bytes.
pub open spec fn be32_value(s: Seq<u8>) -> u32
    recommends
        s.len() == 4,
{
    ((s[0] as u32) << 24) | ((s[1] as u32) << 16) | ((s[2] as u32) << 8) | (s[3] as u32)
}

pub proof fn lemma_be32_roundtrip(x: u32)
    ensures
        be32_bytes(x).len() == 4,
        be32_value(be32_bytes(x)) == x,
{
    let s = be32_bytes(x);
    assert(s[0] == ((x >> 24) & 0xff) as u8);
    assert(s[1] == ((x >> 16) & 0xff) as u8);
    assert(s[2] == ((x >> 8) & 0xff) as u8);
    assert(s[3] == (x & 0xff) as u8);
    assert(((((x >> 24) & 0xff) as u8 as u32) << 24) | ((((x >> 16) & 0xff) as u8 as u32) << 16)
        | ((((x >> 8) & 0xff) as u8 as u32) << 8) | ((x & 0xff) as u8 as u32) == x) by (bit_vector);
}

/// Encodes a 32-bit length as its four big-endian bytes.
pub fn encode_u32_be(x: u32) -> (r: Vec<u8>)
    ensures
        r@ == be32_bytes(x),
{
    assert((x >> 24) & 0xff < 256 && (x >> 16) & 0xff < 256 && (x >> 8) & 0xff < 256 && x & 0xff
        < 256) by (bit_vector);
    let mut r: Vec<u8> = Vec::new();
    r.push(((x >> 24) & 0xff) as u8);
    r.push(((x >> 16) & 0xff) as u8);
    r.push(((x >> 8) & 0xff) as u8);
    r.push((x & 0xff) as u8);
    proof {
        assert(r@ =~= be32_bytes(x));
    }
    r
}

/// Reads a 32-bit length from four big-endian bytes.
pub fn decode_u32_be(b0: u8, b1: u8, b2: u8, b3: u8) -> (r: u32)
    ensures
        r == be32_value(seq![b0, b1, b2, b3]),
{
    ((b0 as u32) << 24) | ((b1 as u32) << 16) | ((b2 as u32) << 8) | (b3 as u32)
}

// ---------------------------------------------------------------------------
// The record stream, specified
// ---------------------------------------------------------------------------

/// The wire bytes of one record.
pub open spec fn spec_record(e: RawEntryV) -> Seq<u8>
    recommends
        len_ok(e),
{
    be32_bytes(e.name.len() as u32) + be32_bytes(e.content.len() as u32) + e.name + e.content
}

/// The wire bytes of a whole stream: records concatenated in order.
pub open spec fn spec_encode(es: Seq<RawEntryV>) -> Seq<u8>
    decreases es.len(),
{
    if es.len() == 0 {
        Seq::empty()
    } else {
        spec_record(es[0]) + spec_encode(es.drop_first())
    }
}

/// Whether a byte stream is an exact concatenation of well-formed records:
/// every declared length lies within the remaining bytes, and the records
/// exhaust the stream exactly.
pub open spec fn stream_valid(b: Seq<u8>) -> bool
    decreases b.len(),
{
    if b.len() == 0 {
        true
    } else if b.len() < 8 {
        false
    } else {
        let nl = be32_value(b.subrange(0, 4)) as int;
        let cl = be32_value(b.subrange(4, 8)) as int;
        8 + nl + cl <= b.len() && stream_valid(b.skip(8 + nl + cl))
    }
}

/// The records of a valid stream, in stream order.
pub open spec fn spec_parse(b: Seq<u8>) -> Seq<RawEntryV>
    recommends
        stream_valid(b),
    decreases b.len(),
{
    if b.len() < 8 {
        Seq::empty()
    } else {
        let nl = be32_value(b.subrange(0, 4)) as int;
        let cl = be32_value(b.subrange(4, 8)) as int;
        if 8 + nl + cl <= b.len() {
            seq![
                RawEntryV { name: b.subrange(8, 8 + nl), content: b.subrange(8 + nl, 8 + nl + cl) },
            ] + spec_parse(b.skip(8 + nl + cl))
        } else {
            Seq::empty()
        }
    }
}

/// Appending one record to a stream appends its wire bytes.
pub proof fn lemma_encode_push(es: Seq<RawEntryV>, e: RawEntryV)
    ensures
        spec_encode(es.push(e)) == spec_encode(es) + spec_record(e),
    decreases es.len(),
{
    if es.len() == 0 {
        assert(es.push(e)[0] == e);
        assert(es.push(e).drop_first() =~= es);
        assert(spec_encode(es.push(e)) == spec_record(e) + spec_encode(es));
        assert(spec_record(e) + spec_encode(es) =~= spec_encode(es) + spec_record(e));
    } else {
        lemma_encode_push(es.drop_first(), e);
        assert(es.push(e).drop_first() =~= es.drop_first().push(e));
        assert(es.push(e)[0] == es[0]);
        assert(spec_encode(es.push(e)) =~= spec_encode(es) + spec_record(e));
    }
}

/// A record's wire bytes, followed by anything, parse back to that record:
/// the header holds the two lengths, and the name, content and trailing
/// bytes sit at the declared offsets.
proof fn lemma_record_prefix(e: RawEntryV, tail: Seq<u8>)
    requires
        len_ok(e),
    ensures
        ({
            let b = spec_record(e) + tail;
            let nl = e.name.len() as int;
            let cl = e.content.len() as int;
            &&& b.len() == 8 + nl + cl + tail.len()
            &&& be32_value(b.subrange(0, 4)) as int == nl
            &&& be32_value(b.subrange(4, 8)) as int == cl
            &&& b.subrange(8, 8 + nl) == e.name
            &&& b.subrange(8 + nl, 8 + nl + cl) == e.content
            &&& b.skip(8 + nl + cl) == tail
        }),
{
    let b = spec_record(e) + tail;
    let nl = e.name.len() as int;
    let cl = e.content.len() as int;
    lemma_be32_roundtrip(e.name.len() as u32);
    lemma_be32_roundtrip(e.content.len() as u32);
    assert(b.subrange(0, 4) =~= be32_bytes(e.name.len() as u32));
    assert(b.subrange(4, 8) =~= be32_bytes(e.content.len() as u32));
    assert(b.subrange(8, 8 + nl) =~= e.name);
    assert(b.subrange(8 + nl, 8 + nl + cl) =~= e.content);
    assert(b.skip(8 + nl + cl) =~= tail);
}

/// Prepending one record's wire bytes to a valid stream keeps it valid and
/// prepends that record to the parse.
proof fn lemma_parse_cons(e: RawEntryV, tail: Seq<u8>)
    requires
        len_ok(e),
        stream_valid(tail),
    ensures
        stream_valid(spec_record(e) + tail),
        spec_parse(spec_record(e) + tail) == seq![e] + spec_parse(tail),
{
    lemma_record_prefix(e, tail);
    let b = spec_record(e) + tail;
    let nl = e.name.len() as int;
    let cl = e.content.len() as int;
    assert(stream_valid(b));
    assert(spec_parse(b) == seq![
        RawEntryV { name: b.subrange(8, 8 + nl), content: b.subrange(8 + nl, 8 + nl + cl) },
    ] + spec_parse(b.skip(8 + nl + cl)));
    assert(RawEntryV { name: b.subrange(8, 8 + nl), content: b.subrange(8 + nl, 8 + nl + cl) }
        == e);
}

/// Round trip at the stream level: an encoded sequence of records is a valid
/// stream, and parsing it returns exactly the records that were encoded, in
/// order.  There is no lower bound on lengths, so records with empty names
/// or empty contents round-trip like any others.
pub proof fn lemma_encode_parses(es: Seq<RawEntryV>)
    requires
        forall|i: int| 0 <= i < es.len() ==> len_ok(#[trigger] es[i]),
    ensures
        stream_valid(spec_encode(es)),
        spec_parse(spec_encode(es)) == es,
    decreases es.len(),
{
    if es.len() == 0 {
        assert(spec_parse(spec_encode(es)) =~= es);
    } else {
        let e = es[0];
        let rest = es.drop_first();
        assert(forall|i: int| 0 <= i < rest.len() ==> len_ok(#[trigger] rest[i]));
        lemma_encode_parses(rest);
        lemma_parse_cons(e, spec_encode(rest));
        assert(spec_encode(es) == spec_record(e) + spec_encode(rest));
        assert(seq![e] + rest =~= es);
    }
}

/// Corruption detection: removing the last byte of any non-empty valid
/// stream leaves a stream that no parse accepts.
pub proof fn lemma_truncated_invalid(b: Seq<u8>)
    requires
        stream_valid(b),
        b.len() > 0,
    ensures
        !stream_valid(b.take(b.len() - 1)),
    decreases b.len(),
{
    let t = b.take(b.len() - 1);
    let nl = be32_value(b.subrange(0, 4)) as int;
    let cl = be32_value(b.subrange(4, 8)) as int;
    if 8 + nl + cl == b.len() {
        if t.len() >= 8 {
            assert(t.subrange(0, 4) =~= b.subrange(0, 4));
            assert(t.subrange(4, 8) =~= b.subrange(4, 8));
            assert(8 + nl + cl > t.len());
        }
    } else {
        let rest = b.skip(8 + nl + cl);
        lemma_truncated_invalid(rest);
        assert(t.len() >= 8);
        assert(t.subrange(0, 4) =~= b.subrange(0, 4));
        assert(t.subrange(4, 8) =~= b.subrange(4, 8));
        assert(t.skip(8 + nl + cl) =~= rest.take(rest.len() - 1));
    }
}

// ---------------------------------------------------------------------------
// Executable encoder and decoder
// ---------------------------------------------------------------------------

/// Appends all of `src` to `dst`.
fn push_bytes(dst: &mut Vec<u8>, src: &Vec<u8>)
    ensures
        final(dst)@ == old(dst)@ + src@,
{
    let mut i: usize = 0;
    while i < src.len()
        invariant
            i <= src@.len(),
            dst@ == old(dst)@ + src@.subrange(0, i as int),
        decreases src@.len() - i,
    {
        dst.push(src[i]);
        i = i + 1;
        proof {
            assert(old(dst)@ + src@.subrange(0, i as int) =~= (old(dst)@ + src@.subrange(
                0,
                i - 1,
            )).push(src@[i - 1]));
        }
    }
    proof {
        assert(old(dst)@ + src@.subrange(0, src@.len() as int) =~= old(dst)@ + src@);
    }
}

/// Copies `v[start..end]` into a fresh vector.
fn subvec(v: &Vec<u8>, start: usize, end: usize) -> (r: Vec<u8>)
    requires
        start <= end,
        end <= v@.len(),
    ensures
        r@ == v@.subrange(start as int, end as int),
{
    let mut r: Vec<u8> = Vec::new();
    let mut i: usize = start;
    while i < end
        invariant
            start <= i <= end,
            end <= v@.len(),
            r@ == v@.subrange(start as int, i as int),
        decreases end - i,
    {
        r.push(v[i]);
        i = i + 1;
        proof {
            assert(v@.subrange(start as int, i as int) =~= v@.subrange(start as int, i - 1).push(
                v@[i - 1],
            ));
        }
    }
    r
}

/// Encodes the records into one wire stream, in the given order.
pub fn encode_records(entries: &Vec<RawEntry>) -> (r: Vec<u8>)
    requires
        forall|i: int| 0 <= i < entries@.len() ==> len_ok(#[trigger] entries@[i]@),
    ensures
        r@ == spec_encode(views_of(entries@)),
{
    let mut out: Vec<u8> = Vec::new();
    let mut idx: usize = 0;
    while idx < entries.len()
        invariant
            idx <= entries@.len(),
            forall|i: int| 0 <= i < entries@.len() ==> len_ok(#[trigger] entries@[i]@),
            out@ == spec_encode(views_of(entries@.take(idx as int))),
        decreases entries@.len() - idx,
    {
        let e = &entries[idx];
        let nb = encode_u32_be(e.name.len() as u32);
        let cb = encode_u32_be(e.content.len() as u32);
        push_bytes(&mut out, &nb);
        push_bytes(&mut out, &cb);
        push_bytes(&mut out, &e.name);
        push_bytes(&mut out, &e.content);
        idx = idx + 1;
        proof {
            let prefix = views_of(entries@.take(idx - 1));
            lemma_encode_push(prefix, entries@[idx - 1]@);
            assert(views_of(entries@.take(idx as int)) =~= prefix.push(entries@[idx - 1]@));
            assert(out@ =~= spec_encode(prefix) + spec_record(entries@[idx - 1]@));
        }
    }
    proof {
        assert(entries@.take(entries@.len() as int) =~= entries@);
    }
    out
}

/// Decodes a wire stream back into its records.  Returns `None` exactly when
/// the stream is corrupt: a declared length would read past the end of the
/// remaining bytes, or a partial record header is left over.  A corrupt
/// stream never yields a partial result.
pub fn decode_records(b: &Vec<u8>) -> (r: Option<Vec<RawEntry>>)
    ensures
        match r {
            Some(es) => stream_valid(b@) && views_of(es@) == spec_parse(b@),
            None => !stream_valid(b@),
        },
{
    let mut out: Vec<RawEntry> = Vec::new();
    let mut pos: usize = 0;
    proof {
        assert(b@.skip(0) =~= b@);
        assert(views_of(out@) + spec_parse(b@) =~= spec_parse(b@));
    }
    loop
        invariant
            pos <= b@.len(),
            stream_valid(b@) == stream_valid(b@.skip(pos as int)),
            stream_valid(b@.skip(pos as int)) ==> spec_parse(b@) == views_of(out@) + spec_parse(
                b@.skip(pos as int),
            ),
        decreases b@.len() - pos,
    {
        let s = Ghost(b@.skip(pos as int));
        let rem = b.len() - pos;
        if rem == 0 {
            proof {
                assert(s@ =~= Seq::<u8>::empty());
                assert(spec_parse(b@) =~= views_of(out@));
            }
            return Some(out);
        }
        if rem < 8 {
            return None;
        }
        let nl32 = decode_u32_be(b[pos], b[pos + 1], b[pos + 2], b[pos + 3]);
        let cl32 = decode_u32_be(b[pos + 4], b[pos + 5], b[pos + 6], b[pos + 7]);
        proof {
            assert(seq![b@[pos as int], b@[pos + 1], b@[pos + 2], b@[pos + 3]] =~= s@.subrange(
                0,
                4,
            ));
            assert(seq![b@[pos + 4], b@[pos + 5], b@[pos + 6], b@[pos + 7]] =~= s@.subrange(4, 8));
        }
        let need: u64 = 8u64 + nl32 as u64 + cl32 as u64;
        if need > rem as u64 {
            return None;
        }
        let nlu = nl32 as usize;
        let clu = cl32 as usize;
        let name = subvec(b, pos + 8, pos + 8 + nlu);
        let content = subvec(b, pos + 8 + nlu, pos + 8 + nlu + clu);
        let ghost namev = name@;
        let ghost contentv = content@;
        out.push(RawEntry { name, content });
        let ghost old_out = out@.drop_last();
        pos = pos + 8 + nlu + clu;
        proof {
            let nl = nl32 as int;
            let cl = cl32 as int;
            let head = RawEntryV { name: s@.subrange(8, 8 + nl), content: s@.subrange(8 + nl, 8 + nl + cl) };
            assert(namev =~= s@.subrange(8, 8 + nl));
            assert(contentv =~= s@.subrange(8 + nl, 8 + nl + cl));
            assert(out@.last()@ == head);
            assert(b@.skip(pos as int) =~= s@.skip(8 + nl + cl));
            assert(views_of(out@) =~= views_of(old_out).push(head));
            assert(stream_valid(s@) ==> spec_parse(s@) == seq![head] + spec_parse(
                s@.skip(8 + nl + cl),
            ));
            assert(stream_valid(s@.skip(8 + nl + cl)) ==> views_of(old_out) + spec_parse(s@)
                =~= views_of(out@) + spec_parse(b@.skip(pos as int)));
        }
    }
}

} // verus!
