//! The binary glTF (GLB) container: little-endian words, 4-byte aligned
//! buffer views, and the header and chunk framing around the JSON document
//! and the binary buffer.
//!
//! Vertex attributes are laid out as 32-bit words: an `f32` component is
//! written by its IEEE-754 bit pattern, an index as itself, both little-endian.
use vstd::prelude::*;

verus! {

/// The little-endian bytes of a 32-bit word.
pub open spec fn le_u32(x: u32) -> Seq<u8> {
    seq![(x % 256) as u8, ((x / 256) % 256) as u8, ((x / 65536) % 256) as u8, (x / 16777216) as u8]
}

/// The word that four little-endian bytes encode.
pub open spec fn read_le_u32(s: Seq<u8>, at: int) -> int {
    s[at] + 256 * s[at + 1] + 65536 * s[at + 2] + 16777216 * s[at + 3]
}

/// The number of fill bytes that brings a length to a multiple of four.
pub open spec fn pad_len(n: nat) -> nat {
    ((4 - n % 4) % 4) as nat
}

/// `s` followed by `fill` bytes up to the next multiple of four.
pub open spec fn padded(s: Seq<u8>, fill: u8) -> Seq<u8> {
    s + Seq::new(pad_len(s.len()), |i: int| fill)
}

/// The little-endian bytes of a list of words, one after the other.
pub open spec fn words_le(w: Seq<u32>) -> Seq<u8>
    decreases w.len(),
{
    if w.len() == 0 {
        Seq::empty()
    } else {
        words_le(w.drop_last()) + le_u32(w.last())
    }
}

/// The GLB magic "glTF".
pub open spec fn glb_magic() -> Seq<u8> {
    seq![0x67u8, 0x6Cu8, 0x54u8, 0x46u8]
}

/// The chunk type of the JSON chunk ("JSON").
pub const JSON_CHUNK: u32 = 0x4E4F534A;

/// The chunk type of the binary chunk ("BIN\0").
pub const BIN_CHUNK: u32 = 0x004E4942;

/// The total length that the header of a container holds.
pub open spec fn glb_total(json: Seq<u8>, bin: Seq<u8>) -> nat {
    12 + 8 + padded(json, 0x20).len() + 8 + padded(bin, 0).len()
}

/// The GLB header: the magic, version 2, and the container's total length.
pub open spec fn glb_header(total: u32) -> Seq<u8> {
    glb_magic() + le_u32(2) + le_u32(total)
}

/// A chunk: its data length and type as words, then its data.
pub open spec fn glb_chunk(kind: u32, data: Seq<u8>) -> Seq<u8> {
    le_u32(data.len() as u32) + le_u32(kind) + data
}

/// A GLB container: the header, the JSON chunk padded with spaces, then the
/// binary chunk padded with zeros.
pub open spec fn glb(json: Seq<u8>, bin: Seq<u8>) -> Seq<u8> {
    glb_header(glb_total(json, bin) as u32) + glb_chunk(JSON_CHUNK, padded(json, 0x20)) + glb_chunk(
        BIN_CHUNK,
        padded(bin, 0),
    )
}

/// Append the little-endian bytes of a word.
pub fn push_le_u32(out: &mut Vec<u8>, x: u32)
    ensures
        final(out)@ == old(out)@ + le_u32(x),
{
    out.push((x % 256) as u8);
    out.push(((x / 256) % 256) as u8);
    out.push(((x / 65536) % 256) as u8);
    out.push((x / 16777216) as u8);
    assert(out@ =~= old(out)@ + le_u32(x));
}

/// Append `fill` bytes until the length is a multiple of four.
pub fn pad_to_four(out: &mut Vec<u8>, fill: u8)
    requires
        old(out)@.len() + 3 <= usize::MAX,
    ensures
        final(out)@ == padded(old(out)@, fill),
{
    let ghost start = old(out)@;
    while out.len() % 4 != 0
        invariant
            start.len() <= out@.len() <= start.len() + pad_len(start.len()),
            start.len() + 3 <= usize::MAX,
            out@ == start + Seq::new((out@.len() - start.len()) as nat, |i: int| fill),
        decreases start.len() + pad_len(start.len()) - out@.len(),
    {
        let ghost before = out@;
        out.push(fill);
        assert(out@ =~= start + Seq::new((out@.len() - start.len()) as nat, |i: int| fill));
    }
    assert(out@.len() == start.len() + pad_len(start.len()));
    assert(out@ =~= padded(start, fill));
}

/// Where a buffer view lies in the binary buffer.
pub struct ViewRange {
    /// Offset of the view's first byte.
    pub byte_offset: usize,
    /// Length of the view's data, before alignment fill.
    pub byte_length: usize,
}

/// Append the words of a vertex attribute (or of an index list) to the
/// binary buffer, then fill to the next multiple of four, and report where
/// the data lies.
pub fn append_view(bin: &mut Vec<u8>, words: &[u32]) -> (r: ViewRange)
    requires
        old(bin)@.len() + 4 * words@.len() + 3 <= usize::MAX,
    ensures
        final(bin)@ == padded(old(bin)@ + words_le(words@), 0),
        r.byte_offset == old(bin)@.len(),
        r.byte_length == 4 * words@.len(),
{
    let offset = bin.len();
    let mut i: usize = 0;
    while i < words.len()
        invariant
            i <= words@.len(),
            offset == old(bin)@.len(),
            offset + 4 * words@.len() + 3 <= usize::MAX,
            bin@ == old(bin)@ + words_le(words@.take(i as int)),
            bin@.len() == offset + 4 * i,
        decreases words@.len() - i,
    {
        proof {
            assert(words@.take(i + 1).drop_last() =~= words@.take(i as int));
            assert(words@.take(i + 1).last() == words@[i as int]);
        }
        push_le_u32(bin, words[i]);
        assert(bin@ =~= old(bin)@ + words_le(words@.take(i + 1)));
        i += 1;
    }
    assert(words@.take(i as int) =~= words@);
    let length = bin.len() - offset;
    pad_to_four(bin, 0);
    ViewRange { byte_offset: offset, byte_length: length }
}

/// Append a chunk: its data length and type, then its data.
fn push_chunk(out: &mut Vec<u8>, kind: u32, data: &Vec<u8>)
    ensures
        final(out)@ == old(out)@ + glb_chunk(kind, data@),
{
    push_le_u32(out, data.len() as u32);
    push_le_u32(out, kind);
    out.extend_from_slice(data.as_slice());
    assert(out@ =~= old(out)@ + glb_chunk(kind, data@));
}

/// Frame a serialized JSON document and a binary buffer as a GLB container.
pub fn glb_container(json: &[u8], bin: &[u8]) -> (out: Vec<u8>)
    requires
        json@.len() + bin@.len() + 40 <= usize::MAX,
    ensures
        out@ == glb(json@, bin@),
        out@.len() == glb_total(json@, bin@),
{
    let mut j: Vec<u8> = Vec::new();
    j.extend_from_slice(json);
    pad_to_four(&mut j, 0x20);
    let mut b: Vec<u8> = Vec::new();
    b.extend_from_slice(bin);
    pad_to_four(&mut b, 0);
    let total: usize = 12 + 8 + j.len() + 8 + b.len();
    let mut out: Vec<u8> = Vec::new();
    out.push(0x67);
    out.push(0x6C);
    out.push(0x54);
    out.push(0x46);
    push_le_u32(&mut out, 2);
    push_le_u32(&mut out, total as u32);
    assert(out@ =~= glb_header(total as u32));
    push_chunk(&mut out, JSON_CHUNK, &j);
    push_chunk(&mut out, BIN_CHUNK, &b);
    out
}

/// Reading back the four bytes of a word gives the word.
pub proof fn law_le_roundtrip(x: u32)
    ensures
        le_u32(x).len() == 4,
        read_le_u32(le_u32(x), 0) == x,
{
    let a = x % 256;
    let b = (x / 256) % 256;
    let c = (x / 65536) % 256;
    let d = x / 16777216;
    assert(a + 256 * b + 65536 * c + 16777216 * d == x) by (nonlinear_arith)
        requires
            a == x % 256,
            b == (x / 256) % 256,
            c == (x / 65536) % 256,
            d == x / 16777216,
            x < 0x1_0000_0000,
    ;
}

/// A padded sequence ends on a multiple of four.
proof fn lemma_padded_len(s: Seq<u8>, fill: u8)
    ensures
        padded(s, fill).len() == s.len() + pad_len(s.len()),
        padded(s, fill).len() % 4 == 0,
{
}

/// A padded sequence keeps its bytes, ends on a multiple of four, and holds
/// only fill after them.
pub proof fn law_padded(s: Seq<u8>, fill: u8)
    ensures
        padded(s, fill).len() % 4 == 0,
        s.len() <= padded(s, fill).len() < s.len() + 4,
        padded(s, fill).take(s.len() as int) == s,
        forall|i: int| s.len() <= i < padded(s, fill).len() ==> #[trigger] padded(s, fill)[i] == fill,
{
    assert(padded(s, fill).take(s.len() as int) =~= s);
}

/// A word at the front of a sequence reads back as itself.
proof fn lemma_read_head(x: u32, rest: Seq<u8>)
    ensures
        read_le_u32(le_u32(x) + rest, 0) == x,
{
    law_le_roundtrip(x);
    let g = le_u32(x) + rest;
    assert(g[0] == le_u32(x)[0]);
    assert(g[1] == le_u32(x)[1]);
    assert(g[2] == le_u32(x)[2]);
    assert(g[3] == le_u32(x)[3]);
}

/// Reading within a prefix reads in the prefix.
proof fn lemma_read_left(a: Seq<u8>, rest: Seq<u8>, at: int)
    requires
        0 <= at,
        at + 4 <= a.len(),
    ensures
        read_le_u32(a + rest, at) == read_le_u32(a, at),
{
    let g = a + rest;
    assert(g[at] == a[at]);
    assert(g[at + 1] == a[at + 1]);
    assert(g[at + 2] == a[at + 2]);
    assert(g[at + 3] == a[at + 3]);
}

/// Reading past a prefix reads in what follows it.
proof fn lemma_read_skip(a: Seq<u8>, rest: Seq<u8>, at: int)
    requires
        a.len() <= at,
        at + 4 <= a.len() + rest.len(),
    ensures
        read_le_u32(a + rest, at) == read_le_u32(rest, at - a.len()),
{
    let g = a + rest;
    let k = at - a.len();
    assert(g[at] == rest[k]);
    assert(g[at + 1] == rest[k + 1]);
    assert(g[at + 2] == rest[k + 2]);
    assert(g[at + 3] == rest[k + 3]);
}

/// A chunk reads back as its length, its type, and its data.
proof fn lemma_chunk(kind: u32, data: Seq<u8>)
    requires
        data.len() < 0x1_0000_0000,
    ensures
        glb_chunk(kind, data).len() == 8 + data.len(),
        read_le_u32(glb_chunk(kind, data), 0) == data.len(),
        read_le_u32(glb_chunk(kind, data), 4) == kind,
        glb_chunk(kind, data).subrange(8, 8 + data.len() as int) == data,
{
    let l = le_u32(data.len() as u32);
    let k = le_u32(kind);
    assert(glb_chunk(kind, data) == l + (k + data)) by {
        vstd::seq_lib::lemma_concat_associative(l, k, data);
    }
    lemma_read_head(data.len() as u32, k + data);
    lemma_read_skip(l, k + data, 4);
    lemma_read_head(kind, data);
    assert(glb_chunk(kind, data).subrange(8, 8 + data.len() as int) =~= data);
}

/// A header reads back as the magic, version 2, and the total.
proof fn lemma_header(total: u32)
    ensures
        glb_header(total).len() == 12,
        glb_header(total).take(4) == glb_magic(),
        read_le_u32(glb_header(total), 4) == 2,
        read_le_u32(glb_header(total), 8) == total,
{
    let m = glb_magic();
    let v = le_u32(2);
    let t = le_u32(total);
    assert(glb_header(total).take(4) =~= m);
    lemma_read_left(m + v, t, 4);
    lemma_read_skip(m, v, 4);
    assert(v =~= v + Seq::<u8>::empty());
    lemma_read_head(2, Seq::empty());
    lemma_read_skip(m + v, t, 8);
    assert(t =~= t + Seq::<u8>::empty());
    lemma_read_head(total, Seq::empty());
}

/// What a reader of a container finds: the magic, version 2, the total
/// length equal to the container's size, then the JSON chunk (its padded
/// length, its type, the padded document) and the binary chunk (its padded
/// length, its type, the padded buffer). Lengths are read back where the
/// container is smaller than 4 GiB.
pub proof fn law_glb_layout(json: Seq<u8>, bin: Seq<u8>)
    requires
        glb_total(json, bin) < 0x1_0000_0000,
    ensures
        ({
            let g = glb(json, bin);
            let jl = padded(json, 0x20).len() as int;
            let bl = padded(bin, 0).len() as int;
            &&& g.len() == glb_total(json, bin)
            &&& g.len() % 4 == 0
            &&& g.take(4) == glb_magic()
            &&& read_le_u32(g, 4) == 2
            &&& read_le_u32(g, 8) == g.len()
            &&& read_le_u32(g, 12) == jl
            &&& read_le_u32(g, 16) == JSON_CHUNK
            &&& g.subrange(20, 20 + jl) == padded(json, 0x20)
            &&& read_le_u32(g, 20 + jl) == bl
            &&& read_le_u32(g, 24 + jl) == BIN_CHUNK
            &&& g.subrange(28 + jl, g.len() as int) == padded(bin, 0)
        }),
{
    let j = padded(json, 0x20);
    let b = padded(bin, 0);
    let total = glb_total(json, bin);
    let jl = j.len() as int;
    let bl = b.len() as int;
    assert(total % 4 == 0) by {
        lemma_padded_len(json, 0x20);
        lemma_padded_len(bin, 0);
        assert((28 + jl + bl) % 4 == 0) by (nonlinear_arith)
            requires
                jl % 4 == 0,
                bl % 4 == 0,
        ;
    }
    let h = glb_header(total as u32);
    let cj = glb_chunk(JSON_CHUNK, j);
    let cb = glb_chunk(BIN_CHUNK, b);
    let g = h + cj + cb;
    lemma_header(total as u32);
    lemma_chunk(JSON_CHUNK, j);
    lemma_chunk(BIN_CHUNK, b);
    assert(g.take(4) =~= h.take(4));
    lemma_read_left(h + cj, cb, 4);
    lemma_read_left(h, cj, 4);
    lemma_read_left(h + cj, cb, 8);
    lemma_read_left(h, cj, 8);
    lemma_read_left(h + cj, cb, 12);
    lemma_read_skip(h, cj, 12);
    lemma_read_left(h + cj, cb, 16);
    lemma_read_skip(h, cj, 16);
    assert(g.subrange(20, 20 + jl) =~= cj.subrange(8, 8 + jl));
    lemma_read_skip(h + cj, cb, 20 + jl);
    lemma_read_skip(h + cj, cb, 24 + jl);
    assert(g.subrange(28 + jl, g.len() as int) =~= cb.subrange(8, 8 + b.len() as int));
}

/// A view's data lies in the buffer at the view's offset, and a buffer that
/// was aligned stays aligned after an append.
pub proof fn law_view_in_buffer(bin: Seq<u8>, words: Seq<u32>)
    ensures
        words_le(words).len() == 4 * words.len(),
        padded(bin + words_le(words), 0).subrange(bin.len() as int, (bin.len() + 4 * words.len()) as int) == words_le(words),
        padded(bin + words_le(words), 0).take(bin.len() as int) == bin,
        bin.len() % 4 == 0 ==> padded(bin + words_le(words), 0) == bin + words_le(words),
    decreases words.len(),
{
    if words.len() > 0 {
        law_view_in_buffer(bin, words.drop_last());
    }
    let w = words_le(words);
    let p = padded(bin + w, 0);
    law_padded(bin + w, 0);
    assert(p.subrange(bin.len() as int, (bin.len() + w.len()) as int) =~= w);
    assert(p.take(bin.len() as int) =~= bin);
    if bin.len() % 4 == 0 {
        assert(pad_len((bin + w).len()) == 0);
        assert(p =~= bin + w);
    }
}

} // verus!
