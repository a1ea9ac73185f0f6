//! The PNG format: a chunk-level model of a PNG file, a strict parser, a
//! generator that writes each chunk with its length and CRC, and the pieces
//! of a minimal valid image.

use crate::jpeg::append_bytes;
use vstd::prelude::*;
use vstd::string::StringExecFns;

verus! {

pub struct Png;

/// The header fields of an image.
#[derive(Clone, Copy, Debug, PartialEq, Eq, Structural)]
pub struct Ihdr {
    pub width: u32,
    pub height: u32,
    pub depth: u8,
    pub color_type: u8,
    pub compression_method: u8,
    pub filter_method: u8,
    pub interlace_method: u8,
}

/// The CRC stored after a chunk.
#[derive(Clone, Copy, Debug, PartialEq, Eq, Structural)]
pub struct ChunkCrc {
    pub crc: u32,
}

/// A chunk as read: declared length, type, data and CRC.
#[derive(Debug, PartialEq, Eq)]
pub struct RawChunk {
    pub length: u32,
    pub chunk_type: [u8; 4],
    pub data: Vec<u8>,
    pub crc: u32,
}

/// A chunk, interpreted by its type.
#[derive(Debug, PartialEq, Eq)]
pub enum Chunk {
    Ihdr(Ihdr, ChunkCrc),
    Idat(Vec<u8>, ChunkCrc),
    Iend(ChunkCrc),
    Ancillary(RawChunk),
}

/// The mathematical content of a chunk.
pub enum ChunkView {
    Ihdr(Ihdr, u32),
    Idat(Seq<u8>, u32),
    Iend(u32),
    Ancillary(u32, Seq<u8>, Seq<u8>, u32),
}

impl View for Chunk {
    type V = ChunkView;

    open spec fn view(&self) -> ChunkView {
        match self {
            Chunk::Ihdr(h, c) => ChunkView::Ihdr(*h, c.crc),
            Chunk::Idat(d, c) => ChunkView::Idat(d@, c.crc),
            Chunk::Iend(c) => ChunkView::Iend(c.crc),
            Chunk::Ancillary(r) => ChunkView::Ancillary(r.length, r.chunk_type@, r.data@, r.crc),
        }
    }
}

pub struct PngModel {
    pub signature: [u8; 8],
    pub chunks: Vec<Chunk>,
}

/// Why bytes are not a PNG the model can hold.
#[derive(Clone, Copy, Debug, PartialEq, Eq, Structural)]
pub enum PngError {
    /// The input ends inside the signature or inside a chunk, or a header
    /// chunk is shorter than its thirteen fields.
    Malformed,
    /// A buffer is too long for its length field.
    TooLong,
}

pub open spec fn chunks_view(v: Seq<Chunk>) -> Seq<ChunkView> {
    v.map_values(|c: Chunk| c@)
}

pub open spec fn png_signature() -> Seq<u8> {
    seq![0x89u8, 0x50u8, 0x4Eu8, 0x47u8, 0x0Du8, 0x0Au8, 0x1Au8, 0x0Au8]
}

pub open spec fn ihdr_type() -> Seq<u8> {
    seq![0x49u8, 0x48u8, 0x44u8, 0x52u8]
}

pub open spec fn idat_type() -> Seq<u8> {
    seq![0x49u8, 0x44u8, 0x41u8, 0x54u8]
}

pub open spec fn iend_type() -> Seq<u8> {
    seq![0x49u8, 0x45u8, 0x4Eu8, 0x44u8]
}

/// The big-endian 32-bit value at `i`.
pub open spec fn be32(s: Seq<u8>, i: int) -> nat {
    (s[i] as nat) * 16777216 + (s[i + 1] as nat) * 65536 + (s[i + 2] as nat) * 256 + (s[i
        + 3] as nat)
}

/// The big-endian bytes of a 32-bit value.
pub open spec fn u32_be(v: u32) -> Seq<u8> {
    seq![(v / 16777216) as u8, ((v / 65536) % 256) as u8, ((v / 256) % 256) as u8, (v % 256) as u8]
}

/// The header fields stored in the first thirteen bytes of `d`.
pub open spec fn ihdr_of(d: Seq<u8>) -> Ihdr {
    Ihdr {
        width: be32(d, 0) as u32,
        height: be32(d, 4) as u32,
        depth: d[8],
        color_type: d[9],
        compression_method: d[10],
        filter_method: d[11],
        interlace_method: d[12],
    }
}

/// The thirteen data bytes of a header chunk.
pub open spec fn ihdr_bytes(h: Ihdr) -> Seq<u8> {
    u32_be(h.width) + u32_be(h.height) + seq![
        h.depth,
        h.color_type,
        h.compression_method,
        h.filter_method,
        h.interlace_method,
    ]
}

/// The chunk a raw chunk stands for, or `None` for a header chunk too short
/// to hold its fields.
pub open spec fn interpret_spec(length: u32, ty: Seq<u8>, data: Seq<u8>, crc: u32) -> Option<
    ChunkView,
> {
    if ty == ihdr_type() {
        if data.len() >= 13 {
            Some(ChunkView::Ihdr(ihdr_of(data), crc))
        } else {
            None
        }
    } else if ty == idat_type() {
        Some(ChunkView::Idat(data, crc))
    } else if ty == iend_type() {
        Some(ChunkView::Iend(crc))
    } else {
        Some(ChunkView::Ancillary(length, ty, data, crc))
    }
}

/// The chunks from `pos` to the end of `s`, or `None` when a chunk is cut
/// short or cannot be interpreted.
pub open spec fn png_chunks(s: Seq<u8>, pos: int) -> Option<Seq<ChunkView>>
    decreases s.len() - pos,
{
    if pos < 0 || pos >= s.len() {
        Some(Seq::empty())
    } else if s.len() - pos < 8 {
        None
    } else {
        let l = be32(s, pos);
        if s.len() - pos < 12 + l {
            None
        } else {
            match interpret_spec(
                l as u32,
                s.subrange(pos + 4, pos + 8),
                s.subrange(pos + 8, pos + 8 + l),
                be32(s, pos + 8 + l) as u32,
            ) {
                None => None,
                Some(c) => match png_chunks(s, pos + 12 + l) {
                    None => None,
                    Some(rest) => Some(seq![c] + rest),
                },
            }
        }
    }
}

/// What `parse` makes of `s`: its signature and its chunks.
pub open spec fn png_parse_spec(s: Seq<u8>) -> Option<(Seq<u8>, Seq<ChunkView>)> {
    if s.len() < 8 {
        None
    } else {
        match png_chunks(s, 8) {
            Some(c) => Some((s.subrange(0, 8), c)),
            None => None,
        }
    }
}

/// The serialised form of one chunk: length, type, data, CRC.
pub open spec fn chunk_bytes(c: ChunkView) -> Seq<u8> {
    match c {
        ChunkView::Ihdr(h, crc) => u32_be(13) + ihdr_type() + ihdr_bytes(h) + u32_be(crc),
        ChunkView::Idat(d, crc) => u32_be(d.len() as u32) + idat_type() + d + u32_be(crc),
        ChunkView::Iend(crc) => u32_be(0) + iend_type() + u32_be(crc),
        ChunkView::Ancillary(_, ty, d, crc) => u32_be(d.len() as u32) + ty + d + u32_be(crc),
    }
}

pub open spec fn all_chunk_bytes(cs: Seq<ChunkView>) -> Seq<u8>
    decreases cs.len(),
{
    if cs.len() == 0 {
        Seq::empty()
    } else {
        all_chunk_bytes(cs.drop_last()) + chunk_bytes(cs.last())
    }
}

/// Every chunk's data fits its 32-bit length field.
pub open spec fn chunks_fit(cs: Seq<ChunkView>) -> bool {
    forall|k: int|
        0 <= k < cs.len() ==> match #[trigger] cs[k] {
            ChunkView::Idat(d, _) => d.len() <= u32::MAX,
            ChunkView::Ancillary(_, _, d, _) => d.len() <= u32::MAX,
            _ => true,
        }
}

/// What `generate` makes of a model.
pub open spec fn png_generate_spec(sig: Seq<u8>, cs: Seq<ChunkView>) -> Seq<u8> {
    sig + all_chunk_bytes(cs)
}

/// The CRC-32 checksum of a byte string.
pub uninterp spec fn crc32_of(bytes: Seq<u8>) -> u32;

/// Relies on crc32fast's `hash`: the CRC-32 (IEEE) checksum of the bytes,
/// which depends on the bytes alone.
#[verifier::external_body]
fn crc32(bytes: &[u8]) -> (r: u32)
    ensures
        r == crc32_of(bytes@),
{
    crc32fast::hash(bytes)
}

/// The CRC of a chunk: over its type and its data.
pub fn png_crc(ty: &[u8], data: &[u8]) -> (r: u32)
    ensures
        r == crc32_of(ty@ + data@),
{
    let mut bytes: Vec<u8> = vstd::slice::slice_to_vec(ty);
    let d = vstd::slice::slice_to_vec(data);
    append_bytes(&mut bytes, &d);
    crc32(bytes.as_slice())
}

fn read_u32_be(s: &[u8], i: usize) -> (r: u32)
    requires
        i + 4 <= s@.len(),
    ensures
        r as nat == be32(s@, i as int),
{
    (s[i] as u32) * 16777216 + (s[i + 1] as u32) * 65536 + (s[i + 2] as u32) * 256 + (s[i
        + 3] as u32)
}

pub fn push_u32_be(out: &mut Vec<u8>, v: u32)
    ensures
        final(out)@ == old(out)@ + u32_be(v),
{
    out.push((v / 16777216) as u8);
    out.push(((v / 65536) % 256) as u8);
    out.push(((v / 256) % 256) as u8);
    out.push((v % 256) as u8);
    assert(final(out)@ =~= old(out)@ + u32_be(v));
}

fn chunk_type_is(t: &[u8; 4], a: u8, b: u8, c: u8, d: u8) -> (r: bool)
    ensures
        r == (t@ == seq![a, b, c, d]),
{
    let r = t[0] == a && t[1] == b && t[2] == c && t[3] == d;
    proof {
        if r {
            assert(t@ =~= seq![a, b, c, d]);
        } else if t@ == seq![a, b, c, d] {
            assert(t@[0] == a && t@[1] == b && t@[2] == c && t@[3] == d);
        }
    }
    r
}

/// Reads the header fields from the first thirteen bytes of a chunk's data.
pub fn bytes_to_ihdr(data: &[u8]) -> (r: Result<Ihdr, PngError>)
    ensures
        data@.len() >= 13 <==> r is Ok,
        r matches Ok(h) ==> h == ihdr_of(data@),
{
    if data.len() < 13 {
        return Err(PngError::Malformed);
    }
    Ok(
        Ihdr {
            width: read_u32_be(data, 0),
            height: read_u32_be(data, 4),
            depth: data[8],
            color_type: data[9],
            compression_method: data[10],
            filter_method: data[11],
            interlace_method: data[12],
        },
    )
}

/// The thirteen data bytes of a header chunk.
pub fn ihdr_to_bytes(ihdr: &Ihdr) -> (r: Vec<u8>)
    ensures
        r@ == ihdr_bytes(*ihdr),
{
    let mut bytes: Vec<u8> = Vec::new();
    push_u32_be(&mut bytes, ihdr.width);
    push_u32_be(&mut bytes, ihdr.height);
    bytes.push(ihdr.depth);
    bytes.push(ihdr.color_type);
    bytes.push(ihdr.compression_method);
    bytes.push(ihdr.filter_method);
    bytes.push(ihdr.interlace_method);
    assert(bytes@ =~= ihdr_bytes(*ihdr));
    bytes
}

/// Interprets a raw chunk by its type. A header chunk whose data is shorter
/// than its thirteen fields is refused.
pub fn interpret_chunk(raw: RawChunk) -> (r: Result<Chunk, PngError>)
    ensures
        interpret_spec(raw.length, raw.chunk_type@, raw.data@, raw.crc) matches Some(c) ==> (
        r matches Ok(k) && k@ == c),
        interpret_spec(raw.length, raw.chunk_type@, raw.data@, raw.crc) is None ==> r
            == Err::<Chunk, PngError>(PngError::Malformed),
{
    if chunk_type_is(&raw.chunk_type, 0x49, 0x48, 0x44, 0x52) {
        match bytes_to_ihdr(raw.data.as_slice()) {
            Ok(h) => Ok(Chunk::Ihdr(h, ChunkCrc { crc: raw.crc })),
            Err(_) => Err(PngError::Malformed),
        }
    } else if chunk_type_is(&raw.chunk_type, 0x49, 0x44, 0x41, 0x54) {
        Ok(Chunk::Idat(raw.data, ChunkCrc { crc: raw.crc }))
    } else if chunk_type_is(&raw.chunk_type, 0x49, 0x45, 0x4E, 0x44) {
        Ok(Chunk::Iend(ChunkCrc { crc: raw.crc }))
    } else {
        Ok(Chunk::Ancillary(raw))
    }
}

/// Reads the raw chunk that starts at `pos`, and the position after it.
fn parse_chunk(s: &[u8], pos: usize) -> (r: Option<(RawChunk, usize)>)
    requires
        pos < s@.len(),
    ensures
        s@.len() - pos < 8 ==> r is None,
        s@.len() - pos >= 8 ==> {
            let l = be32(s@, pos as int);
            &&& (s@.len() - pos < 12 + l ==> r is None)
            &&& (s@.len() - pos >= 12 + l ==> (r matches Some((raw, next)) && next == pos + 12 + l
                && raw.length == l && raw.chunk_type@ == s@.subrange(pos + 4, pos + 8)
                && raw.data@ == s@.subrange(pos + 8, pos + 8 + l) && raw.crc == be32(
                s@,
                pos + 8 + l,
            )))
        },
{
    let len = s.len();
    if len - pos < 8 {
        return None;
    }
    let length = read_u32_be(s, pos);
    if ((len - pos - 8) as u64) < (length as u64) + 4 {
        return None;
    }
    let l = length as usize;
    let chunk_type: [u8; 4] = [s[pos + 4], s[pos + 5], s[pos + 6], s[pos + 7]];
    assert(chunk_type@ =~= s@.subrange(pos + 4, pos + 8));
    let data = vstd::slice::slice_to_vec(vstd::slice::slice_subrange(s, pos + 8, pos + 8 + l));
    let crc = read_u32_be(s, pos + 8 + l);
    Some((RawChunk { length, chunk_type, data, crc }, pos + 12 + l))
}

impl Png {
    /// The file extension of the format.
    pub fn ext() -> (r: &'static str)
        ensures
            r@ == "png"@,
    {
        "png"
    }

    /// Parses a PNG: the eight signature bytes, then chunks to the end of
    /// the input. A cut-short input or header chunk is refused.
    pub fn parse(input: &[u8]) -> (r: Result<PngModel, PngError>)
        ensures
            r is Ok <==> png_parse_spec(input@) is Some,
            r matches Ok(m) ==> png_parse_spec(input@) == Some(
                (m.signature@, chunks_view(m.chunks@)),
            ),
    {
        let len = input.len();
        if len < 8 {
            return Err(PngError::Malformed);
        }
        let signature: [u8; 8] = [
            input[0],
            input[1],
            input[2],
            input[3],
            input[4],
            input[5],
            input[6],
            input[7],
        ];
        assert(signature@ =~= input@.subrange(0, 8));
        let mut chunks: Vec<Chunk> = Vec::new();
        let mut pos: usize = 8;
        while pos < len
            invariant
                8 <= pos <= len == input@.len(),
                png_chunks(input@, 8) == match png_chunks(input@, pos as int) {
                    Some(rest) => Some(chunks_view(chunks@) + rest),
                    None => None::<Seq<ChunkView>>,
                },
            decreases len - pos,
        {
            let ghost s = input@;
            let ghost before = chunks_view(chunks@);
            match parse_chunk(input, pos) {
                None => {
                    return Err(PngError::Malformed);
                },
                Some((raw, next)) => {
                    let ghost l = be32(s, pos as int);
                    let ghost iv = interpret_spec(raw.length, raw.chunk_type@, raw.data@, raw.crc);
                    match interpret_chunk(raw) {
                        Err(e) => {
                            return Err(e);
                        },
                        Ok(c) => {
                            chunks.push(c);
                            proof {
                                assert(chunks_view(chunks@) =~= before.push(iv->Some_0));
                                match png_chunks(s, next as int) {
                                    Some(rest) => {
                                        assert(chunks_view(chunks@) + rest =~= before + (seq![
                                            iv->Some_0,
                                        ] + rest));
                                    },
                                    None => {},
                                }
                            }
                            pos = next;
                        },
                    }
                },
            }
        }
        proof {
            assert(chunks_view(chunks@) + Seq::<ChunkView>::empty() =~= chunks_view(chunks@));
        }
        Ok(PngModel { signature, chunks })
    }
}

/// Appends a chunk: length, type, data, then the given CRC.
fn write_chunk(out: &mut Vec<u8>, ty: &[u8], data: &[u8], crc: u32)
    requires
        data@.len() <= u32::MAX,
    ensures
        final(out)@ == old(out)@ + u32_be(data@.len() as u32) + ty@ + data@ + u32_be(crc),
{
    push_u32_be(out, data.len() as u32);
    let t = vstd::slice::slice_to_vec(ty);
    append_bytes(out, &t);
    let d = vstd::slice::slice_to_vec(data);
    append_bytes(out, &d);
    push_u32_be(out, crc);
}

fn write_one(out: &mut Vec<u8>, c: &Chunk)
    requires
        chunks_fit(seq![c@]),
    ensures
        final(out)@ == old(out)@ + chunk_bytes(c@),
{
    assert(match seq![c@][0] {
        ChunkView::Idat(d, _) => d.len() <= u32::MAX,
        ChunkView::Ancillary(_, _, d, _) => d.len() <= u32::MAX,
        _ => true,
    });
    match c {
        Chunk::Ihdr(h, crc) => {
            let d = ihdr_to_bytes(h);
            let t: [u8; 4] = [0x49, 0x48, 0x44, 0x52];
            assert(t@ =~= ihdr_type());
            write_chunk(out, vstd::array::array_as_slice(&t), d.as_slice(), crc.crc);
        },
        Chunk::Idat(d, crc) => {
            let t: [u8; 4] = [0x49, 0x44, 0x41, 0x54];
            assert(t@ =~= idat_type());
            write_chunk(out, vstd::array::array_as_slice(&t), d.as_slice(), crc.crc);
        },
        Chunk::Iend(crc) => {
            let t: [u8; 4] = [0x49, 0x45, 0x4E, 0x44];
            assert(t@ =~= iend_type());
            let e: Vec<u8> = Vec::new();
            write_chunk(out, vstd::array::array_as_slice(&t), e.as_slice(), crc.crc);
            assert(final(out)@ =~= old(out)@ + chunk_bytes(c@));
        },
        Chunk::Ancillary(raw) => {
            write_chunk(out, vstd::array::array_as_slice(&raw.chunk_type), raw.data.as_slice(), raw.crc);
        },
    }
}

impl Png {
    /// Serialises a model: the signature, then each chunk with its length,
    /// type, data and stored CRC.
    pub fn generate(model: &PngModel) -> (r: Vec<u8>)
        requires
            chunks_fit(chunks_view(model.chunks@)),
        ensures
            r@ == png_generate_spec(model.signature@, chunks_view(model.chunks@)),
    {
        let mut bytes: Vec<u8> = Vec::new();
        let sig = vstd::slice::slice_to_vec(vstd::array::array_as_slice(&model.signature));
        append_bytes(&mut bytes, &sig);
        let mut k: usize = 0;
        while k < model.chunks.len()
            invariant
                k <= model.chunks@.len(),
                chunks_fit(chunks_view(model.chunks@)),
                bytes@ == model.signature@ + all_chunk_bytes(
                    chunks_view(model.chunks@.subrange(0, k as int)),
                ),
            decreases model.chunks.len() - k,
        {
            assert(chunks_view(model.chunks@)[k as int] == model.chunks@[k as int]@);
            assert(chunks_fit(seq![model.chunks@[k as int]@])) by {
                assert(seq![model.chunks@[k as int]@][0] == chunks_view(model.chunks@)[k as int]);
            }
            write_one(&mut bytes, &model.chunks[k]);
            proof {
                let cv = chunks_view(model.chunks@.subrange(0, k + 1));
                assert(cv.drop_last() =~= chunks_view(model.chunks@.subrange(0, k as int)));
                assert(bytes@ =~= model.signature@ + all_chunk_bytes(cv));
            }
            k = k + 1;
        }
        assert(model.chunks@.subrange(0, k as int) =~= model.chunks@);
        bytes
    }
}

} // verus!
