//! Building and editing PNG models: the minimal image data stream, CRC
//! normalisation, the seed corpus, and the chunk mutations.

use crate::format::{name_bytes, CorpusError, CorpusFile};
use crate::jpeg::{append_bytes, copy_bytes};
use crate::png::{
    chunks_fit, chunks_view, crc32_of, idat_type, iend_type, ihdr_bytes, ihdr_to_bytes,
    ihdr_type, png_crc, png_generate_spec, png_signature, u32_be, Chunk, ChunkCrc, ChunkView,
    Ihdr, Png, PngError, PngModel, RawChunk,
};
use rand::rngs::SmallRng;
use vstd::prelude::*;
use vstd::utf8::encode_utf8;
use vstd::string::StringExecFns;

verus! {

pub open spec fn adler_a(s: Seq<u8>) -> nat
    decreases s.len(),
{
    if s.len() == 0 {
        1
    } else {
        (adler_a(s.drop_last()) + s.last() as nat) % 65521
    }
}

pub open spec fn adler_b(s: Seq<u8>) -> nat
    decreases s.len(),
{
    if s.len() == 0 {
        0
    } else {
        (adler_b(s.drop_last()) + adler_a(s)) % 65521
    }
}

/// The Adler-32 checksum of `s`.
pub open spec fn adler32(s: Seq<u8>) -> nat {
    adler_b(s) * 65536 + adler_a(s)
}

pub open spec fn u16_le(v: nat) -> Seq<u8> {
    seq![(v % 256) as u8, (v / 256) as u8]
}

/// A zlib stream holding `scan` in one final stored block.
pub open spec fn stored_zlib(scan: Seq<u8>) -> Seq<u8> {
    seq![0x78u8, 0x01u8, 0x01u8] + u16_le(scan.len()) + u16_le((65535 - scan.len()) as nat) + scan
        + u32_be(adler32(scan) as u32)
}

/// Wraps a scanline into a zlib stream with one stored block; a scanline
/// longer than a stored block can hold is refused.
pub fn minimal_idat(scanline: &[u8]) -> (r: Result<Vec<u8>, PngError>)
    ensures
        scanline@.len() <= 65535 <==> r is Ok,
        r matches Ok(v) ==> v@ == stored_zlib(scanline@),
        r is Err ==> r == Err::<Vec<u8>, PngError>(PngError::TooLong),
{
    if scanline.len() > 65535 {
        return Err(PngError::TooLong);
    }
    let len = scanline.len();
    let nlen = 65535 - len;
    let mut out: Vec<u8> = Vec::new();
    out.push(0x78);
    out.push(0x01);
    out.push(0x01);
    out.push((len % 256) as u8);
    out.push((len / 256) as u8);
    out.push((nlen % 256) as u8);
    out.push((nlen / 256) as u8);
    let s = vstd::slice::slice_to_vec(scanline);
    append_bytes(&mut out, &s);
    let mut a: u32 = 1;
    let mut b: u32 = 0;
    let mut k: usize = 0;
    while k < len
        invariant
            k <= len == scanline@.len(),
            a < 65521 && b < 65521,
            a == adler_a(scanline@.subrange(0, k as int)),
            b == adler_b(scanline@.subrange(0, k as int)),
        decreases len - k,
    {
        proof {
            assert(scanline@.subrange(0, k + 1).drop_last() =~= scanline@.subrange(0, k as int));
        }
        a = (a + scanline[k] as u32) % 65521;
        b = (b + a) % 65521;
        k = k + 1;
    }
    assert(scanline@.subrange(0, k as int) =~= scanline@);
    let adler = b * 65536 + a;
    crate::png::push_u32_be(&mut out, adler);
    assert(out@ =~= stored_zlib(scanline@));
    Ok(out)
}

/// A chunk with its CRC recomputed over its type and data.
pub open spec fn normalized(c: ChunkView) -> ChunkView {
    match c {
        ChunkView::Ihdr(h, _) => ChunkView::Ihdr(h, crc32_of(ihdr_type() + ihdr_bytes(h))),
        ChunkView::Idat(d, _) => ChunkView::Idat(d, crc32_of(idat_type() + d)),
        ChunkView::Iend(_) => ChunkView::Iend(crc32_of(iend_type())),
        ChunkView::Ancillary(l, t, d, _) => ChunkView::Ancillary(l, t, d, crc32_of(t + d)),
    }
}

fn normalized_chunk(c: &Chunk) -> (r: Chunk)
    ensures
        r@ == normalized(c@),
{
    match c {
        Chunk::Ihdr(h, _) => {
            let t: [u8; 4] = [0x49, 0x48, 0x44, 0x52];
            assert(t@ =~= ihdr_type());
            let d = ihdr_to_bytes(h);
            let crc = png_crc(vstd::array::array_as_slice(&t), d.as_slice());
            Chunk::Ihdr(*h, ChunkCrc { crc })
        },
        Chunk::Idat(d, _) => {
            let t: [u8; 4] = [0x49, 0x44, 0x41, 0x54];
            assert(t@ =~= idat_type());
            let crc = png_crc(vstd::array::array_as_slice(&t), d.as_slice());
            Chunk::Idat(copy_bytes(d), ChunkCrc { crc })
        },
        Chunk::Iend(_) => {
            let t: [u8; 4] = [0x49, 0x45, 0x4E, 0x44];
            let e: Vec<u8> = Vec::new();
            let crc = png_crc(vstd::array::array_as_slice(&t), e.as_slice());
            assert(t@ + e@ =~= iend_type());
            Chunk::Iend(ChunkCrc { crc })
        },
        Chunk::Ancillary(raw) => {
            let crc = png_crc(vstd::array::array_as_slice(&raw.chunk_type), raw.data.as_slice());
            Chunk::Ancillary(
                RawChunk {
                    length: raw.length,
                    chunk_type: raw.chunk_type,
                    data: copy_bytes(&raw.data),
                    crc,
                },
            )
        },
    }
}

/// Recomputes the CRC of every chunk.
pub fn normalize_png(model: &mut PngModel)
    ensures
        final(model).signature == old(model).signature,
        chunks_view(final(model).chunks@) == chunks_view(old(model).chunks@).map_values(
            |c: ChunkView| normalized(c),
        ),
{
    let n = model.chunks.len();
    let mut out: Vec<Chunk> = Vec::new();
    let mut k: usize = 0;
    while k < n
        invariant
            k <= n == model.chunks@.len(),
            out@.len() == k,
            forall|j: int| 0 <= j < k ==> (#[trigger] out@[j])@ == normalized(model.chunks@[j]@),
        decreases n - k,
    {
        out.push(normalized_chunk(&model.chunks[k]));
        k = k + 1;
    }
    model.chunks = out;
    assert(chunks_view(model.chunks@) =~= chunks_view(old(model).chunks@).map_values(
        |c: ChunkView| normalized(c),
    ));
}

/// The colour type, bit depth and bytes per pixel of the six corpus images.
pub open spec fn corpus_variation(i: int) -> (u8, u8, nat) {
    if i == 0 {
        (3, 8, 1)
    } else if i == 1 {
        (0, 8, 1)
    } else if i == 2 {
        (0, 16, 2)
    } else if i == 3 {
        (2, 8, 3)
    } else if i == 4 {
        (6, 8, 4)
    } else {
        (2, 8, 3)
    }
}

pub open spec fn corpus_name(i: int) -> Seq<char> {
    if i == 0 {
        "indexed.png"@
    } else if i == 1 {
        "gray.png"@
    } else if i == 2 {
        "gray16.png"@
    } else if i == 3 {
        "rgb.png"@
    } else if i == 4 {
        "rgba.png"@
    } else {
        "interlace.png"@
    }
}

/// The header of corpus image `i`: one pixel, interlaced only for the last.
pub open spec fn corpus_ihdr(i: int) -> Ihdr {
    Ihdr {
        width: 1,
        height: 1,
        depth: corpus_variation(i).1,
        color_type: corpus_variation(i).0,
        compression_method: 0,
        filter_method: 0,
        interlace_method: if i == 5 {
            1
        } else {
            0
        },
    }
}

/// The one scanline of corpus image `i`: a filter byte and a black pixel.
pub open spec fn corpus_scanline(i: int) -> Seq<u8> {
    Seq::new(1 + corpus_variation(i).2, |j: int| 0u8)
}

/// The bytes of corpus image `i`.
pub open spec fn corpus_png(i: int) -> Seq<u8> {
    png_generate_spec(
        png_signature(),
        seq![
            normalized(ChunkView::Ihdr(corpus_ihdr(i), 0)),
            normalized(ChunkView::Idat(stored_zlib(corpus_scanline(i)), 0)),
            normalized(ChunkView::Iend(0)),
        ],
    )
}

fn corpus_file(i: usize) -> (r: Result<CorpusFile, CorpusError>)
    requires
        i < 6,
    ensures
        r is Ok,
        r matches Ok(f) ==> f.name@ == encode_utf8(corpus_name(i as int)) && f.contents@ == corpus_png(i as int),
{
    let (color_type, depth, bpp, name): (u8, u8, usize, &str) = if i == 0 {
        (3, 8, 1, "indexed.png")
    } else if i == 1 {
        (0, 8, 1, "gray.png")
    } else if i == 2 {
        (0, 16, 2, "gray16.png")
    } else if i == 3 {
        (2, 8, 3, "rgb.png")
    } else if i == 4 {
        (6, 8, 4, "rgba.png")
    } else {
        (2, 8, 3, "interlace.png")
    };
    let ihdr = Ihdr {
        width: 1,
        height: 1,
        depth,
        color_type,
        compression_method: 0,
        filter_method: 0,
        interlace_method: if i == 5 {
            1
        } else {
            0
        },
    };
    let mut scanline: Vec<u8> = Vec::new();
    let mut k: usize = 0;
    while k <= bpp
        invariant
            k <= bpp + 1,
            bpp == corpus_variation(i as int).2,
            scanline@ == Seq::new(k as nat, |j: int| 0u8),
        decreases bpp + 1 - k,
    {
        scanline.push(0u8);
        k = k + 1;
        assert(scanline@ =~= Seq::new(k as nat, |j: int| 0u8));
    }
    let idat = match minimal_idat(scanline.as_slice()) {
        Ok(v) => v,
        Err(_) => {
            return Err(CorpusError::Encoding);
        },
    };
    let mut model = PngModel {
        signature: [0x89, 0x50, 0x4E, 0x47, 0x0D, 0x0A, 0x1A, 0x0A],
        chunks: Vec::new(),
    };
    model.chunks.push(Chunk::Ihdr(ihdr, ChunkCrc { crc: 0 }));
    model.chunks.push(Chunk::Idat(idat, ChunkCrc { crc: 0 }));
    model.chunks.push(Chunk::Iend(ChunkCrc { crc: 0 }));
    let ghost before = chunks_view(model.chunks@);
    assert(before =~= seq![
        ChunkView::Ihdr(corpus_ihdr(i as int), 0),
        ChunkView::Idat(stored_zlib(corpus_scanline(i as int)), 0),
        ChunkView::Iend(0),
    ]);
    normalize_png(&mut model);
    assert(model.signature@ =~= png_signature());
    assert(chunks_view(model.chunks@) =~= seq![
        normalized(ChunkView::Ihdr(corpus_ihdr(i as int), 0)),
        normalized(ChunkView::Idat(stored_zlib(corpus_scanline(i as int)), 0)),
        normalized(ChunkView::Iend(0)),
    ]);
    assert(chunks_fit(chunks_view(model.chunks@))) by {
        assert(stored_zlib(corpus_scanline(i as int)).len() < 100);
    }
    let contents = Png::generate(&model);
    Ok(CorpusFile { name: name_bytes(name), contents })
}

impl Png {
    /// Six one-pixel images: indexed, grey, 16-bit grey, RGB, RGBA and an
    /// interlaced RGB one, each with correct CRCs.
    pub fn generate_corpus(rng: &mut SmallRng) -> (r: Result<Vec<CorpusFile>, CorpusError>)
        ensures
            r is Ok,
            r matches Ok(v) ==> v@.len() == 6 && forall|i: int|
                0 <= i < 6 ==> #[trigger] v@[i].name@ == encode_utf8(corpus_name(i)) && v@[i].contents@
                    == corpus_png(i),
    {
        let mut files: Vec<CorpusFile> = Vec::new();
        let mut i: usize = 0;
        while i < 6
            invariant
                i <= 6,
                files@.len() == i,
                forall|j: int|
                    0 <= j < i ==> #[trigger] files@[j].name@ == encode_utf8(corpus_name(j))
                        && files@[j].contents@ == corpus_png(j),
            decreases 6 - i,
        {
            match corpus_file(i) {
                Ok(f) => {
                    files.push(f);
                    assert(files@[i as int].name@ == encode_utf8(corpus_name(i as int)));
                },
                Err(e) => {
                    return Err(e);
                },
            }
            i = i + 1;
        }
        Ok(files)
    }
}

} // verus!
