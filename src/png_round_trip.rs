//! The PNG round trip: the model of any parsable input generates bytes that
//! parse back to the same model.

use crate::png::{
    all_chunk_bytes, be32, chunk_bytes, chunks_fit, idat_type, iend_type, ihdr_bytes, ihdr_of,
    ihdr_type, interpret_spec, png_chunks, png_generate_spec, png_parse_spec, u32_be, ChunkView,
};
use vstd::prelude::*;

verus! {

/// A chunk that generation writes in a form the parser reads back as it is.
pub open spec fn chunk_ok(c: ChunkView) -> bool {
    match c {
        ChunkView::Idat(d, _) => d.len() <= u32::MAX,
        ChunkView::Ancillary(l, ty, d, _) => ty.len() == 4 && ty != ihdr_type() && ty != idat_type()
            && ty != iend_type() && l == d.len(),
        _ => true,
    }
}

pub open spec fn all_ok(cs: Seq<ChunkView>) -> bool {
    forall|k: int| 0 <= k < cs.len() ==> chunk_ok(#[trigger] cs[k])
}

proof fn lemma_be32_round(v: u32)
    ensures
        be32(u32_be(v), 0) == v,
{
    assert((v / 16777216) * 16777216 + ((v / 65536) % 256) * 65536 + ((v / 256) % 256) * 256 + v
        % 256 == v) by (bit_vector);
    assert(v / 16777216 < 256) by (bit_vector);
    assert((v / 16777216) * 16777216 + ((v / 65536) % 256) * 65536 + ((v / 256) % 256) * 256 + v
        % 256 < 0x1_0000_0000) by (bit_vector);
}

/// Every chunk the parser produces is one that generation writes back
/// faithfully.
proof fn lemma_parsed_ok(s: Seq<u8>, pos: int)
    ensures
        png_chunks(s, pos) matches Some(cs) ==> all_ok(cs),
    decreases s.len() - pos,
{
    if 0 <= pos < s.len() && s.len() - pos >= 8 {
        let l = be32(s, pos);
        if s.len() - pos >= 12 + l {
            lemma_parsed_ok(s, pos + 12 + l);
            let ty = s.subrange(pos + 4, pos + 8);
            let d = s.subrange(pos + 8, pos + 8 + l);
            assert(l <= u32::MAX) by {
                assert(s[pos] <= 255 && s[pos + 1] <= 255 && s[pos + 2] <= 255 && s[pos + 3] <= 255);
            }
            match interpret_spec(l as u32, ty, d, be32(s, pos + 8 + l) as u32) {
                Some(c) => match png_chunks(s, pos + 12 + l) {
                    Some(rest) => {
                        let cs = seq![c] + rest;
                        assert(chunk_ok(c));
                        assert forall|k: int| 0 <= k < cs.len() implies chunk_ok(#[trigger] cs[k]) by {
                            if k > 0 {
                                assert(cs[k] == rest[k - 1]);
                            }
                        }
                    },
                    None => {},
                },
                None => {},
            }
        }
    }
}

proof fn lemma_bytes_front(c: ChunkView, rest: Seq<ChunkView>)
    ensures
        all_chunk_bytes(seq![c] + rest) == chunk_bytes(c) + all_chunk_bytes(rest),
    decreases rest.len(),
{
    let l = seq![c] + rest;
    if rest.len() == 0 {
        assert(l.drop_last() =~= Seq::<ChunkView>::empty());
        assert(l.last() == c);
        assert(all_chunk_bytes(l) == all_chunk_bytes(l.drop_last()) + chunk_bytes(l.last()));
        assert(all_chunk_bytes(rest) == Seq::<u8>::empty());
        assert(all_chunk_bytes(l) =~= chunk_bytes(c) + all_chunk_bytes(rest));
    } else {
        assert(l.drop_last() =~= seq![c] + rest.drop_last());
        lemma_bytes_front(c, rest.drop_last());
        assert(l.last() == rest.last());
        assert(all_chunk_bytes(l) == all_chunk_bytes(l.drop_last()) + chunk_bytes(l.last()));
        assert(all_chunk_bytes(rest) == all_chunk_bytes(rest.drop_last()) + chunk_bytes(rest.last()));
        assert(all_chunk_bytes(l) =~= chunk_bytes(c) + all_chunk_bytes(rest));
    }
}

/// The fields of a written chunk: length, type, data and CRC.
pub open spec fn written_parts(c: ChunkView) -> (u32, Seq<u8>, Seq<u8>, u32) {
    match c {
        ChunkView::Ihdr(h, crc) => (13, ihdr_type(), ihdr_bytes(h), crc),
        ChunkView::Idat(d, crc) => (d.len() as u32, idat_type(), d, crc),
        ChunkView::Iend(crc) => (0, iend_type(), Seq::empty(), crc),
        ChunkView::Ancillary(_, ty, d, crc) => (d.len() as u32, ty, d, crc),
    }
}

proof fn lemma_ihdr_round(h: crate::png::Ihdr)
    ensures
        ihdr_of(ihdr_bytes(h)) == h,
{
    let b = ihdr_bytes(h);
    lemma_be32_round(h.width);
    lemma_be32_round(h.height);
    assert(be32(b, 0) == be32(u32_be(h.width), 0));
    assert(be32(b, 4) == be32(u32_be(h.height), 0));
}

proof fn lemma_window(s: Seq<u8>, pos: int, w: Seq<u8>, a: int, b: int)
    requires
        0 <= pos,
        pos + w.len() <= s.len(),
        s.subrange(pos, pos + w.len() as int) == w,
        0 <= a <= b <= w.len(),
    ensures
        s.subrange(pos + a, pos + b) == w.subrange(a, b),
{
    assert forall|t: int| 0 <= t < b - a implies s.subrange(pos + a, pos + b)[t] == w.subrange(
        a,
        b,
    )[t] by {
        assert(s.subrange(pos, pos + w.len() as int)[a + t] == w[a + t]);
    }
    assert(s.subrange(pos + a, pos + b) =~= w.subrange(a, b));
}

proof fn lemma_be32_window(s: Seq<u8>, q: int, v: u32)
    requires
        0 <= q,
        q + 4 <= s.len(),
        s.subrange(q, q + 4) == u32_be(v),
    ensures
        be32(s, q) == v,
{
    lemma_be32_round(v);
    assert(s.subrange(q, q + 4)[0] == s[q]);
    assert(s.subrange(q, q + 4)[1] == s[q + 1]);
    assert(s.subrange(q, q + 4)[2] == s[q + 2]);
    assert(s.subrange(q, q + 4)[3] == s[q + 3]);
}

/// One written chunk at `pos` parses back to itself, followed by whatever
/// parses after it.
#[verifier::rlimit(50)]
proof fn lemma_parse_one(s: Seq<u8>, pos: int, c: ChunkView)
    requires
        0 <= pos,
        pos + chunk_bytes(c).len() <= s.len(),
        s.subrange(pos, pos + chunk_bytes(c).len() as int) == chunk_bytes(c),
        chunk_ok(c),
    ensures
        png_chunks(s, pos) == match png_chunks(s, pos + chunk_bytes(c).len()) {
            Some(rest) => Some(seq![c] + rest),
            None => None::<Seq<ChunkView>>,
        },
{
    let (l, ty, d, crc) = written_parts(c);
    let cb = chunk_bytes(c);
    assert(cb =~= u32_be(l) + ty + d + u32_be(crc)) by {
        match c {
            ChunkView::Iend(_) => {
                assert(iend_type() + Seq::<u8>::empty() =~= iend_type());
            },
            _ => {},
        }
    }
    let n = cb.len() as int;
    assert(ty.len() == 4);
    assert(l as nat == d.len()) by {
        if c is Ihdr {
            assert(ihdr_bytes(c->Ihdr_0).len() == 13);
        }
    }
    assert(n == 12 + d.len());
    lemma_window(s, pos, cb, 0, 4);
    assert(cb.subrange(0, 4) =~= u32_be(l));
    lemma_be32_window(s, pos, l);
    lemma_window(s, pos, cb, 4, 8);
    assert(cb.subrange(4, 8) =~= ty);
    lemma_window(s, pos, cb, 8, 8 + d.len() as int);
    assert(cb.subrange(8, 8 + d.len() as int) =~= d);
    lemma_window(s, pos, cb, 8 + d.len() as int, n);
    assert(cb.subrange(8 + d.len() as int, n) =~= u32_be(crc));
    lemma_be32_window(s, pos + 8 + d.len() as int, crc);
    if c is Ihdr {
        lemma_ihdr_round(c->Ihdr_0);
    }
    assert(interpret_spec(l, ty, d, crc) == Some(c));
}

proof fn lemma_parse_all(s: Seq<u8>, p: int, cs: Seq<ChunkView>)
    requires
        0 <= p,
        p + all_chunk_bytes(cs).len() == s.len(),
        s.subrange(p, s.len() as int) == all_chunk_bytes(cs),
        all_ok(cs),
    ensures
        png_chunks(s, p) == Some(cs),
    decreases cs.len(),
{
    if cs.len() == 0 {
        assert(png_chunks(s, p) == Some(Seq::<ChunkView>::empty()));
        assert(cs =~= Seq::<ChunkView>::empty());
    } else {
        let c = cs[0];
        let rest = cs.subrange(1, cs.len() as int);
        assert(cs =~= seq![c] + rest);
        lemma_bytes_front(c, rest);
        let n = chunk_bytes(c).len() as int;
        let all = all_chunk_bytes(cs);
        assert(chunk_ok(c));
        assert(s.subrange(p, p + n) =~= chunk_bytes(c)) by {
            assert forall|t: int| 0 <= t < n implies s.subrange(p, p + n)[t] == chunk_bytes(c)[t] by {
                assert(s.subrange(p, s.len() as int)[t] == all[t]);
            }
        }
        assert(s.subrange(p + n, s.len() as int) =~= all_chunk_bytes(rest)) by {
            assert forall|t: int| 0 <= t < s.len() - (p + n) implies s.subrange(
                p + n,
                s.len() as int,
            )[t] == all_chunk_bytes(rest)[t] by {
                assert(s.subrange(p, s.len() as int)[n + t] == all[n + t]);
            }
        }
        assert(all_ok(rest)) by {
            assert forall|k: int| 0 <= k < rest.len() implies chunk_ok(#[trigger] rest[k]) by {
                assert(rest[k] == cs[k + 1]);
            }
        }
        lemma_parse_one(s, p, c);
        lemma_parse_all(s, p + n, rest);
    }
}

/// Reading back generated bytes: whenever `b` parses, generating its model
/// and parsing again gives the same signature and the same chunks.
pub proof fn lemma_png_reparse(b: Seq<u8>)
    requires
        png_parse_spec(b) is Some,
    ensures
        chunks_fit(png_parse_spec(b)->Some_0.1),
        png_parse_spec(png_generate_spec(png_parse_spec(b)->Some_0.0, png_parse_spec(b)->Some_0.1))
            == png_parse_spec(b),
{
    let (sig, cs) = png_parse_spec(b)->Some_0;
    lemma_parsed_ok(b, 8);
    assert(chunks_fit(cs)) by {
        assert forall|k: int| 0 <= k < cs.len() implies match #[trigger] cs[k] {
            ChunkView::Idat(d, _) => d.len() <= u32::MAX,
            ChunkView::Ancillary(_, _, d, _) => d.len() <= u32::MAX,
            _ => true,
        } by {
            assert(chunk_ok(cs[k]));
        }
    }
    let g = png_generate_spec(sig, cs);
    assert(sig.len() == 8);
    assert(g.subrange(0, 8) =~= sig);
    assert(g.subrange(8, g.len() as int) =~= all_chunk_bytes(cs));
    lemma_parse_all(g, 8, cs);
}

} // verus!
