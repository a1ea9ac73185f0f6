//! The JPEG round trip: a well-formed model survives generation followed by
//! parsing unchanged.

use crate::jpeg::{
    empty_jpeg, jpeg_generate_spec, jpeg_parse_spec, marker_kind, scan_data, scan_segments,
    segments_bytes, JpegView, SegmentKind,
};
use vstd::prelude::*;

verus! {

/// A segment that reads back as it is: an `FF` marker of the segment's own
/// kind, and a length field that covers the segment exactly.
pub open spec fn framed_segment(seg: (SegmentKind, Seq<u8>)) -> bool {
    let b = seg.1;
    &&& b.len() >= 4
    &&& b[0] == 0xFF
    &&& marker_kind(b[1]) == Some(seg.0)
    &&& (b[2] as int) * 256 + (b[3] as int) + 2 == b.len()
}

/// A framed segment before any start of scan.
pub open spec fn header_segment(seg: (SegmentKind, Seq<u8>)) -> bool {
    framed_segment(seg) && seg.0 != SegmentKind::Sos
}

/// Entropy-coded data that reads back as it is: no `FF 00` or `FF D9` pair
/// inside, and no `FF` at the end.
pub open spec fn plain_scan_data(d: Seq<u8>) -> bool {
    &&& forall|i: int|
        0 <= i < d.len() - 1 ==> #[trigger] d[i] == 0xFF ==> d[i + 1] != 0x00 && d[i + 1] != 0xD9
    &&& d.len() > 0 ==> d.last() != 0xFF
}

pub open spec fn all_header_segments(segs: Seq<(SegmentKind, Seq<u8>)>) -> bool {
    forall|k: int| 0 <= k < segs.len() ==> header_segment(#[trigger] segs[k])
}

/// A model the parser can produce and reads back unchanged: the two
/// markers, header segments, and optionally a start of scan followed by its
/// plain entropy-coded data.
pub open spec fn well_formed_jpeg(v: JpegView) -> bool {
    let segs = v.segments;
    let n = segs.len();
    &&& v.soi == seq![0xFFu8, 0xD8u8]
    &&& v.eoi == seq![0xFFu8, 0xD9u8]
    &&& (all_header_segments(segs) || (n >= 2 && all_header_segments(segs.subrange(0, n - 2))
        && segs[n - 2].0 == SegmentKind::Sos && framed_segment(segs[n - 2]) && segs[n - 1].0
        == SegmentKind::Dat && plain_scan_data(segs[n - 1].1)))
}

proof fn lemma_bytes_front(x: (SegmentKind, Seq<u8>), rest: Seq<(SegmentKind, Seq<u8>)>)
    ensures
        segments_bytes(seq![x] + rest) == x.1 + segments_bytes(rest),
    decreases rest.len(),
{
    let l = seq![x] + rest;
    if rest.len() == 0 {
        assert(l.drop_last() =~= Seq::<(SegmentKind, Seq<u8>)>::empty());
        assert(segments_bytes(l) =~= x.1 + segments_bytes(rest));
    } else {
        assert(l.drop_last() =~= seq![x] + rest.drop_last());
        lemma_bytes_front(x, rest.drop_last());
        assert(l.last() == rest.last());
        assert(segments_bytes(l) == segments_bytes(l.drop_last()) + l.last().1);
        assert(segments_bytes(rest) == segments_bytes(rest.drop_last()) + rest.last().1);
        assert(segments_bytes(l) =~= x.1 + segments_bytes(rest));
    }
}

/// Scanning over header segments laid out from `p` yields them in order.
proof fn lemma_scan_headers(s: Seq<u8>, p: int, body: Seq<(SegmentKind, Seq<u8>)>)
    requires
        0 <= p,
        p + segments_bytes(body).len() + 2 <= s.len(),
        s.subrange(p, p + segments_bytes(body).len()) == segments_bytes(body),
        all_header_segments(body),
    ensures
        scan_segments(s, p) == body + scan_segments(s, p + segments_bytes(body).len()),
    decreases body.len(),
{
    if body.len() == 0 {
        assert(segments_bytes(body).len() == 0);
        assert(body + scan_segments(s, p) =~= scan_segments(s, p));
    } else {
        let x = body[0];
        let rest = body.subrange(1, body.len() as int);
        assert(body =~= seq![x] + rest);
        lemma_bytes_front(x, rest);
        assert(header_segment(body[0]));
        let n = x.1.len() as int;
        let total = segments_bytes(body).len() as int;
        assert(s.subrange(p, p + n) =~= x.1) by {
            assert forall|t: int| 0 <= t < n implies s.subrange(p, p + n)[t] == x.1[t] by {
                assert(s.subrange(p, p + total)[t] == segments_bytes(body)[t]);
            }
        }
        assert(s[p] == x.1[0] && s[p + 1] == x.1[1] && s[p + 2] == x.1[2] && s[p + 3] == x.1[3])
            by {
            assert(s.subrange(p, p + n)[0] == s[p]);
            assert(s.subrange(p, p + n)[1] == s[p + 1]);
            assert(s.subrange(p, p + n)[2] == s[p + 2]);
            assert(s.subrange(p, p + n)[3] == s[p + 3]);
        }
        assert(scan_segments(s, p) == seq![(x.0, s.subrange(p, p + n))] + scan_segments(s, p + n));
        assert(s.subrange(p + n, p + total) =~= segments_bytes(rest)) by {
            assert forall|t: int| 0 <= t < total - n implies s.subrange(p + n, p + total)[t]
                == segments_bytes(rest)[t] by {
                assert(s.subrange(p, p + total)[n + t] == segments_bytes(body)[n + t]);
            }
        }
        assert(all_header_segments(rest)) by {
            assert forall|k: int| 0 <= k < rest.len() implies header_segment(#[trigger] rest[k]) by {
                assert(rest[k] == body[k + 1]);
            }
        }
        lemma_scan_headers(s, p + n, rest);
        assert(scan_segments(s, p) =~= body + scan_segments(s, p + total));
    }
}

/// Plain data followed by the end-of-image marker reads back as it is.
proof fn lemma_scan_plain_data(s: Seq<u8>, r: int, d: Seq<u8>)
    requires
        0 <= r,
        r + d.len() + 2 == s.len(),
        s.subrange(r, r + d.len()) == d,
        s[s.len() - 2] == 0xFF,
        s[s.len() - 1] == 0xD9,
        plain_scan_data(d),
    ensures
        scan_data(s, r) == d,
    decreases d.len(),
{
    if d.len() == 0 {
        assert(scan_data(s, r) == Seq::<u8>::empty());
    } else {
        let rest = d.subrange(1, d.len() as int);
        assert(s[r] == d[0]) by {
            assert(s.subrange(r, r + d.len())[0] == s[r]);
        }
        if d.len() >= 2 {
            assert(s[r + 1] == d[1]) by {
                assert(s.subrange(r, r + d.len())[1] == s[r + 1]);
            }
        }
        assert(s.subrange(r + 1, r + 1 + rest.len()) =~= rest) by {
            assert forall|t: int| 0 <= t < rest.len() implies s.subrange(
                r + 1,
                r + 1 + rest.len(),
            )[t] == rest[t] by {
                assert(s.subrange(r, r + d.len())[t + 1] == d[t + 1]);
            }
        }
        assert(plain_scan_data(rest)) by {
            assert forall|i: int| 0 <= i < rest.len() - 1 && #[trigger] rest[i] == 0xFF implies rest[i
                + 1] != 0x00 && rest[i + 1] != 0xD9 by {
                assert(rest[i] == d[i + 1] && rest[i + 1] == d[i + 2]);
            }
            if rest.len() > 0 {
                assert(rest.last() == d.last());
            }
        }
        lemma_scan_plain_data(s, r + 1, rest);
        if d[0] == 0xFF {
            if d.len() == 1 {
                assert(d.last() == 0xFF);
            } else {
                assert(d[0] == 0xFF ==> d[1] != 0x00 && d[1] != 0xD9);
            }
        }
        assert(scan_data(s, r) == seq![d[0]] + scan_data(s, r + 1));
        assert(d =~= seq![d[0]] + rest);
    }
}

/// A well-formed model generates bytes that parse back to the same model,
/// so generating again gives the same bytes.
pub proof fn lemma_jpeg_round_trip(v: JpegView)
    requires
        well_formed_jpeg(v),
    ensures
        jpeg_parse_spec(jpeg_generate_spec(v)) == v,
        jpeg_generate_spec(jpeg_parse_spec(jpeg_generate_spec(v))) == jpeg_generate_spec(v),
{
    let segs = v.segments;
    let n = segs.len() as int;
    let g = jpeg_generate_spec(v);
    let all = segments_bytes(segs);
    assert(g =~= seq![0xFFu8, 0xD8u8] + all + seq![0xFFu8, 0xD9u8]);
    assert(g[0] == 0xFF && g[1] == 0xD8);
    assert(g[g.len() - 2] == 0xFF && g[g.len() - 1] == 0xD9);
    if all_header_segments(segs) {
        assert(g.subrange(2, 2 + all.len() as int) =~= all);
        lemma_scan_headers(g, 2, segs);
        assert(scan_segments(g, 2 + all.len() as int) == Seq::<(SegmentKind, Seq<u8>)>::empty());
        assert(segs + Seq::<(SegmentKind, Seq<u8>)>::empty() =~= segs);
    } else {
        let body = segs.subrange(0, n - 2);
        let sos = segs[n - 2];
        let dat = segs[n - 1];
        assert(segs.drop_last() =~= body.push(sos));
        assert(body.push(sos).drop_last() =~= body);
        let hb = segments_bytes(body);
        assert(segs.last() == dat);
        assert(body.push(sos).last() == sos);
        assert(all == segments_bytes(body.push(sos)) + dat.1);
        assert(segments_bytes(body.push(sos)) == hb + sos.1);
        assert(all =~= hb + sos.1 + dat.1);
        let q: int = 2 + hb.len() as int;
        let m = sos.1.len() as int;
        assert(g.subrange(2, q) =~= hb);
        lemma_scan_headers(g, 2, body);
        assert(g.subrange(q, q + m) =~= sos.1);
        assert(g[q] == sos.1[0] && g[q + 1] == sos.1[1] && g[q + 2] == sos.1[2] && g[q + 3]
            == sos.1[3]);
        assert(g.subrange(q + m, q + m + dat.1.len()) =~= dat.1);
        lemma_scan_plain_data(g, q + m, dat.1);
        assert(scan_segments(g, q) == seq![(SegmentKind::Sos, g.subrange(q, q + m)), (SegmentKind::Dat, scan_data(g, q + m))]);
        assert(scan_segments(g, 2) =~= segs);
    }
    assert(jpeg_parse_spec(g) == v);
}

/// Reading back generated bytes: for every input whose model is well formed
/// or empty, generating and parsing again gives the same model.
pub proof fn lemma_jpeg_reparse(b: Seq<u8>)
    requires
        well_formed_jpeg(jpeg_parse_spec(b)) || jpeg_parse_spec(b) == empty_jpeg(),
    ensures
        jpeg_parse_spec(jpeg_generate_spec(jpeg_parse_spec(b))) == jpeg_parse_spec(b),
{
    let v = jpeg_parse_spec(b);
    if well_formed_jpeg(v) {
        lemma_jpeg_round_trip(v);
    } else {
        assert(segments_bytes(v.segments) == Seq::<u8>::empty());
        assert(jpeg_generate_spec(v) =~= Seq::<u8>::empty());
    }
}

} // verus!
