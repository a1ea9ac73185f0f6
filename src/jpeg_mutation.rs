//! The ten structural JPEG mutations: what each one does to a model, how its
//! random operands are drawn, and the log line that records it.

use crate::jpeg::{
    append_bytes, clone_segment, copy_bytes, make_segment, segment_kind, jpeg_generate, jpeg_generate_spec, jpeg_parse, jpeg_parse_spec, segment_bytes, JpegModel,
    JpegSegment, JpegView, SegmentKind, segments_view,
};
use crate::mutate::{
    apply_byte_edit, byte_edit_text, describe_byte_edit, draw_byte_edit, edit_fits, edit_region,
    ByteEdit,
};
use crate::rng::{random_below, random_byte, random_u16};
use crate::text::{decimal, push_decimal, text_with_number};
use rand::rngs::SmallRng;
use vstd::prelude::*;
use vstd::string::StringExecFns;

verus! {

/// Exclusive bound on the number of trailing bytes one mutation appends.
pub const MAX_TAIL: usize = 10000;

/// Inclusive bounds, in thousandths, of the share of non-header bytes that a
/// byte-flip mutation flips.
pub const MIN_FLIP_PERMILLE: u64 = 1;
pub const MAX_FLIP_PERMILLE: u64 = 19;

/// One JPEG mutation with its random operands.
pub enum JpegMutation {
    /// Keep only the first `keep` segments.
    Truncate { keep: usize },
    /// Remove the end-of-image marker.
    ClearEoi,
    /// Overwrite the second byte of the start-of-image marker.
    CorruptSoi { byte: u8 },
    /// Overwrite bytes 5 to 8 (height and width) of every frame header that
    /// has them with the four bytes drawn for its position.
    Dimensions { values: Vec<(u8, u8, u8, u8)> },
    /// Flip one bit at each listed non-header position of the generated
    /// bytes, then parse the result again.
    ByteFlip { permille: u64, flips: Vec<(usize, u8)> },
    /// Append bytes after the end-of-image marker.
    Trailing { tail: Vec<u8> },
    /// Overwrite the big-endian length field of one segment.
    Length { segment: usize, value: u16 },
    /// Exchange two segments.
    Swap { first: usize, second: usize },
    /// Apply a byte edit to the payload past the five header bytes of every
    /// segment of `kind` (Huffman or quantization tables).
    Tables { kind: SegmentKind, edits: Vec<ByteEdit> },
}

/// Position `p` of `s` is part of a marker: an `FF` followed by anything
/// but `00`, or the byte after such an `FF`.
pub open spec fn is_header_pos(s: Seq<u8>, p: int) -> bool {
    (p + 1 < s.len() && s[p] == 0xFF && s[p + 1] != 0x00) || (1 <= p < s.len() && s[p - 1]
        == 0xFF && s[p] != 0x00)
}

/// Position `p` may be flipped: it is not a marker byte and lies before the
/// last two bytes.
pub open spec fn is_flip_candidate(s: Seq<u8>, p: int) -> bool {
    0 <= p && p + 2 < s.len() && !is_header_pos(s, p)
}

/// Number of flips for a buffer of `len` bytes at a rate of `permille`.
pub open spec fn flip_count(len: nat, permille: nat) -> nat {
    (len * permille + 999) / 1000
}

/// `s` with each listed bit flipped, in order.
pub open spec fn apply_flips(s: Seq<u8>, flips: Seq<(usize, u8)>) -> Seq<u8>
    decreases flips.len(),
{
    if flips.len() == 0 {
        s
    } else {
        let prev = apply_flips(s, flips.drop_last());
        let (p, bit) = flips.last();
        prev.update(p as int, prev[p as int] ^ (1u8 << bit))
    }
}

/// Whether a segment's bytes get a byte edit under a table mutation of `kind`.
pub open spec fn table_eligible(seg: (SegmentKind, Seq<u8>), kind: SegmentKind) -> bool {
    seg.0 == kind && seg.1.len() >= 5
}

/// The last of the first `n` segments that is eligible, or -1.
pub open spec fn last_eligible(segs: Seq<(SegmentKind, Seq<u8>)>, kind: SegmentKind, n: int) -> int
    decreases n,
{
    if n <= 0 {
        -1
    } else if table_eligible(segs[n - 1], kind) {
        n - 1
    } else {
        last_eligible(segs, kind, n - 1)
    }
}

pub open spec fn patch_dimensions(seg: (SegmentKind, Seq<u8>), v: (u8, u8, u8, u8)) -> (
    SegmentKind,
    Seq<u8>,
) {
    if seg.0 == SegmentKind::Sof && seg.1.len() >= 9 {
        (seg.0, seg.1.update(5, v.0).update(6, v.1).update(7, v.2).update(8, v.3))
    } else {
        seg
    }
}

pub open spec fn patch_length(seg: (SegmentKind, Seq<u8>), value: u16) -> (SegmentKind, Seq<u8>) {
    if seg.1.len() >= 4 {
        (seg.0, seg.1.update(2, (value / 256) as u8).update(3, (value % 256) as u8))
    } else {
        seg
    }
}

pub open spec fn patch_table(seg: (SegmentKind, Seq<u8>), kind: SegmentKind, e: ByteEdit) -> (
    SegmentKind,
    Seq<u8>,
) {
    if table_eligible(seg, kind) {
        (seg.0, edit_region(seg.1, 5, e))
    } else {
        seg
    }
}

/// Whether `m` is a mutation that may be drawn for a model with segments.
pub open spec fn jpeg_mutation_fits(m: JpegMutation, v: JpegView) -> bool {
    let n = v.segments.len();
    match m {
        JpegMutation::Truncate { keep } => keep < n,
        JpegMutation::ClearEoi => true,
        JpegMutation::CorruptSoi { .. } => true,
        JpegMutation::Dimensions { values } => values@.len() == n,
        JpegMutation::ByteFlip { permille, flips } => {
            let s = jpeg_generate_spec(v);
            &&& MIN_FLIP_PERMILLE <= permille <= MAX_FLIP_PERMILLE
            &&& forall|k: int|
                0 <= k < flips@.len() ==> is_flip_candidate(s, #[trigger] flips@[k].0 as int)
                    && flips@[k].1 < 8
            &&& (exists|p: int| is_flip_candidate(s, p)) ==> flips@.len() == flip_count(
                s.len(),
                permille as nat,
            )
            &&& !(exists|p: int| is_flip_candidate(s, p)) ==> flips@.len() == 0
        },
        JpegMutation::Trailing { tail } => tail@.len() < MAX_TAIL,
        JpegMutation::Length { segment, .. } => segment < n,
        JpegMutation::Swap { first, second } => first < n && second < n && (first != second || n
            == 1),
        JpegMutation::Tables { kind, edits } => {
            &&& (kind == SegmentKind::Dht || kind == SegmentKind::Dqt)
            &&& edits@.len() == n
            &&& forall|k: int|
                0 <= k < n && table_eligible(v.segments[k], kind) ==> edit_fits(
                    #[trigger] edits@[k],
                    (v.segments[k].1.len() - 5) as nat,
                )
        },
    }
}

/// The model after mutation `m`.
pub open spec fn apply_jpeg_mutation_spec(v: JpegView, m: JpegMutation) -> JpegView {
    match m {
        JpegMutation::Truncate { keep } => JpegView { segments: v.segments.take(keep as int), ..v },
        JpegMutation::ClearEoi => JpegView { eoi: Seq::empty(), ..v },
        JpegMutation::CorruptSoi { byte } => if v.soi.len() >= 2 {
            JpegView { soi: v.soi.update(1, byte), ..v }
        } else {
            v
        },
        JpegMutation::Dimensions { values } => JpegView {
            segments: Seq::new(
                v.segments.len(),
                |k: int| patch_dimensions(v.segments[k], values@[k]),
            ),
            ..v
        },
        JpegMutation::ByteFlip { flips, .. } => jpeg_parse_spec(
            apply_flips(jpeg_generate_spec(v), flips@),
        ),
        JpegMutation::Trailing { tail } => JpegView { eoi: v.eoi + tail@, ..v },
        JpegMutation::Length { segment, value } => JpegView {
            segments: v.segments.update(
                segment as int,
                patch_length(v.segments[segment as int], value),
            ),
            ..v
        },
        JpegMutation::Swap { first, second } => JpegView {
            segments: v.segments.update(first as int, v.segments[second as int]).update(
                second as int,
                v.segments[first as int],
            ),
            ..v
        },
        JpegMutation::Tables { kind, edits } => JpegView {
            segments: Seq::new(
                v.segments.len(),
                |k: int| patch_table(v.segments[k], kind, edits@[k]),
            ),
            ..v
        },
    }
}

pub open spec fn kind_name(k: SegmentKind) -> Seq<char> {
    match k {
        SegmentKind::App => "APP"@,
        SegmentKind::Dqt => "DQT"@,
        SegmentKind::Sof => "SOF"@,
        SegmentKind::Dht => "DHT"@,
        SegmentKind::Sos => "SOS"@,
        SegmentKind::Dat => "DAT"@,
    }
}

/// The log line of mutation `m` on model `v`.
pub open spec fn jpeg_mutation_text(v: JpegView, m: JpegMutation) -> Seq<char> {
    match m {
        JpegMutation::Truncate { keep } => "truncated to the first "@ + decimal(keep as nat)
            + " segments"@,
        JpegMutation::ClearEoi => "removed EOI"@,
        JpegMutation::CorruptSoi { byte } => "corrupted SOI by inserting "@ + decimal(byte as nat)
            + " into the second index"@,
        JpegMutation::Dimensions { .. } => "overwriting the expected width/height"@,
        JpegMutation::ByteFlip { permille, .. } => "byteflipping "@ + decimal(permille as nat / 10)
            + "."@ + decimal(permille as nat % 10) + "0% of nonheader data"@,
        JpegMutation::Trailing { tail } => "adding "@ + decimal(tail@.len()) + " random bytes at the end of the file data"@,
        JpegMutation::Length { segment, value } => "overwriting the segment length of the "@
            + kind_name(v.segments[segment as int].0) + " segment to be "@ + decimal(value as nat),
        JpegMutation::Swap { first, second } => "swapping the two segments at positions "@
            + decimal(first as nat) + " and "@ + decimal(second as nat),
        JpegMutation::Tables { kind, edits } => {
            let last = last_eligible(v.segments, kind, v.segments.len() as int);
            if last < 0 {
                Seq::empty()
            } else if kind == SegmentKind::Dht {
                "mutating one of the dhts: "@ + byte_edit_text(edits@[last])
            } else {
                "mutating one of the dqts: "@ + byte_edit_text(edits@[last])
            }
        },
    }
}

} // verus!

verus! {

fn patched_dimensions(seg: &JpegSegment, v: (u8, u8, u8, u8)) -> (r: JpegSegment)
    ensures
        r@ == patch_dimensions(seg@, v),
{
    let kind = segment_kind(seg);
    let mut bytes = copy_bytes(segment_bytes(seg));
    if kind == SegmentKind::Sof && bytes.len() >= 9 {
        bytes.set(5, v.0);
        bytes.set(6, v.1);
        bytes.set(7, v.2);
        bytes.set(8, v.3);
    }
    make_segment(kind, bytes)
}

fn patched_length(seg: &JpegSegment, value: u16) -> (r: JpegSegment)
    ensures
        r@ == patch_length(seg@, value),
{
    let kind = segment_kind(seg);
    let mut bytes = copy_bytes(segment_bytes(seg));
    if bytes.len() >= 4 {
        bytes.set(2, (value / 256) as u8);
        bytes.set(3, (value % 256) as u8);
    }
    make_segment(kind, bytes)
}

fn patched_table(seg: &JpegSegment, kind: SegmentKind, e: ByteEdit) -> (r: JpegSegment)
    requires
        table_eligible(seg@, kind) ==> edit_fits(e, (seg@.1.len() - 5) as nat),
    ensures
        r@ == patch_table(seg@, kind, e),
{
    let k = segment_kind(seg);
    let mut bytes = copy_bytes(segment_bytes(seg));
    if k == kind && bytes.len() >= 5 {
        apply_byte_edit(&mut bytes, 5, e);
    }
    make_segment(k, bytes)
}

/// Flips one bit at each listed position, in order.
fn flip_bits(bytes: &mut Vec<u8>, flips: &Vec<(usize, u8)>)
    requires
        forall|k: int|
            0 <= k < flips@.len() ==> (#[trigger] flips@[k]).0 < old(bytes)@.len() && flips@[k].1
                < 8,
    ensures
        final(bytes)@ == apply_flips(old(bytes)@, flips@),
{
    let ghost start = bytes@;
    let mut k: usize = 0;
    while k < flips.len()
        invariant
            k <= flips@.len(),
            bytes@.len() == start.len(),
            bytes@ == apply_flips(start, flips@.subrange(0, k as int)),
            forall|j: int|
                0 <= j < flips@.len() ==> (#[trigger] flips@[j]).0 < start.len() && flips@[j].1
                    < 8,
        decreases flips.len() - k,
    {
        let (p, bit) = flips[k];
        let b = bytes[p] ^ (1u8 << bit);
        bytes.set(p, b);
        proof {
            assert(flips@.subrange(0, k + 1).drop_last() =~= flips@.subrange(0, k as int));
        }
        k = k + 1;
    }
    assert(flips@.subrange(0, k as int) =~= flips@);
}

/// Applies mutation `m` to `model`.
pub fn apply_jpeg_mutation(model: &mut JpegModel, m: &JpegMutation)
    requires
        jpeg_mutation_fits(*m, old(model)@),
    ensures
        final(model)@ == apply_jpeg_mutation_spec(old(model)@, *m),
{
    let n = model.segments.len();
    match m {
        JpegMutation::Truncate { keep } => {
            model.segments.truncate(*keep);
            assert(segments_view(model.segments@) =~= segments_view(old(model).segments@).take(
                *keep as int,
            ));
        },
        JpegMutation::ClearEoi => {
            model.eoi.clear();
        },
        JpegMutation::CorruptSoi { byte } => {
            if model.soi.len() >= 2 {
                model.soi.set(1, *byte);
            }
        },
        JpegMutation::Dimensions { values } => {
            let mut out: Vec<JpegSegment> = Vec::new();
            let mut k: usize = 0;
            while k < n
                invariant
                    n == model.segments@.len(),
                    values@.len() == n,
                    k <= n,
                    out@.len() == k,
                    forall|j: int|
                        0 <= j < k ==> (#[trigger] out@[j])@ == patch_dimensions(
                            model.segments@[j]@,
                            values@[j],
                        ),
                decreases n - k,
            {
                out.push(patched_dimensions(&model.segments[k], values[k]));
                k = k + 1;
            }
            model.segments = out;
            assert(segments_view(model.segments@) =~= Seq::new(
                n as nat,
                |k: int| patch_dimensions(segments_view(old(model).segments@)[k], values@[k]),
            ));
        },
        JpegMutation::ByteFlip { flips, .. } => {
            let mut bytes = jpeg_generate(model);
            assert forall|k: int| 0 <= k < flips@.len() implies (#[trigger] flips@[k]).0
                < bytes@.len() && flips@[k].1 < 8 by {
                assert(is_flip_candidate(bytes@, flips@[k].0 as int));
            }
            flip_bits(&mut bytes, flips);
            *model = jpeg_parse(bytes.as_slice());
        },
        JpegMutation::Trailing { tail } => {
            append_bytes(&mut model.eoi, tail);
        },
        JpegMutation::Length { segment, value } => {
            let seg = patched_length(&model.segments[*segment], *value);
            model.segments.set(*segment, seg);
            assert(segments_view(model.segments@) =~= segments_view(old(model).segments@).update(
                *segment as int,
                patch_length(segments_view(old(model).segments@)[*segment as int], *value),
            ));
        },
        JpegMutation::Swap { first, second } => {
            let a = clone_segment(&model.segments[*first]);
            let b = clone_segment(&model.segments[*second]);
            model.segments.set(*first, b);
            model.segments.set(*second, a);
            let ghost old_view = segments_view(old(model).segments@);
            assert(segments_view(model.segments@) =~= old_view.update(
                *first as int,
                old_view[*second as int],
            ).update(*second as int, old_view[*first as int]));
        },
        JpegMutation::Tables { kind, edits } => {
            let mut out: Vec<JpegSegment> = Vec::new();
            let mut k: usize = 0;
            while k < n
                invariant
                    n == model.segments@.len(),
                    edits@.len() == n,
                    k <= n,
                    out@.len() == k,
                    forall|j: int|
                        0 <= j < n && table_eligible(model.segments@[j]@, *kind) ==> edit_fits(
                            #[trigger] edits@[j],
                            (model.segments@[j]@.1.len() - 5) as nat,
                        ),
                    forall|j: int|
                        0 <= j < k ==> (#[trigger] out@[j])@ == patch_table(
                            model.segments@[j]@,
                            *kind,
                            edits@[j],
                        ),
                decreases n - k,
            {
                out.push(patched_table(&model.segments[k], *kind, edits[k]));
                k = k + 1;
            }
            model.segments = out;
            assert(segments_view(model.segments@) =~= Seq::new(
                n as nat,
                |k: int| patch_table(segments_view(old(model).segments@)[k], *kind, edits@[k]),
            ));
        },
    }
}

} // verus!

verus! {

/// The positions of `bytes` that a byte flip may touch. Drawing from this
/// list, rather than redrawing until a position misses a set of marker
/// positions, picks the same positions with the same odds and always ends,
/// also when every position is a marker byte.
fn flip_candidates(bytes: &Vec<u8>) -> (r: Vec<usize>)
    ensures
        forall|k: int| 0 <= k < r@.len() ==> is_flip_candidate(bytes@, #[trigger] r@[k] as int),
        (exists|p: int| is_flip_candidate(bytes@, p)) <==> r@.len() > 0,
{
    let len = bytes.len();
    let mut cands: Vec<usize> = Vec::new();
    let mut p: usize = 0;
    while p < len
        invariant
            p <= len == bytes@.len(),
            forall|k: int|
                0 <= k < cands@.len() ==> is_flip_candidate(bytes@, #[trigger] cands@[k] as int),
            (exists|q: int| 0 <= q < p && is_flip_candidate(bytes@, q)) ==> cands@.len() > 0,
        decreases len - p,
    {
        let header = (p + 1 < len && bytes[p] == 0xFF && bytes[p + 1] != 0x00) || (p >= 1
            && bytes[p - 1] == 0xFF && bytes[p] != 0x00);
        if len - p > 2 && !header {
            cands.push(p);
            assert(is_flip_candidate(bytes@, cands@[cands@.len() - 1] as int));
        }
        p = p + 1;
    }
    proof {
        if exists|q: int| is_flip_candidate(bytes@, q) {
            let q = choose|q: int| is_flip_candidate(bytes@, q);
            assert(0 <= q < p);
        }
        if cands@.len() > 0 {
            assert(is_flip_candidate(bytes@, cands@[0] as int));
        }
    }
    cands
}

/// `ceil(len * permille / 1000)` without overflow.
fn flips_for(len: usize, permille: u64) -> (r: usize)
    requires
        permille <= MAX_FLIP_PERMILLE,
    ensures
        r == flip_count(len as nat, permille as nat),
{
    let q = len / 1000;
    let rem = len % 1000;
    let pm = permille as usize;
    assert(q * pm <= q * 19) by (nonlinear_arith)
        requires
            pm <= 19,
    ;
    assert(q * 19 < usize::MAX) by (nonlinear_arith)
        requires
            q == len / 1000,
    ;
    assert(rem * pm <= 999 * 19) by (nonlinear_arith)
        requires
            pm <= 19,
            rem < 1000,
    ;
    let r = q * pm + (rem * pm + 999) / 1000;
    assert(r == (len * pm + 999) / 1000) by (nonlinear_arith)
        requires
            q == len / 1000,
            rem == len % 1000,
            r == q * pm + (rem * pm + 999) / 1000,
    ;
    r
}

fn draw_byte_flip(rng: &mut SmallRng, model: &JpegModel) -> (r: JpegMutation)
    ensures
        r is ByteFlip,
        jpeg_mutation_fits(r, model@),
{
    let bytes = jpeg_generate(model);
    let permille = MIN_FLIP_PERMILLE + random_below(rng, 19) as u64;
    let cands = flip_candidates(&bytes);
    let mut flips: Vec<(usize, u8)> = Vec::new();
    if cands.len() > 0 {
        let count = flips_for(bytes.len(), permille);
        let mut k: usize = 0;
        while k < count
            invariant
                k <= count,
                flips@.len() == k,
                cands@.len() > 0,
                forall|j: int|
                    0 <= j < cands@.len() ==> is_flip_candidate(bytes@, #[trigger] cands@[j] as int),
                forall|j: int|
                    0 <= j < flips@.len() ==> is_flip_candidate(
                        bytes@,
                        #[trigger] flips@[j].0 as int,
                    ) && flips@[j].1 < 8,
            decreases count - k,
        {
            let p = cands[random_below(rng, cands.len())];
            let bit = random_below(rng, 8) as u8;
            flips.push((p, bit));
            assert(is_flip_candidate(bytes@, flips@[k as int].0 as int));
            k = k + 1;
        }
    }
    JpegMutation::ByteFlip { permille, flips }
}

fn draw_dimensions(rng: &mut SmallRng, model: &JpegModel) -> (r: Vec<(u8, u8, u8, u8)>)
    ensures
        r@.len() == model.segments@.len(),
{
    let n = model.segments.len();
    let mut values: Vec<(u8, u8, u8, u8)> = Vec::new();
    let mut k: usize = 0;
    while k < n
        invariant
            k <= n == model.segments@.len(),
            values@.len() == k,
        decreases n - k,
    {
        let seg = &model.segments[k];
        if segment_kind(seg) == SegmentKind::Sof && segment_bytes(seg).len() >= 9 {
            let a = random_byte(rng);
            let b = random_byte(rng);
            let c = random_byte(rng);
            let d = random_byte(rng);
            values.push((a, b, c, d));
        } else {
            values.push((0u8, 0u8, 0u8, 0u8));
        }
        k = k + 1;
    }
    values
}

fn draw_table_edits(rng: &mut SmallRng, model: &JpegModel, kind: SegmentKind) -> (r: Vec<ByteEdit>)
    ensures
        r@.len() == model.segments@.len(),
        forall|k: int|
            0 <= k < r@.len() && table_eligible(model.segments@[k]@, kind) ==> edit_fits(
                #[trigger] r@[k],
                (model.segments@[k]@.1.len() - 5) as nat,
            ),
{
    let n = model.segments.len();
    let mut edits: Vec<ByteEdit> = Vec::new();
    let mut k: usize = 0;
    while k < n
        invariant
            k <= n == model.segments@.len(),
            edits@.len() == k,
            forall|j: int|
                0 <= j < k && table_eligible(model.segments@[j]@, kind) ==> edit_fits(
                    #[trigger] edits@[j],
                    (model.segments@[j]@.1.len() - 5) as nat,
                ),
        decreases n - k,
    {
        let seg = &model.segments[k];
        let len = segment_bytes(seg).len();
        if segment_kind(seg) == kind && len >= 5 {
            edits.push(draw_byte_edit(rng, len - 5));
        } else {
            edits.push(ByteEdit::Untouched);
        }
        k = k + 1;
    }
    edits
}

/// Draws one of the ten mutations, uniformly, with its random operands.
pub fn draw_jpeg_mutation(rng: &mut SmallRng, model: &JpegModel) -> (r: JpegMutation)
    requires
        model.segments@.len() > 0,
    ensures
        jpeg_mutation_fits(r, model@),
{
    let n = model.segments.len();
    let choice = random_below(rng, 10);
    if choice == 0 {
        JpegMutation::Truncate { keep: random_below(rng, n) }
    } else if choice == 1 {
        JpegMutation::ClearEoi
    } else if choice == 2 {
        JpegMutation::CorruptSoi { byte: random_byte(rng) }
    } else if choice == 3 {
        JpegMutation::Dimensions { values: draw_dimensions(rng, model) }
    } else if choice == 4 {
        draw_byte_flip(rng, model)
    } else if choice == 5 {
        let tail_len = random_below(rng, MAX_TAIL);
        let mut tail: Vec<u8> = Vec::new();
        let mut k: usize = 0;
        while k < tail_len
            invariant
                k <= tail_len < MAX_TAIL,
                tail@.len() == k,
            decreases tail_len - k,
        {
            tail.push(random_byte(rng));
            k = k + 1;
        }
        JpegMutation::Trailing { tail }
    } else if choice == 6 {
        let segment = random_below(rng, n);
        let value = random_u16(rng);
        JpegMutation::Length { segment, value }
    } else if choice == 7 {
        if n == 1 {
            JpegMutation::Swap { first: 0, second: 0 }
        } else {
            let first = random_below(rng, n);
            let s = random_below(rng, n - 1);
            let second = if s >= first {
                s + 1
            } else {
                s
            };
            JpegMutation::Swap { first, second }
        }
    } else if choice == 8 {
        JpegMutation::Tables { kind: SegmentKind::Dht, edits: draw_table_edits(rng, model, SegmentKind::Dht) }
    } else {
        JpegMutation::Tables { kind: SegmentKind::Dqt, edits: draw_table_edits(rng, model, SegmentKind::Dqt) }
    }
}

fn kind_label(k: SegmentKind) -> (r: &'static str)
    ensures
        r@ == kind_name(k),
{
    match k {
        SegmentKind::App => "APP",
        SegmentKind::Dqt => "DQT",
        SegmentKind::Sof => "SOF",
        SegmentKind::Dht => "DHT",
        SegmentKind::Sos => "SOS",
        SegmentKind::Dat => "DAT",
    }
}

/// The log line of mutation `m` on `model`.
pub fn describe_jpeg_mutation(model: &JpegModel, m: &JpegMutation) -> (r: String)
    requires
        jpeg_mutation_fits(*m, model@),
    ensures
        r@ == jpeg_mutation_text(model@, *m),
{
    match m {
        JpegMutation::Truncate { keep } => {
            let mut s = text_with_number("truncated to the first ", *keep as u64);
            s.append(" segments");
            s
        },
        JpegMutation::ClearEoi => String::from_str("removed EOI"),
        JpegMutation::CorruptSoi { byte } => {
            let mut s = text_with_number("corrupted SOI by inserting ", *byte as u64);
            s.append(" into the second index");
            s
        },
        JpegMutation::Dimensions { .. } => String::from_str("overwriting the expected width/height"),
        JpegMutation::ByteFlip { permille, .. } => {
            let mut s = text_with_number("byteflipping ", *permille / 10);
            s.append(".");
            push_decimal(&mut s, *permille % 10);
            s.append("0% of nonheader data");
            s
        },
        JpegMutation::Trailing { tail } => {
            let mut s = text_with_number("adding ", tail.len() as u64);
            s.append(" random bytes at the end of the file data");
            s
        },
        JpegMutation::Length { segment, value } => {
            let mut s = String::from_str("overwriting the segment length of the ");
            s.append(kind_label(segment_kind(&model.segments[*segment])));
            s.append(" segment to be ");
            push_decimal(&mut s, *value as u64);
            s
        },
        JpegMutation::Swap { first, second } => {
            let mut s = text_with_number("swapping the two segments at positions ", *first as u64);
            s.append(" and ");
            push_decimal(&mut s, *second as u64);
            s
        },
        JpegMutation::Tables { kind, edits } => {
            let n = model.segments.len();
            let mut last: Option<usize> = None;
            let mut k: usize = 0;
            while k < n
                invariant
                    k <= n == model.segments@.len(),
                    match last {
                        Some(j) => j < k && j as int == last_eligible(
                            model@.segments,
                            *kind,
                            k as int,
                        ),
                        None => last_eligible(model@.segments, *kind, k as int) == -1,
                    },
                decreases n - k,
            {
                let seg = &model.segments[k];
                if segment_kind(seg) == *kind && segment_bytes(seg).len() >= 5 {
                    last = Some(k);
                }
                k = k + 1;
            }
            match last {
                None => String::new(),
                Some(j) => {
                    let mut s = if *kind == SegmentKind::Dht {
                        String::from_str("mutating one of the dhts: ")
                    } else {
                        String::from_str("mutating one of the dqts: ")
                    };
                    let d = describe_byte_edit(edits[j]);
                    s.append(d.as_str());
                    s
                },
            }
        },
    }
}

/// Applies one random mutation to a model with segments and describes it;
/// a model without segments is left as it is, with an empty description.
pub fn jpeg_mutate(rng: &mut SmallRng, model: &mut JpegModel) -> (r: String)
    ensures
        old(model)@.segments.len() == 0 ==> final(model)@ == old(model)@ && r@ == Seq::<
            char,
        >::empty(),
        old(model)@.segments.len() == 0 ==> *final(rng) == *old(rng),
        old(model)@.segments.len() > 0 ==> exists|m: JpegMutation|
            jpeg_mutation_fits(m, old(model)@) && final(model)@ == apply_jpeg_mutation_spec(
                old(model)@,
                m,
            ) && r@ == jpeg_mutation_text(old(model)@, m),
{
    if model.segments.len() == 0 {
        return String::new();
    }
    let m = draw_jpeg_mutation(rng, model);
    let desc = describe_jpeg_mutation(model, &m);
    apply_jpeg_mutation(model, &m);
    desc
}

} // verus!
