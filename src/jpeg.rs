//! The JPEG format: a marker-level model of a JPEG file with a tolerant
//! parser, a byte-exact generator and ten structural mutations.

use crate::format::{CorpusError, CorpusFile, FileFormat};
use crate::jpeg_corpus::{jpeg_corpus, jpeg_corpus_holds};
use crate::jpeg_mutation::{
    apply_jpeg_mutation_spec, jpeg_mutate, jpeg_mutation_fits, jpeg_mutation_text, JpegMutation,
};
use rand::rngs::SmallRng;
use vstd::prelude::*;

verus! {

pub struct Jpeg;

/// The kind of a segment, as told by its marker byte.
#[derive(Clone, Copy, Debug, PartialEq, Eq, Structural)]
pub enum SegmentKind {
    App,
    Dqt,
    Sof,
    Dht,
    Sos,
    Dat,
}

/// A segment with its raw bytes, marker and length field included; `Dat`
/// holds the entropy-coded data that follows a start of scan.
pub enum JpegSegment {
    App(Vec<u8>),
    Dqt(Vec<u8>),
    Sof(Vec<u8>),
    Dht(Vec<u8>),
    Sos(Vec<u8>),
    Dat(Vec<u8>),
}

impl View for JpegSegment {
    type V = (SegmentKind, Seq<u8>);

    open spec fn view(&self) -> (SegmentKind, Seq<u8>) {
        match self {
            JpegSegment::App(d) => (SegmentKind::App, d@),
            JpegSegment::Dqt(d) => (SegmentKind::Dqt, d@),
            JpegSegment::Sof(d) => (SegmentKind::Sof, d@),
            JpegSegment::Dht(d) => (SegmentKind::Dht, d@),
            JpegSegment::Sos(d) => (SegmentKind::Sos, d@),
            JpegSegment::Dat(d) => (SegmentKind::Dat, d@),
        }
    }
}

pub struct JpegModel {
    pub soi: Vec<u8>,
    pub segments: Vec<JpegSegment>,
    pub eoi: Vec<u8>,
}

/// The mathematical content of a `JpegModel`.
pub struct JpegView {
    pub soi: Seq<u8>,
    pub segments: Seq<(SegmentKind, Seq<u8>)>,
    pub eoi: Seq<u8>,
}

pub open spec fn segments_view(v: Seq<JpegSegment>) -> Seq<(SegmentKind, Seq<u8>)> {
    v.map_values(|s: JpegSegment| s@)
}

impl View for JpegModel {
    type V = JpegView;

    open spec fn view(&self) -> JpegView {
        JpegView { soi: self.soi@, segments: segments_view(self.segments@), eoi: self.eoi@ }
    }
}

/// The model of input that does not start with a start-of-image marker.
pub open spec fn empty_jpeg() -> JpegView {
    JpegView { soi: Seq::empty(), segments: Seq::empty(), eoi: Seq::empty() }
}

/// The segment kind of a marker byte that carries a length field, if it is
/// one of the kinds the model keeps.
pub open spec fn marker_kind(marker: u8) -> Option<SegmentKind> {
    if 0xE0 <= marker <= 0xEF {
        Some(SegmentKind::App)
    } else if marker == 0xDB {
        Some(SegmentKind::Dqt)
    } else if marker == 0xC0 || marker == 0xC2 {
        Some(SegmentKind::Sof)
    } else if marker == 0xC4 {
        Some(SegmentKind::Dht)
    } else if marker == 0xDA {
        Some(SegmentKind::Sos)
    } else {
        None
    }
}

/// A marker that stands alone, with no length field after it.
pub open spec fn is_standalone_marker(marker: u8) -> bool {
    (0xD0 <= marker <= 0xD7) || marker == 0x01
}

/// The entropy-coded data from `j` up to the end-of-image marker, with each
/// stuffed `FF 00` pair read as a single `FF`.
pub open spec fn scan_data(s: Seq<u8>, j: int) -> Seq<u8>
    decreases s.len() - j,
{
    if 0 <= j && j + 1 < s.len() {
        if s[j] == 0xFF && s[j + 1] == 0xD9 {
            Seq::empty()
        } else if s[j] == 0xFF && s[j + 1] == 0x00 {
            seq![0xFFu8] + scan_data(s, j + 2)
        } else {
            seq![s[j]] + scan_data(s, j + 1)
        }
    } else {
        Seq::empty()
    }
}

/// The segments found from position `i` on.
pub open spec fn scan_segments(s: Seq<u8>, i: int) -> Seq<(SegmentKind, Seq<u8>)>
    decreases s.len() - i,
{
    if 0 <= i && i + 3 < s.len() {
        if s[i] != 0xFF {
            scan_segments(s, i + 1)
        } else if s[i + 1] == 0xFF {
            scan_segments(s, i + 1)
        } else if s[i + 1] == 0xD9 {
            Seq::empty()
        } else if is_standalone_marker(s[i + 1]) {
            scan_segments(s, i + 2)
        } else {
            let end = i + 2 + (s[i + 2] as int) * 256 + (s[i + 3] as int);
            if end > s.len() {
                Seq::empty()
            } else {
                match marker_kind(s[i + 1]) {
                    None => scan_segments(s, i + 1),
                    Some(SegmentKind::Sos) => seq![
                        (SegmentKind::Sos, s.subrange(i, end)),
                        (SegmentKind::Dat, scan_data(s, end)),
                    ],
                    Some(k) => seq![(k, s.subrange(i, end))] + scan_segments(s, end),
                }
            }
        }
    } else {
        Seq::empty()
    }
}

/// What `parse` makes of `s`.
pub open spec fn jpeg_parse_spec(s: Seq<u8>) -> JpegView {
    if s.len() < 2 || s[0] != 0xFF || s[1] != 0xD8 {
        empty_jpeg()
    } else {
        JpegView {
            soi: seq![0xFFu8, 0xD8u8],
            segments: scan_segments(s, 2),
            eoi: seq![0xFFu8, 0xD9u8],
        }
    }
}

/// The raw bytes of a list of segments, one after the other.
pub open spec fn segments_bytes(segs: Seq<(SegmentKind, Seq<u8>)>) -> Seq<u8>
    decreases segs.len(),
{
    if segs.len() == 0 {
        Seq::empty()
    } else {
        segments_bytes(segs.drop_last()) + segs.last().1
    }
}

/// What `generate` makes of a model.
pub open spec fn jpeg_generate_spec(m: JpegView) -> Seq<u8> {
    m.soi + segments_bytes(m.segments) + m.eoi
}

pub fn make_segment(kind: SegmentKind, data: Vec<u8>) -> (r: JpegSegment)
    ensures
        r@ == (kind, data@),
{
    match kind {
        SegmentKind::App => JpegSegment::App(data),
        SegmentKind::Dqt => JpegSegment::Dqt(data),
        SegmentKind::Sof => JpegSegment::Sof(data),
        SegmentKind::Dht => JpegSegment::Dht(data),
        SegmentKind::Sos => JpegSegment::Sos(data),
        SegmentKind::Dat => JpegSegment::Dat(data),
    }
}

fn classify_marker(marker: u8) -> (r: Option<SegmentKind>)
    ensures
        r == marker_kind(marker),
{
    if 0xE0 <= marker && marker <= 0xEF {
        Some(SegmentKind::App)
    } else if marker == 0xDB {
        Some(SegmentKind::Dqt)
    } else if marker == 0xC0 || marker == 0xC2 {
        Some(SegmentKind::Sof)
    } else if marker == 0xC4 {
        Some(SegmentKind::Dht)
    } else if marker == 0xDA {
        Some(SegmentKind::Sos)
    } else {
        None
    }
}

fn copy_range(s: &[u8], from: usize, to: usize) -> (r: Vec<u8>)
    requires
        from <= to <= s@.len(),
    ensures
        r@ == s@.subrange(from as int, to as int),
{
    vstd::slice::slice_to_vec(vstd::slice::slice_subrange(s, from, to))
}

/// Collects the entropy-coded data that starts at `start`.
fn read_scan_data(input: &[u8], start: usize) -> (r: Vec<u8>)
    ensures
        r@ == scan_data(input@, start as int),
{
    let len = input.len();
    let mut data: Vec<u8> = Vec::new();
    let mut j: usize = start;
    while j < len && len - j > 1 && !(input[j] == 0xFF && input[j + 1] == 0xD9)
        invariant
            start <= j,
            len == input@.len(),
            data@ + scan_data(input@, j as int) == scan_data(input@, start as int),
        decreases len - j,
    {
        if input[j] == 0xFF && input[j + 1] == 0x00 {
            data.push(0xFF);
            proof {
                assert(data@ + scan_data(input@, j + 2) =~= scan_data(input@, start as int));
            }
            j = j + 2;
        } else {
            let b = input[j];
            data.push(b);
            proof {
                assert(data@ + scan_data(input@, j + 1) =~= scan_data(input@, start as int));
            }
            j = j + 1;
        }
    }
    assert(data@ =~= data@ + scan_data(input@, j as int));
    data
}

/// Parses bytes into a JPEG model. Input without a leading `FF D8` yields the
/// empty model; otherwise the segments are collected up to the end-of-image
/// marker, a truncated segment, or the data that follows a start of scan.
pub fn jpeg_parse(input: &[u8]) -> (r: JpegModel)
    ensures
        r@ == jpeg_parse_spec(input@),
{
    let len = input.len();
    if len < 2 || input[0] != 0xFF || input[1] != 0xD8 {
        let r = JpegModel { soi: Vec::new(), segments: Vec::new(), eoi: Vec::new() };
        assert(r@.segments =~= Seq::empty());
        return r;
    }
    let mut segments: Vec<JpegSegment> = Vec::new();
    let mut i: usize = 2;
    let mut done = false;
    while !done && i < len && len - i > 3
        invariant
            len == input@.len(),
            2 <= i,
            done ==> segments_view(segments@) == scan_segments(input@, 2),
            !done ==> segments_view(segments@) + scan_segments(input@, i as int) == scan_segments(
                input@,
                2,
            ),
        decreases (len - i) as int + if done { 0int } else { 1int },
    {
        let ghost s = input@;
        let ghost before = segments_view(segments@);
        if input[i] != 0xFF {
            i = i + 1;
        } else {
            let marker = input[i + 1];
            if marker == 0xFF {
                i = i + 1;
            } else if marker == 0xD9 {
                assert(before =~= before + scan_segments(s, i as int));
                done = true;
            } else if (0xD0 <= marker && marker <= 0xD7) || marker == 0x01 {
                i = i + 2;
            } else {
                let seg_len = (input[i + 2] as usize) * 256 + (input[i + 3] as usize);
                if seg_len > len - i - 2 {
                    assert(before =~= before + scan_segments(s, i as int));
                    done = true;
                } else {
                    let end = i + 2 + seg_len;
                    match classify_marker(marker) {
                        None => {
                            i = i + 1;
                        },
                        Some(SegmentKind::Sos) => {
                            let seg = copy_range(input, i, end);
                            segments.push(JpegSegment::Sos(seg));
                            let data = read_scan_data(input, end);
                            segments.push(JpegSegment::Dat(data));
                            assert(segments_view(segments@) =~= before + scan_segments(
                                s,
                                i as int,
                            ));
                            done = true;
                        },
                        Some(kind) => {
                            let seg = copy_range(input, i, end);
                            segments.push(make_segment(kind, seg));
                            assert(segments_view(segments@) + scan_segments(s, end as int)
                                =~= before + scan_segments(s, i as int));
                            i = end;
                        },
                    }
                }
            }
        }
    }
    if !done {
        assert(segments_view(segments@) =~= segments_view(segments@) + scan_segments(
            input@,
            i as int,
        ));
    }
    JpegModel { soi: vec![0xFFu8, 0xD8u8], segments, eoi: vec![0xFFu8, 0xD9u8] }
}

/// The raw bytes of one segment.
pub fn segment_bytes(seg: &JpegSegment) -> (r: &Vec<u8>)
    ensures
        r@ == seg@.1,
{
    match seg {
        JpegSegment::App(d) => d,
        JpegSegment::Dqt(d) => d,
        JpegSegment::Sof(d) => d,
        JpegSegment::Dht(d) => d,
        JpegSegment::Sos(d) => d,
        JpegSegment::Dat(d) => d,
    }
}

pub fn append_bytes(out: &mut Vec<u8>, data: &Vec<u8>)
    ensures
        final(out)@ == old(out)@ + data@,
{
    let mut k: usize = 0;
    let ghost start = out@;
    while k < data.len()
        invariant
            k <= data@.len(),
            out@ == start + data@.subrange(0, k as int),
        decreases data.len() - k,
    {
        out.push(data[k]);
        k = k + 1;
        assert(out@ =~= start + data@.subrange(0, k as int));
    }
    assert(data@.subrange(0, k as int) =~= data@);
}

/// A copy of a byte buffer.
pub fn copy_bytes(v: &Vec<u8>) -> (r: Vec<u8>)
    ensures
        r@ == v@,
{
    let mut r: Vec<u8> = Vec::new();
    append_bytes(&mut r, v);
    assert(r@ =~= v@);
    r
}

/// The kind of a segment.
pub fn segment_kind(seg: &JpegSegment) -> (r: SegmentKind)
    ensures
        r == seg@.0,
{
    match seg {
        JpegSegment::App(_) => SegmentKind::App,
        JpegSegment::Dqt(_) => SegmentKind::Dqt,
        JpegSegment::Sof(_) => SegmentKind::Sof,
        JpegSegment::Dht(_) => SegmentKind::Dht,
        JpegSegment::Sos(_) => SegmentKind::Sos,
        JpegSegment::Dat(_) => SegmentKind::Dat,
    }
}

/// A copy of a segment.
pub fn clone_segment(seg: &JpegSegment) -> (r: JpegSegment)
    ensures
        r@ == seg@,
{
    make_segment(segment_kind(seg), copy_bytes(segment_bytes(seg)))
}

/// Serialises a model: start marker, each segment's raw bytes, end marker.
pub fn jpeg_generate(model: &JpegModel) -> (r: Vec<u8>)
    ensures
        r@ == jpeg_generate_spec(model@),
{
    let mut bytes: Vec<u8> = Vec::new();
    append_bytes(&mut bytes, &model.soi);
    let mut k: usize = 0;
    while k < model.segments.len()
        invariant
            k <= model.segments@.len(),
            bytes@ == model.soi@ + segments_bytes(segments_view(model.segments@.subrange(0, k as int))),
        decreases model.segments.len() - k,
    {
        let ghost prev = bytes@;
        append_bytes(&mut bytes, segment_bytes(&model.segments[k]));
        proof {
            let sv = segments_view(model.segments@.subrange(0, k + 1));
            assert(sv.drop_last() =~= segments_view(model.segments@.subrange(0, k as int)));
            assert(bytes@ =~= model.soi@ + segments_bytes(sv));
        }
        k = k + 1;
    }
    assert(model.segments@.subrange(0, k as int) =~= model.segments@);
    append_bytes(&mut bytes, &model.eoi);
    bytes
}

/// What one JPEG mutation may do: nothing to a model without segments,
/// otherwise one of the ten mutations with operands that fit the model.
pub open spec fn jpeg_mutation_step(before: JpegView, after: JpegView) -> bool {
    if before.segments.len() == 0 {
        after == before
    } else {
        exists|m: JpegMutation|
            jpeg_mutation_fits(m, before) && after == apply_jpeg_mutation_spec(before, m)
    }
}

/// What one JPEG mutation logs: nothing for a model without segments,
/// otherwise the log line of a fitting mutation that turned `before` into
/// `after`.
pub open spec fn jpeg_mutation_described(before: JpegView, after: JpegView, text: Seq<char>) -> bool {
    if before.segments.len() == 0 {
        after == before && text == Seq::<char>::empty()
    } else {
        exists|m: JpegMutation|
            jpeg_mutation_fits(m, before) && after == apply_jpeg_mutation_spec(before, m) && text
                == jpeg_mutation_text(before, m)
    }
}

impl FileFormat for Jpeg {
    type Model = JpegModel;

    open spec fn parses_to(input: Seq<u8>, model: JpegModel) -> bool {
        model@ == jpeg_parse_spec(input)
    }

    open spec fn generate_spec(model: JpegModel) -> Seq<u8> {
        jpeg_generate_spec(model@)
    }

    open spec fn mutation_step(before: JpegModel, after: JpegModel) -> bool {
        jpeg_mutation_step(before@, after@)
    }

    open spec fn describes(before: JpegModel, after: JpegModel, text: Seq<char>) -> bool {
        jpeg_mutation_described(before@, after@, text)
    }

    open spec fn empty_model(model: JpegModel) -> bool {
        model@.segments.len() == 0
    }

    open spec fn ext_spec() -> Seq<char> {
        "jpg"@
    }

    open spec fn corpus_spec(r: Result<Vec<CorpusFile>, CorpusError>) -> bool {
        r is Ok && jpeg_corpus_holds(r->Ok_0@)
    }

    fn ext() -> (r: &'static str) {
        "jpg"
    }

    fn parse(input: &[u8]) -> (r: JpegModel) {
        jpeg_parse(input)
    }

    fn generate(model: JpegModel) -> (r: Vec<u8>) {
        jpeg_generate(&model)
    }

    fn mutate(rng: &mut SmallRng, model: &mut JpegModel) -> (r: String) {
        jpeg_mutate(rng, model)
    }

    fn generate_corpus(rng: &mut SmallRng) -> (r: Result<Vec<CorpusFile>, CorpusError>) {
        jpeg_corpus(rng)
    }

    proof fn lemma_empty_seed(model: JpegModel, mutated: JpegModel) {
        assert(segments_bytes(model@.segments) == Seq::<u8>::empty());
        assert(jpeg_generate_spec(model@) =~= Seq::<u8>::empty());
    }
}

} // verus!
