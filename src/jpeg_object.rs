//! A JPEG file held as start marker, segments and end marker, with mutable
//! access to the first segment of each kind.

use crate::jpeg::{append_bytes, copy_bytes, jpeg_parse, segment_bytes, segment_kind, JpegSegment as ModelSegment, SegmentKind};
use crate::rng::random_below;
use rand::rngs::SmallRng;
use vstd::prelude::*;

verus! {

/// A segment with its raw bytes; `Other` keeps a marker the model does not
/// name.
pub enum JpegSegment {
    APP(Vec<u8>),
    DQT(Vec<u8>),
    SOF(Vec<u8>),
    DHT(Vec<u8>),
    SOS(Vec<u8>),
    DAT(Vec<u8>),
    Other(u8, Vec<u8>),
}

/// The variant of a segment.
#[derive(Clone, Copy, Debug, PartialEq, Eq, Structural)]
pub enum ObjectKind {
    App,
    Dqt,
    Sof,
    Dht,
    Sos,
    Dat,
    Other,
}

impl JpegSegment {
    pub open spec fn kind(&self) -> ObjectKind {
        match self {
            JpegSegment::APP(_) => ObjectKind::App,
            JpegSegment::DQT(_) => ObjectKind::Dqt,
            JpegSegment::SOF(_) => ObjectKind::Sof,
            JpegSegment::DHT(_) => ObjectKind::Dht,
            JpegSegment::SOS(_) => ObjectKind::Sos,
            JpegSegment::DAT(_) => ObjectKind::Dat,
            JpegSegment::Other(_, _) => ObjectKind::Other,
        }
    }

    /// The raw bytes the segment holds.
    pub open spec fn data(&self) -> Vec<u8> {
        match self {
            JpegSegment::APP(d) => *d,
            JpegSegment::DQT(d) => *d,
            JpegSegment::SOF(d) => *d,
            JpegSegment::DHT(d) => *d,
            JpegSegment::SOS(d) => *d,
            JpegSegment::DAT(d) => *d,
            JpegSegment::Other(_, d) => *d,
        }
    }

    /// The same segment holding `d` instead.
    pub open spec fn with_data(&self, d: Vec<u8>) -> JpegSegment {
        match self {
            JpegSegment::APP(_) => JpegSegment::APP(d),
            JpegSegment::DQT(_) => JpegSegment::DQT(d),
            JpegSegment::SOF(_) => JpegSegment::SOF(d),
            JpegSegment::DHT(_) => JpegSegment::DHT(d),
            JpegSegment::SOS(_) => JpegSegment::SOS(d),
            JpegSegment::DAT(_) => JpegSegment::DAT(d),
            JpegSegment::Other(m, _) => JpegSegment::Other(*m, d),
        }
    }
}

/// The position of the first segment of `kind` among the first `n`, or -1.
pub open spec fn first_of_kind(segs: Seq<JpegSegment>, kind: ObjectKind, n: int) -> int
    decreases n,
{
    if n <= 0 {
        -1
    } else {
        let prev = first_of_kind(segs, kind, n - 1);
        if prev >= 0 {
            prev
        } else if segs[n - 1].kind() == kind {
            n - 1
        } else {
            -1
        }
    }
}

/// The first segment of `kind` exists.
pub open spec fn has_kind(obj: JpegObject, kind: ObjectKind) -> bool {
    first_of_kind(obj.segments@, kind, obj.segments@.len() as int) >= 0
}

/// Segment `k` held `given` and holds `written` afterwards; nothing else
/// changed.
pub open spec fn handed_out_at(
    before: JpegObject,
    after: JpegObject,
    k: int,
    given: Vec<u8>,
    written: Vec<u8>,
) -> bool {
    &&& given == before.segments@[k].data()
    &&& after.segments@ == before.segments@.update(k, before.segments@[k].with_data(written))
    &&& after.soi == before.soi
    &&& after.eoi == before.eoi
}

/// The object kind of a model segment kind.
pub open spec fn object_kind(k: SegmentKind) -> ObjectKind {
    match k {
        SegmentKind::App => ObjectKind::App,
        SegmentKind::Dqt => ObjectKind::Dqt,
        SegmentKind::Sof => ObjectKind::Sof,
        SegmentKind::Dht => ObjectKind::Dht,
        SegmentKind::Sos => ObjectKind::Sos,
        SegmentKind::Dat => ObjectKind::Dat,
    }
}

/// The bytes of the first `n` segments, one after the other.
pub open spec fn object_segments_bytes(segs: Seq<JpegSegment>, n: int) -> Seq<u8>
    decreases n,
{
    if n <= 0 {
        Seq::empty()
    } else {
        object_segments_bytes(segs, n - 1) + segs[n - 1].data()@
    }
}

/// The number of segments of `kind` among the first `n`.
pub open spec fn count_kind(segs: Seq<JpegSegment>, kind: ObjectKind, n: int) -> nat
    decreases n,
{
    if n <= 0 {
        0
    } else {
        count_kind(segs, kind, n - 1) + if segs[n - 1].kind() == kind {
            1nat
        } else {
            0nat
        }
    }
}

/// The first segment of `kind` held `given` and holds `written` afterwards;
/// nothing else changed.
pub open spec fn handed_out(
    before: JpegObject,
    after: JpegObject,
    kind: ObjectKind,
    given: Vec<u8>,
    written: Vec<u8>,
) -> bool {
    let k = first_of_kind(before.segments@, kind, before.segments@.len() as int);
    &&& given == before.segments@[k].data()
    &&& after.segments@ == before.segments@.update(k, before.segments@[k].with_data(written))
    &&& after.soi == before.soi
    &&& after.eoi == before.eoi
}

proof fn lemma_first_stays(segs: Seq<JpegSegment>, kind: ObjectKind, k: int, m: int)
    requires
        0 < k <= m,
        first_of_kind(segs, kind, k) >= 0,
    ensures
        first_of_kind(segs, kind, m) == first_of_kind(segs, kind, k),
    decreases m - k,
{
    if m > k {
        lemma_first_stays(segs, kind, k, m - 1);
    }
}

fn is_kind(seg: &JpegSegment, kind: ObjectKind) -> (r: bool)
    ensures
        r == (seg.kind() == kind),
{
    match seg {
        JpegSegment::APP(_) => kind == ObjectKind::App,
        JpegSegment::DQT(_) => kind == ObjectKind::Dqt,
        JpegSegment::SOF(_) => kind == ObjectKind::Sof,
        JpegSegment::DHT(_) => kind == ObjectKind::Dht,
        JpegSegment::SOS(_) => kind == ObjectKind::Sos,
        JpegSegment::DAT(_) => kind == ObjectKind::Dat,
        JpegSegment::Other(_, _) => kind == ObjectKind::Other,
    }
}

pub struct JpegObject {
    pub soi: Vec<u8>,
    pub segments: Vec<JpegSegment>,
    pub eoi: Vec<u8>,
}

impl JpegObject {
    /// The start marker, when there is one.
    pub fn soi_mut(&mut self) -> (r: Option<&mut Vec<u8>>)
        ensures
            r is Some <==> old(self).soi@.len() > 0,
            r matches Some(v) ==> *v == old(self).soi,
            r matches Some(v) ==> final(self).soi == *final(v) && final(self).segments == old(
                self,
            ).segments && final(self).eoi == old(self).eoi,
            r is None ==> *final(self) == *old(self),
    {
        if self.soi.len() > 0 {
            return Some(&mut self.soi);
        }
        None
    }

    fn first_segment_mut(&mut self, kind: ObjectKind) -> (r: Option<&mut Vec<u8>>)
        ensures
            r is Some <==> has_kind(*old(self), kind),
            r matches Some(v) ==> handed_out(*old(self), *final(self), kind, *v, *final(v)),
            r is None ==> *final(self) == *old(self),
    {
        let n = self.segments.len();
        let mut k: usize = 0;
        while k < n && !is_kind(&self.segments[k], kind)
            invariant
                k <= n == self.segments@.len(),
                first_of_kind(self.segments@, kind, k as int) == -1,
            decreases n - k,
        {
            k = k + 1;
        }
        proof {
            if k < n {
                lemma_first_stays(self.segments@, kind, k as int + 1, n as int);
            } else {
                assert(first_of_kind(self.segments@, kind, n as int) == -1);
            }
        }
        if k == n {
            return None;
        }
        let seg = &mut self.segments[k];
        match seg {
            JpegSegment::APP(d) => Some(d),
            JpegSegment::DQT(d) => Some(d),
            JpegSegment::SOF(d) => Some(d),
            JpegSegment::DHT(d) => Some(d),
            JpegSegment::SOS(d) => Some(d),
            JpegSegment::DAT(d) => Some(d),
            JpegSegment::Other(_, d) => Some(d),
        }
    }

    /// The end marker, when there is one.
    pub fn eoi_mut(&mut self) -> (r: Option<&mut Vec<u8>>)
        ensures
            r is Some <==> old(self).eoi@.len() > 0,
            r matches Some(v) ==> *v == old(self).eoi,
            r matches Some(v) ==> final(self).eoi == *final(v) && final(self).segments == old(
                self,
            ).segments && final(self).soi == old(self).soi,
            r is None ==> *final(self) == *old(self),
    {
        if self.eoi.len() > 0 {
            return Some(&mut self.eoi);
        }
        None
    }

    /// The first application segment, when there is one.
    pub fn app_mut(&mut self) -> (r: Option<&mut Vec<u8>>)
        ensures
            r is Some <==> has_kind(*old(self), ObjectKind::App),
            r matches Some(v) ==> handed_out(*old(self), *final(self), ObjectKind::App, *v, *final(v)),
            r is None ==> *final(self) == *old(self),
    {
        self.first_segment_mut(ObjectKind::App)
    }

    /// The first frame header, when there is one.
    pub fn sof_mut(&mut self) -> (r: Option<&mut Vec<u8>>)
        ensures
            r is Some <==> has_kind(*old(self), ObjectKind::Sof),
            r matches Some(v) ==> handed_out(*old(self), *final(self), ObjectKind::Sof, *v, *final(v)),
            r is None ==> *final(self) == *old(self),
    {
        self.first_segment_mut(ObjectKind::Sof)
    }

    /// The first start-of-scan segment, when there is one.
    pub fn sos_mut(&mut self) -> (r: Option<&mut Vec<u8>>)
        ensures
            r is Some <==> has_kind(*old(self), ObjectKind::Sos),
            r matches Some(v) ==> handed_out(*old(self), *final(self), ObjectKind::Sos, *v, *final(v)),
            r is None ==> *final(self) == *old(self),
    {
        self.first_segment_mut(ObjectKind::Sos)
    }

    /// The first entropy-coded data segment, when there is one.
    pub fn dat_mut(&mut self) -> (r: Option<&mut Vec<u8>>)
        ensures
            r is Some <==> has_kind(*old(self), ObjectKind::Dat),
            r matches Some(v) ==> handed_out(*old(self), *final(self), ObjectKind::Dat, *v, *final(v)),
            r is None ==> *final(self) == *old(self),
    {
        self.first_segment_mut(ObjectKind::Dat)
    }

    /// The object for JPEG bytes, segmented as the format's parser does.
    pub fn new(bytes: &[u8]) -> (r: JpegObject)
        ensures
            r.soi@ == crate::jpeg::jpeg_parse_spec(bytes@).soi,
            r.eoi@ == crate::jpeg::jpeg_parse_spec(bytes@).eoi,
            r.segments@.len() == crate::jpeg::jpeg_parse_spec(bytes@).segments.len(),
            forall|k: int|
                0 <= k < r.segments@.len() ==> (#[trigger] r.segments@[k]).kind() == object_kind(
                    crate::jpeg::jpeg_parse_spec(bytes@).segments[k].0,
                ) && r.segments@[k].data()@ == crate::jpeg::jpeg_parse_spec(bytes@).segments[k].1,
    {
        let model = jpeg_parse(bytes);
        let n = model.segments.len();
        let mut segments: Vec<JpegSegment> = Vec::new();
        let mut k: usize = 0;
        while k < n
            invariant
                k <= n == model.segments@.len(),
                model@ == crate::jpeg::jpeg_parse_spec(bytes@),
                segments@.len() == k,
                forall|j: int|
                    0 <= j < k ==> (#[trigger] segments@[j]).kind() == object_kind(
                        model@.segments[j].0,
                    ) && segments@[j].data()@ == model@.segments[j].1,
            decreases n - k,
        {
            let seg: &ModelSegment = &model.segments[k];
            let data = copy_bytes(segment_bytes(seg));
            let converted = match segment_kind(seg) {
                SegmentKind::App => JpegSegment::APP(data),
                SegmentKind::Dqt => JpegSegment::DQT(data),
                SegmentKind::Sof => JpegSegment::SOF(data),
                SegmentKind::Dht => JpegSegment::DHT(data),
                SegmentKind::Sos => JpegSegment::SOS(data),
                SegmentKind::Dat => JpegSegment::DAT(data),
            };
            segments.push(converted);
            k = k + 1;
        }
        JpegObject { soi: copy_bytes(&model.soi), segments, eoi: copy_bytes(&model.eoi) }
    }

    /// The bytes of the file: start marker, each segment, end marker.
    pub fn to_bytes(&self) -> (r: Vec<u8>)
        ensures
            r@ == self.soi@ + object_segments_bytes(self.segments@, self.segments@.len() as int)
                + self.eoi@,
    {
        let mut bytes = copy_bytes(&self.soi);
        let mut k: usize = 0;
        while k < self.segments.len()
            invariant
                k <= self.segments@.len(),
                bytes@ == self.soi@ + object_segments_bytes(self.segments@, k as int),
            decreases self.segments.len() - k,
        {
            let data = match &self.segments[k] {
                JpegSegment::APP(d) => d,
                JpegSegment::DQT(d) => d,
                JpegSegment::SOF(d) => d,
                JpegSegment::DHT(d) => d,
                JpegSegment::SOS(d) => d,
                JpegSegment::DAT(d) => d,
                JpegSegment::Other(_, d) => d,
            };
            append_bytes(&mut bytes, data);
            assert(bytes@ =~= self.soi@ + object_segments_bytes(self.segments@, k + 1));
            k = k + 1;
        }
        append_bytes(&mut bytes, &self.eoi);
        bytes
    }

    fn random_segment_mut(&mut self, rng: &mut SmallRng, kind: ObjectKind) -> (r: Option<&mut Vec<u8>>)
        ensures
            r is Some <==> has_kind(*old(self), kind),
            r matches Some(v) ==> exists|k: int|
                0 <= k < old(self).segments@.len() && (#[trigger] old(self).segments@[k]).kind() == kind
                    && handed_out_at(*old(self), *final(self), k, *v, *final(v)),
            r is None ==> *final(self) == *old(self),
    {
        let n = self.segments.len();
        let mut count: usize = 0;
        let mut k: usize = 0;
        while k < n
            invariant
                k <= n == self.segments@.len(),
                count == count_kind(self.segments@, kind, k as int),
                count <= k,
            decreases n - k,
        {
            if is_kind(&self.segments[k], kind) {
                count = count + 1;
            }
            k = k + 1;
        }
        proof {
            lemma_count_first(self.segments@, kind, n as int);
        }
        if count == 0 {
            return None;
        }
        let target = random_below(rng, count);
        let mut seen: usize = 0;
        let mut k: usize = 0;
        while k < n && !(is_kind(&self.segments[k], kind) && seen == target)
            invariant
                k <= n == self.segments@.len(),
                seen == count_kind(self.segments@, kind, k as int),
                seen <= target < count == count_kind(self.segments@, kind, n as int),
            decreases n - k,
        {
            if is_kind(&self.segments[k], kind) {
                seen = seen + 1;
            }
            k = k + 1;
            proof {
                if seen > target {
                    lemma_count_monotone(self.segments@, kind, k as int, n as int);
                }
            }
        }
        proof {
            if k == n {
                assert(false);
            }
        }
        let seg = &mut self.segments[k];
        match seg {
            JpegSegment::APP(d) => Some(d),
            JpegSegment::DQT(d) => Some(d),
            JpegSegment::SOF(d) => Some(d),
            JpegSegment::DHT(d) => Some(d),
            JpegSegment::SOS(d) => Some(d),
            JpegSegment::DAT(d) => Some(d),
            JpegSegment::Other(_, d) => Some(d),
        }
    }

    /// A uniformly chosen Huffman table segment, when there is one.
    pub fn random_dht_mut(&mut self, rng: &mut SmallRng) -> (r: Option<&mut Vec<u8>>)
        ensures
            r is Some <==> has_kind(*old(self), ObjectKind::Dht),
            r matches Some(v) ==> exists|k: int|
                0 <= k < old(self).segments@.len() && (#[trigger] old(self).segments@[k]).kind()
                    == ObjectKind::Dht && handed_out_at(*old(self), *final(self), k, *v, *final(v)),
            r is None ==> *final(self) == *old(self),
    {
        self.random_segment_mut(rng, ObjectKind::Dht)
    }

    /// A uniformly chosen quantization table segment, when there is one.
    pub fn random_dqt_mut(&mut self, rng: &mut SmallRng) -> (r: Option<&mut Vec<u8>>)
        ensures
            r is Some <==> has_kind(*old(self), ObjectKind::Dqt),
            r matches Some(v) ==> exists|k: int|
                0 <= k < old(self).segments@.len() && (#[trigger] old(self).segments@[k]).kind()
                    == ObjectKind::Dqt && handed_out_at(*old(self), *final(self), k, *v, *final(v)),
            r is None ==> *final(self) == *old(self),
    {
        self.random_segment_mut(rng, ObjectKind::Dqt)
    }
}

/// Counting and finding agree: some segment of `kind` exists among the
/// first `n` exactly when the count is positive.
proof fn lemma_count_first(segs: Seq<JpegSegment>, kind: ObjectKind, n: int)
    requires
        0 <= n <= segs.len(),
    ensures
        (count_kind(segs, kind, n) > 0) == (first_of_kind(segs, kind, n) >= 0),
    decreases n,
{
    if n > 0 {
        lemma_count_first(segs, kind, n - 1);
    }
}

proof fn lemma_count_monotone(segs: Seq<JpegSegment>, kind: ObjectKind, a: int, b: int)
    requires
        0 <= a <= b <= segs.len(),
    ensures
        count_kind(segs, kind, a) <= count_kind(segs, kind, b),
    decreases b - a,
{
    if b > a {
        lemma_count_monotone(segs, kind, a, b - 1);
    }
}

} // verus!
