use fuzzer::format::FileFormat;
use fuzzer::fuzz_string::{blob_corpus, FuzzString};
use fuzzer::jpeg::{jpeg_generate, jpeg_parse, Jpeg, JpegModel, JpegSegment};
use fuzzer::jpeg_corpus::jpeg_corpus;
use fuzzer::jpeg_mutation::{apply_jpeg_mutation, describe_jpeg_mutation, jpeg_mutate, JpegMutation};
use fuzzer::jpeg_object::{JpegObject, JpegSegment as ObjectSegment};
use fuzzer::mutate::ByteEdit;
use fuzzer::jpeg::SegmentKind;
use fuzzer::txt::{generate_txt_corpus, Txt};
use rand::rngs::SmallRng;
use rand::SeedableRng;

fn sample_jpeg() -> Vec<u8> {
    let mut v = vec![0xFF, 0xD8];
    v.extend_from_slice(&[0xFF, 0xE0, 0x00, 0x04, 0x4A, 0x46]); // APP0
    v.extend_from_slice(&[0xFF, 0xDB, 0x00, 0x05, 0x00, 0x01, 0x02]); // DQT
    v.extend_from_slice(&[0xFF, 0xC0, 0x00, 0x0B, 8, 0, 16, 0, 16, 1, 1, 0x11, 0]); // SOF0
    v.extend_from_slice(&[0xFF, 0xC4, 0x00, 0x06, 0x00, 0x01, 0x02, 0x03]); // DHT
    v.extend_from_slice(&[0xFF, 0xDA, 0x00, 0x03, 0x01]); // SOS
    v.extend_from_slice(&[0x12, 0x34, 0xFF, 0x00, 0x56]); // scan data
    v.extend_from_slice(&[0xFF, 0xD9]);
    v
}

fn data_of(s: &JpegSegment) -> &Vec<u8> {
    match s {
        JpegSegment::App(d)
        | JpegSegment::Dqt(d)
        | JpegSegment::Sof(d)
        | JpegSegment::Dht(d)
        | JpegSegment::Sos(d)
        | JpegSegment::Dat(d) => d,
    }
}

#[test]
fn jpeg_parse_finds_segments() {
    let m = jpeg_parse(&sample_jpeg());
    assert_eq!(m.soi, vec![0xFF, 0xD8]);
    assert_eq!(m.eoi, vec![0xFF, 0xD9]);
    assert_eq!(m.segments.len(), 6);
    assert!(matches!(m.segments[0], JpegSegment::App(_)));
    assert!(matches!(m.segments[1], JpegSegment::Dqt(_)));
    assert!(matches!(m.segments[2], JpegSegment::Sof(_)));
    assert!(matches!(m.segments[3], JpegSegment::Dht(_)));
    assert!(matches!(m.segments[4], JpegSegment::Sos(_)));
    assert_eq!(data_of(&m.segments[0]), &vec![0xFF, 0xE0, 0x00, 0x04, 0x4A, 0x46]);
    // the stuffed FF 00 pair is read as a single FF
    assert_eq!(data_of(&m.segments[5]), &vec![0x12, 0x34, 0xFF, 0x56]);
}

#[test]
fn jpeg_without_magic_is_empty() {
    let m = jpeg_parse(&[0x00, 0x01, 0x02]);
    assert!(m.soi.is_empty() && m.segments.is_empty() && m.eoi.is_empty());
    assert!(jpeg_generate(&m).is_empty());
    let e = jpeg_parse(&[]);
    assert!(e.segments.is_empty());
}

#[test]
fn jpeg_stops_at_truncated_segment() {
    let m = jpeg_parse(&[0xFF, 0xD8, 0xFF, 0xE0, 0x00, 0x10, 0x01, 0x02]);
    assert!(m.segments.is_empty());
    assert_eq!(jpeg_generate(&m), vec![0xFF, 0xD8, 0xFF, 0xD9]);
}

#[test]
fn jpeg_round_trip_without_stuffing_is_exact() {
    let mut v = sample_jpeg();
    // drop the stuffed pair so that the data survives unchanged
    let pos = v.len() - 5;
    v.remove(pos);
    let bytes = jpeg_generate(&jpeg_parse(&v));
    assert_eq!(bytes, v);
    let again = jpeg_generate(&jpeg_parse(&bytes));
    assert_eq!(again, bytes);
}

#[test]
fn jpeg_mutations_apply_exactly() {
    let base = || jpeg_parse(&sample_jpeg());
    let mut m = base();
    apply_jpeg_mutation(&mut m, &JpegMutation::Truncate { keep: 2 });
    assert_eq!(m.segments.len(), 2);
    let mut m = base();
    apply_jpeg_mutation(&mut m, &JpegMutation::ClearEoi);
    assert!(m.eoi.is_empty());
    let mut m = base();
    apply_jpeg_mutation(&mut m, &JpegMutation::CorruptSoi { byte: 7 });
    assert_eq!(m.soi, vec![0xFF, 7]);
    let mut m = base();
    apply_jpeg_mutation(&mut m, &JpegMutation::Trailing { tail: vec![1, 2, 3] });
    assert_eq!(m.eoi, vec![0xFF, 0xD9, 1, 2, 3]);
    let mut m = base();
    apply_jpeg_mutation(&mut m, &JpegMutation::Length { segment: 0, value: 0x1234 });
    assert_eq!(data_of(&m.segments[0]), &vec![0xFF, 0xE0, 0x12, 0x34, 0x4A, 0x46]);
    let mut m = base();
    apply_jpeg_mutation(&mut m, &JpegMutation::Swap { first: 0, second: 1 });
    assert!(matches!(m.segments[0], JpegSegment::Dqt(_)));
    assert!(matches!(m.segments[1], JpegSegment::App(_)));
    let mut m = base();
    let values = vec![(0, 0, 0, 0), (0, 0, 0, 0), (1, 2, 3, 4), (0, 0, 0, 0), (0, 0, 0, 0), (0, 0, 0, 0)];
    apply_jpeg_mutation(&mut m, &JpegMutation::Dimensions { values });
    assert_eq!(&data_of(&m.segments[2])[5..9], &[1, 2, 3, 4]);
    let mut m = base();
    let mut edits = vec![ByteEdit::Untouched; 6];
    edits[3] = ByteEdit::Mask { index: 0, mask: 0xFF };
    apply_jpeg_mutation(&mut m, &JpegMutation::Tables { kind: SegmentKind::Dht, edits });
    assert_eq!(data_of(&m.segments[3]), &vec![0xFF, 0xC4, 0x00, 0x06, 0x00, 0xFE, 0x02, 0x03]);
}

#[test]
fn jpeg_byte_flip_reparses() {
    let mut m = jpeg_parse(&sample_jpeg());
    // position 5 is the APP payload byte 0x4A... after generation: FF D8 FF E0 00 04 4A
    apply_jpeg_mutation(&mut m, &JpegMutation::ByteFlip { permille: 10, flips: vec![(6, 0)] });
    assert_eq!(data_of(&m.segments[0]), &vec![0xFF, 0xE0, 0x00, 0x04, 0x4B, 0x46]);
}

#[test]
fn jpeg_mutation_descriptions() {
    let m = jpeg_parse(&sample_jpeg());
    assert_eq!(describe_jpeg_mutation(&m, &JpegMutation::Truncate { keep: 3 }), "truncated to the first 3 segments");
    assert_eq!(describe_jpeg_mutation(&m, &JpegMutation::ClearEoi), "removed EOI");
    assert_eq!(
        describe_jpeg_mutation(&m, &JpegMutation::Length { segment: 2, value: 258 }),
        "overwriting the segment length of the SOF segment to be 258"
    );
    assert_eq!(
        describe_jpeg_mutation(&m, &JpegMutation::ByteFlip { permille: 15, flips: vec![] }),
        "byteflipping 1.50% of nonheader data"
    );
    let mut edits = vec![ByteEdit::Untouched; 6];
    edits[1] = ByteEdit::ShiftLeft;
    assert_eq!(
        describe_jpeg_mutation(&m, &JpegMutation::Tables { kind: SegmentKind::Dqt, edits }),
        "mutating one of the dqts: shifting everything left by 1"
    );
}

#[test]
fn jpeg_mutate_on_empty_model_is_noop() {
    let mut rng = SmallRng::seed_from_u64(5);
    let mut m = JpegModel { soi: vec![], segments: vec![], eoi: vec![] };
    assert_eq!(jpeg_mutate(&mut rng, &mut m), "");
    assert!(m.segments.is_empty() && m.soi.is_empty() && m.eoi.is_empty());
}

#[test]
fn jpeg_mutate_with_large_tail_terminates() {
    let mut rng = SmallRng::seed_from_u64(42);
    for _ in 0..300 {
        let mut m = jpeg_parse(&sample_jpeg());
        let d = jpeg_mutate(&mut rng, &mut m);
        let _ = jpeg_generate(&m);
        let _ = d;
    }
}

#[test]
fn blob_format_round_trips() {
    let m = FuzzString::parse(b"a b\xFF");
    assert_eq!(FuzzString::generate(m), b"a b\xFF".to_vec());
    assert_eq!(FuzzString::ext(), "");
}

#[test]
fn text_format_round_trips() {
    let m = Txt::parse(b"hello");
    assert_eq!(Txt::generate(m), b"hello".to_vec());
    assert_eq!(Txt::ext(), "txt");
}

#[test]
fn blob_corpus_is_curated() {
    let c = blob_corpus();
    assert_eq!(c.len(), 8);
    assert_eq!(c[0].name, b"My name is Cole.".to_vec());
    assert!(c[1].name.is_empty());
    assert_eq!(c[5].name, "My name is Cole".repeat(10).into_bytes());
    assert_eq!(c[6].name, vec![0xFF, 0xFF]);
    assert_eq!(c[7].name, vec![0, 0, 0]);
    assert!(c.iter().all(|f| f.contents == vec![0x12]));
}

#[test]
fn generate_txt_corpus_has_twenty_files() {
    let mut rng = SmallRng::seed_from_u64(7);
    let c = generate_txt_corpus(&mut rng);
    assert_eq!(c.len(), 20);
    for (i, f) in c.iter().enumerate() {
        assert_eq!(f.name, format!("{i}.txt").into_bytes());
        assert!(f.contents.len() < 1000);
    }
}

#[test]
fn jpeg_corpus_encodes_real_images() {
    let mut rng = SmallRng::seed_from_u64(42);
    let c = jpeg_corpus(&mut rng).expect("corpus");
    assert_eq!(c.len(), 107);
    assert_eq!(Jpeg::ext(), "jpg");
    assert_eq!(c[0].name, b"default.jpg".to_vec());
    assert!(c[1].name.starts_with(b"color-type="));
    assert_eq!(c[101].name, b"size-1x1.jpg".to_vec());
    assert_eq!(c[106].name, b"size-65535x1.jpg".to_vec());
    for f in &c {
        assert_eq!(&f.contents[..2], &[0xFF, 0xD8]);
        let m = Jpeg::parse(&f.contents);
        assert!(!m.segments.is_empty());
    }
}

#[test]
fn object_accessors_hand_out_first_segment() {
    let mut o = JpegObject {
        soi: vec![0xFF, 0xD8],
        segments: vec![ObjectSegment::DQT(vec![1]), ObjectSegment::APP(vec![2]), ObjectSegment::APP(vec![3])],
        eoi: vec![],
    };
    if let Some(d) = o.app_mut() {
        d.push(9);
    }
    assert!(matches!(&o.segments[1], ObjectSegment::APP(d) if d == &vec![2, 9]));
    assert!(o.sof_mut().is_none());
    assert!(o.eoi_mut().is_none());
    assert_eq!(o.soi_mut().map(|s| s.len()), Some(2));
    assert!(o.dat_mut().is_none());
    assert!(o.sos_mut().is_none());
}

#[test]
fn object_follows_the_parser() {
    let o = JpegObject::new(&sample_jpeg());
    assert_eq!(o.segments.len(), 6);
    assert!(matches!(o.segments[3], ObjectSegment::DHT(_)));
    assert_eq!(o.to_bytes(), jpeg_generate(&jpeg_parse(&sample_jpeg())));
}

#[test]
fn random_table_accessors_pick_their_kind() {
    let mut rng = SmallRng::seed_from_u64(8);
    let mut o = JpegObject::new(&sample_jpeg());
    let d = o.random_dht_mut(&mut rng).expect("a DHT segment");
    assert_eq!(d[1], 0xC4);
    let q = o.random_dqt_mut(&mut rng).expect("a DQT segment");
    assert_eq!(q[1], 0xDB);
    let mut empty = JpegObject { soi: vec![], segments: vec![], eoi: vec![] };
    assert!(empty.random_dht_mut(&mut rng).is_none());
}

#[test]
fn curated_names_in_order() {
    let names = fuzzer::fuzz_string::basic_corpus();
    assert_eq!(names.len(), 8);
    assert_eq!(names[3], b"\0hello".to_vec());
    assert_eq!(names[6], vec![0xFF, 0xFF]);
    assert_eq!(names[7], vec![0, 0, 0]);
}
