use fuzzer::png::{bytes_to_ihdr, ihdr_to_bytes, interpret_chunk, png_crc, Chunk, ChunkCrc, Ihdr, Png, PngError, PngModel, RawChunk};
use fuzzer::png_model::{minimal_idat, normalize_png};
use fuzzer::png_mutations::{change_png_dims, remove_idat, remove_iend, remove_ihdr};
use rand::rngs::SmallRng;
use rand::SeedableRng;

fn header() -> Ihdr {
    Ihdr { width: 1, height: 2, depth: 8, color_type: 2, compression_method: 0, filter_method: 0, interlace_method: 0 }
}

fn model() -> PngModel {
    PngModel {
        signature: [0x89, 0x50, 0x4E, 0x47, 0x0D, 0x0A, 0x1A, 0x0A],
        chunks: vec![
            Chunk::Ihdr(header(), ChunkCrc { crc: 1 }),
            Chunk::Idat(vec![1, 2, 3], ChunkCrc { crc: 2 }),
            Chunk::Iend(ChunkCrc { crc: 3 }),
        ],
    }
}

#[test]
fn iend_crc_is_the_well_known_value() {
    assert_eq!(png_crc(b"IEND", &[]), 0xAE42_6082);
}

#[test]
fn stored_block_with_adler() {
    assert_eq!(
        minimal_idat(&[0, 0]).unwrap(),
        vec![0x78, 0x01, 0x01, 0x02, 0x00, 0xFD, 0xFF, 0, 0, 0x00, 0x02, 0x00, 0x01]
    );
    assert_eq!(minimal_idat(&vec![0u8; 70000]), Err(PngError::TooLong));
}

#[test]
fn header_fields_round_trip() {
    let b = ihdr_to_bytes(&header());
    assert_eq!(b, vec![0, 0, 0, 1, 0, 0, 0, 2, 8, 2, 0, 0, 0]);
    assert_eq!(bytes_to_ihdr(&b), Ok(header()));
    assert_eq!(bytes_to_ihdr(&b[..12]), Err(PngError::Malformed));
}

#[test]
fn chunks_are_interpreted_by_type() {
    let raw = RawChunk { length: 3, chunk_type: *b"IDAT", data: vec![1, 2, 3], crc: 9 };
    assert_eq!(interpret_chunk(raw), Ok(Chunk::Idat(vec![1, 2, 3], ChunkCrc { crc: 9 })));
    let raw = RawChunk { length: 1, chunk_type: *b"IHDR", data: vec![1], crc: 9 };
    assert_eq!(interpret_chunk(raw), Err(PngError::Malformed));
    let raw = RawChunk { length: 1, chunk_type: *b"tEXt", data: vec![1], crc: 9 };
    assert!(matches!(interpret_chunk(raw), Ok(Chunk::Ancillary(_))));
}

#[test]
fn generate_then_parse() {
    let m = model();
    let bytes = Png::generate(&m);
    assert_eq!(&bytes[8..16], &[0, 0, 0, 13, b'I', b'H', b'D', b'R']);
    let back = Png::parse(&bytes).ok().unwrap();
    assert_eq!(back.chunks, m.chunks);
    assert_eq!(Png::parse(&bytes[..bytes.len() - 1]).err(), Some(PngError::Malformed));
    assert_eq!(Png::parse(&[1, 2, 3]).err(), Some(PngError::Malformed));
}

#[test]
fn normalisation_recomputes_crcs() {
    let mut m = model();
    normalize_png(&mut m);
    assert_eq!(m.chunks[2], Chunk::Iend(ChunkCrc { crc: 0xAE42_6082 }));
}

#[test]
fn png_corpus_images_parse() {
    let mut rng = SmallRng::seed_from_u64(1);
    let c = Png::generate_corpus(&mut rng).ok().unwrap();
    assert_eq!(c.len(), 6);
    assert_eq!(Png::ext(), "png");
    assert_eq!(c[0].name, b"indexed.png".to_vec());
    assert_eq!(c[5].name, b"interlace.png".to_vec());
    for f in &c {
        let m = Png::parse(&f.contents).ok().unwrap();
        assert_eq!(m.chunks.len(), 3);
        assert_eq!(Png::generate(&m), f.contents);
    }
}

#[test]
fn removals_drop_one_kind() {
    let mut m = model();
    assert_eq!(remove_ihdr(&mut m), "removed ihdr");
    assert_eq!(m.chunks.len(), 2);
    assert_eq!(remove_idat(&mut m), "removed idat");
    assert_eq!(remove_iend(&mut m), "removed iend");
    assert!(m.chunks.is_empty());
    let mut rng = SmallRng::seed_from_u64(2);
    assert_eq!(Png::mutate(&mut rng, &mut m), "");
    assert_eq!(change_png_dims(&mut m, &mut rng), "could not find ihdr");
}

#[test]
fn dimension_change_uses_edge_values() {
    let mut rng = SmallRng::seed_from_u64(4);
    let mut m = model();
    let d = change_png_dims(&mut m, &mut rng);
    assert!(d.starts_with("changed width/height to "));
    if let Chunk::Ihdr(h, _) = &m.chunks[0] {
        let allowed = [0u32, 1, 2, 7, 8, 9, 15, 16, 17, 31, 32, 33, 63, 64, 65, 511, 512, 513, 131071, 131072, 131073, 2147483646, 2147483647, 2147483648, 4294967294, 4294967295];
        assert!(allowed.contains(&h.width) && allowed.contains(&h.height));
        assert_eq!(d, format!("changed width/height to {}/{}", h.width, h.height));
    } else {
        panic!("header chunk moved");
    }
}
