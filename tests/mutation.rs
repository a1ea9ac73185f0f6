use fuzzer::mutate::{apply_byte_edit, describe_byte_edit, draw_byte_edit, mutate_bytes, ByteEdit};
use fuzzer::text::{decimal_string, text_with_number};
use rand::rngs::SmallRng;
use rand::SeedableRng;

#[test]
fn mask_edit_xors_one_byte() {
    let mut b = vec![0x0Fu8, 0xF0, 0xAA];
    apply_byte_edit(&mut b, 0, ByteEdit::Mask { index: 1, mask: 0xFF });
    assert_eq!(b, vec![0x0F, 0x0F, 0xAA]);
}

#[test]
fn flip_edit_flips_one_bit() {
    let mut b = vec![0u8, 0u8];
    apply_byte_edit(&mut b, 0, ByteEdit::Flip { index: 1, bit: 7 });
    assert_eq!(b, vec![0, 0x80]);
}

#[test]
fn insert_edit_rotates_right_and_keeps_length() {
    let mut b = vec![1u8, 2, 3, 4];
    apply_byte_edit(&mut b, 0, ByteEdit::Insert { index: 1, byte: 9 });
    assert_eq!(b, vec![1, 9, 2, 3]);
}

#[test]
fn shift_left_rotates_whole_buffer() {
    let mut b = vec![1u8, 2, 3, 4];
    apply_byte_edit(&mut b, 0, ByteEdit::ShiftLeft);
    assert_eq!(b, vec![2, 3, 4, 1]);
}

#[test]
fn edits_on_a_region_leave_the_header_alone() {
    let mut b = vec![1u8, 2, 3, 4, 5, 6, 7];
    apply_byte_edit(&mut b, 5, ByteEdit::ShiftLeft);
    assert_eq!(b, vec![1, 2, 3, 4, 5, 7, 6]);
    apply_byte_edit(&mut b, 5, ByteEdit::Mask { index: 0, mask: 1 });
    assert_eq!(b, vec![1, 2, 3, 4, 5, 6, 6]);
}

#[test]
fn empty_input_is_left_untouched() {
    let mut rng = SmallRng::seed_from_u64(3);
    let mut b: Vec<u8> = Vec::new();
    let d = mutate_bytes(&mut rng, &mut b);
    assert!(b.is_empty());
    assert_eq!(d, "");
    assert_eq!(draw_byte_edit(&mut rng, 0), ByteEdit::Untouched);
}

#[test]
fn mutation_keeps_length_and_changes_little() {
    let mut rng = SmallRng::seed_from_u64(11);
    for _ in 0..200 {
        let orig: Vec<u8> = (0u8..32).collect();
        let mut b = orig.clone();
        let d = mutate_bytes(&mut rng, &mut b);
        assert_eq!(b.len(), orig.len());
        assert!(!d.is_empty());
    }
}

#[test]
fn edit_descriptions() {
    assert_eq!(
        describe_byte_edit(ByteEdit::Mask { index: 12, mask: 3 }),
        "applying a bitmask at index 12"
    );
    assert_eq!(
        describe_byte_edit(ByteEdit::Flip { index: 0, bit: 3 }),
        "applying a bitflip at index 0"
    );
    assert_eq!(
        describe_byte_edit(ByteEdit::Insert { index: 7, byte: 255 }),
        "inserting the byte <255> at index 7"
    );
    assert_eq!(describe_byte_edit(ByteEdit::ShiftLeft), "shifting everything left by 1");
}

#[test]
fn decimal_rendering() {
    assert_eq!(decimal_string(0), "0");
    assert_eq!(decimal_string(1234567890), "1234567890");
    assert_eq!(decimal_string(u64::MAX), "18446744073709551615");
    assert_eq!(text_with_number("n=", 42), "n=42");
}
