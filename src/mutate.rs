//! Byte-mutation primitives: one small in-place edit of a byte buffer.

use crate::rng::{random_below, random_byte};
use crate::text::{decimal, text_with_number};
use rand::rngs::SmallRng;
use vstd::prelude::*;
use vstd::string::StringExecFns;

verus! {

/// One edit of the region `bytes[start..]` of a buffer. Indices are
/// relative to the start of the region.
#[derive(Clone, Copy, Debug, PartialEq, Eq, Structural)]
pub enum ByteEdit {
    /// XOR the byte at `index` with `mask`.
    Mask { index: usize, mask: u8 },
    /// Flip bit `bit` of the byte at `index`.
    Flip { index: usize, bit: u8 },
    /// Rotate the region from `index` right by one and write `byte` at `index`.
    Insert { index: usize, byte: u8 },
    /// Rotate the whole region left by one.
    ShiftLeft,
    /// Leave an empty region as it is.
    Untouched,
}

/// Whether `e` is an edit that a region of `len` bytes admits: an empty
/// region admits only `Untouched`, a non-empty one any of the four edits.
pub open spec fn edit_fits(e: ByteEdit, len: nat) -> bool {
    match e {
        ByteEdit::Mask { index, .. } => index < len,
        ByteEdit::Flip { index, bit } => index < len && bit < 8,
        ByteEdit::Insert { index, .. } => index < len,
        ByteEdit::ShiftLeft => len > 0,
        ByteEdit::Untouched => len == 0,
    }
}

/// The buffer `s` after applying `e` to its region starting at `start`.
pub open spec fn edit_region(s: Seq<u8>, start: int, e: ByteEdit) -> Seq<u8> {
    match e {
        ByteEdit::Mask { index, mask } => {
            let p = start + index;
            s.update(p, s[p] ^ mask)
        },
        ByteEdit::Flip { index, bit } => {
            let p = start + index;
            s.update(p, s[p] ^ (1u8 << bit))
        },
        ByteEdit::Insert { index, byte } => {
            let p = start + index;
            s.subrange(0, p) + seq![byte] + s.subrange(p, s.len() - 1)
        },
        ByteEdit::ShiftLeft => s.subrange(0, start) + s.subrange(start + 1, s.len() as int) + seq![
            s[start],
        ],
        ByteEdit::Untouched => s,
    }
}

/// The human-readable log line of an edit.
pub open spec fn byte_edit_text(e: ByteEdit) -> Seq<char> {
    match e {
        ByteEdit::Mask { index, .. } => "applying a bitmask at index "@ + decimal(index as nat),
        ByteEdit::Flip { index, .. } => "applying a bitflip at index "@ + decimal(index as nat),
        ByteEdit::Insert { index, byte } => "inserting the byte <"@ + decimal(byte as nat)
            + "> at index "@ + decimal(index as nat),
        ByteEdit::ShiftLeft => "shifting everything left by 1"@,
        ByteEdit::Untouched => Seq::empty(),
    }
}

/// Applies `edit` to the region `bytes[start..]`.
pub fn apply_byte_edit(bytes: &mut Vec<u8>, start: usize, edit: ByteEdit)
    requires
        start <= old(bytes).len(),
        edit_fits(edit, (old(bytes).len() - start) as nat),
    ensures
        final(bytes)@ == edit_region(old(bytes)@, start as int, edit),
{
    let len = bytes.len();
    match edit {
        ByteEdit::Mask { index, mask } => {
            let p = start + index;
            let b = bytes[p] ^ mask;
            bytes.set(p, b);
        },
        ByteEdit::Flip { index, bit } => {
            let p = start + index;
            let b = bytes[p] ^ (1u8 << bit);
            bytes.set(p, b);
        },
        ByteEdit::Insert { index, byte } => {
            let p = start + index;
            let ghost s = bytes@;
            let mut j: usize = len - 1;
            while j > p
                invariant
                    p <= j < len,
                    len == s.len(),
                    bytes@.len() == len,
                    forall|k: int| 0 <= k <= j ==> bytes@[k] == s[k],
                    forall|k: int| j < k < len ==> bytes@[k] == s[k - 1],
                decreases j,
            {
                let b = bytes[j - 1];
                bytes.set(j, b);
                j = j - 1;
            }
            bytes.set(p, byte);
            assert(bytes@ =~= s.subrange(0, p as int) + seq![byte] + s.subrange(
                p as int,
                s.len() - 1,
            ));
        },
        ByteEdit::ShiftLeft => {
            let ghost s = bytes@;
            let first = bytes[start];
            let mut j: usize = start;
            while j + 1 < len
                invariant
                    start <= j < len,
                    len == s.len(),
                    bytes@.len() == len,
                    forall|k: int| 0 <= k < start ==> bytes@[k] == s[k],
                    forall|k: int| start <= k < j ==> bytes@[k] == s[k + 1],
                    forall|k: int| j <= k < len ==> bytes@[k] == s[k],
                decreases len - j,
            {
                let b = bytes[j + 1];
                bytes.set(j, b);
                j = j + 1;
            }
            bytes.set(len - 1, first);
            assert(bytes@ =~= s.subrange(0, start as int) + s.subrange(start + 1, s.len() as int)
                + seq![s[start as int]]);
        },
        ByteEdit::Untouched => {},
    }
}

/// Draws an edit for a region of `len` bytes: an index first, then one of
/// the four kinds, then the kind's random operand.
pub fn draw_byte_edit(rng: &mut SmallRng, len: usize) -> (r: ByteEdit)
    ensures
        edit_fits(r, len as nat),
        len == 0 ==> *final(rng) == *old(rng),
{
    if len == 0 {
        return ByteEdit::Untouched;
    }
    let index = random_below(rng, len);
    let kind = random_below(rng, 4);
    if kind == 0 {
        ByteEdit::Mask { index, mask: random_byte(rng) }
    } else if kind == 1 {
        ByteEdit::Flip { index, bit: random_below(rng, 8) as u8 }
    } else if kind == 2 {
        ByteEdit::Insert { index, byte: random_byte(rng) }
    } else {
        ByteEdit::ShiftLeft
    }
}

/// The log line of `edit`.
pub fn describe_byte_edit(edit: ByteEdit) -> (r: String)
    ensures
        r@ == byte_edit_text(edit),
{
    match edit {
        ByteEdit::Mask { index, .. } => text_with_number("applying a bitmask at index ", index as u64),
        ByteEdit::Flip { index, .. } => text_with_number("applying a bitflip at index ", index as u64),
        ByteEdit::Insert { index, byte } => {
            let mut s = text_with_number("inserting the byte <", byte as u64);
            s.append("> at index ");
            let t = text_with_number(&s, index as u64);
            t
        },
        ByteEdit::ShiftLeft => String::from_str("shifting everything left by 1"),
        ByteEdit::Untouched => String::new(),
    }
}

/// Applies one random edit to `bytes[start..]` and returns its log line.
pub fn mutate_region(rng: &mut SmallRng, bytes: &mut Vec<u8>, start: usize) -> (r: String)
    requires
        start <= old(bytes).len(),
    ensures
        exists|e: ByteEdit|
            edit_fits(e, (old(bytes).len() - start) as nat) && final(bytes)@ == edit_region(
                old(bytes)@,
                start as int,
                e,
            ) && r@ == byte_edit_text(e),
        old(bytes).len() == start ==> *final(rng) == *old(rng),
{
    let edit = draw_byte_edit(rng, bytes.len() - start);
    apply_byte_edit(bytes, start, edit);
    describe_byte_edit(edit)
}

/// Applies one random edit to the whole of `bytes` and returns its log line.
/// An empty buffer is left as it is.
pub fn mutate_bytes(rng: &mut SmallRng, bytes: &mut Vec<u8>) -> (r: String)
    ensures
        exists|e: ByteEdit|
            edit_fits(e, old(bytes).len() as nat) && final(bytes)@ == edit_region(old(bytes)@, 0, e)
                && r@ == byte_edit_text(e),
        final(bytes)@.len() == old(bytes)@.len(),
        old(bytes)@.len() == 0 ==> final(bytes)@ == old(bytes)@ && r@ == Seq::<char>::empty(),
        old(bytes)@.len() == 0 ==> *final(rng) == *old(rng),
{
    mutate_region(rng, bytes, 0)
}

} // verus!

verus! {

/// Whether `after` is `before` with one byte edit applied to the whole
/// buffer, and `text` is that edit's log line.
pub open spec fn byte_mutation_described(before: Seq<u8>, after: Seq<u8>, text: Seq<char>) -> bool {
    exists|e: ByteEdit|
        edit_fits(e, before.len()) && after == edit_region(before, 0, e) && text == byte_edit_text(
            e,
        )
}

/// Whether `after` is `before` with one byte edit applied to the whole buffer.
pub open spec fn byte_mutation(before: Seq<u8>, after: Seq<u8>) -> bool {
    exists|e: ByteEdit| edit_fits(e, before.len()) && after == edit_region(before, 0, e)
}

} // verus!
