//! Mutations of a PNG model: removing the chunks of one kind, or setting a
//! header field to a value drawn from a list of edge cases.

use crate::png::{chunks_view, Chunk, ChunkCrc, ChunkView, Ihdr, Png, PngModel};
use crate::rng::{random_below, random_byte};
use crate::text::{decimal, push_decimal, text_with_number};
use rand::rngs::SmallRng;
use vstd::prelude::*;
use vstd::string::StringExecFns;

verus! {

/// A chunk kind: header, image data, end, or any other.
pub open spec fn chunk_tag(c: ChunkView) -> nat {
    match c {
        ChunkView::Ihdr(..) => 0,
        ChunkView::Idat(..) => 1,
        ChunkView::Iend(..) => 2,
        ChunkView::Ancillary(..) => 3,
    }
}

/// The chunks without those of kind `tag`, in order.
pub open spec fn without_tag(cs: Seq<ChunkView>, tag: nat) -> Seq<ChunkView>
    decreases cs.len(),
{
    if cs.len() == 0 {
        Seq::empty()
    } else {
        let prev = without_tag(cs.drop_last(), tag);
        if chunk_tag(cs.last()) == tag {
            prev
        } else {
            prev.push(cs.last())
        }
    }
}

fn tag_of(c: &Chunk) -> (r: u8)
    ensures
        r as nat == chunk_tag(c@),
{
    match c {
        Chunk::Ihdr(..) => 0,
        Chunk::Idat(..) => 1,
        Chunk::Iend(..) => 2,
        Chunk::Ancillary(..) => 3,
    }
}

fn remove_tag(model: &mut PngModel, tag: u8)
    ensures
        final(model).signature == old(model).signature,
        chunks_view(final(model).chunks@) == without_tag(chunks_view(old(model).chunks@), tag as nat),
{
    let ghost orig = chunks_view(model.chunks@);
    let mut i: usize = 0;
    let ghost mut j: int = 0;
    while i < model.chunks.len()
        invariant
            0 <= j <= orig.len(),
            model.signature == old(model).signature,
            orig == chunks_view(old(model).chunks@),
            i == without_tag(orig.subrange(0, j), tag as nat).len(),
            chunks_view(model.chunks@) == without_tag(orig.subrange(0, j), tag as nat)
                + orig.subrange(j, orig.len() as int),
        decreases model.chunks.len() - i,
    {
        let ghost pre = without_tag(orig.subrange(0, j), tag as nat);
        assert(orig.subrange(0, j + 1).drop_last() =~= orig.subrange(0, j));
        assert(chunks_view(model.chunks@)[i as int] == orig[j]);
        if tag_of(&model.chunks[i]) == tag {
            let ghost cur = model.chunks@;
            let ghost tail = orig.subrange(j, orig.len() as int);
            assert(chunks_view(cur) == pre + tail);
            assert(i == pre.len());
            model.chunks.remove(i);
            assert(model.chunks@ =~= cur.remove(i as int));
            assert(chunks_view(cur).len() == cur.len());
            assert(cur.len() == pre.len() + tail.len());
            assert(tail.len() == orig.len() - j);
            assert(model.chunks@.len() == cur.len() - 1);
            assert forall|k: int| 0 <= k < model.chunks@.len() implies chunks_view(model.chunks@)[k]
                == (pre + orig.subrange(j + 1, orig.len() as int))[k] by {
                if k < i {
                    assert(model.chunks@[k] == cur[k]);
                    assert(chunks_view(cur)[k] == pre[k]);
                } else {
                    assert(model.chunks@[k] == cur[k + 1]);
                    assert(chunks_view(cur)[k + 1] == (pre + tail)[k + 1]);
                    assert((pre + tail)[k + 1] == tail[k + 1 - i]);
                    assert(tail[k + 1 - i] == orig[j + 1 + (k - i)]);
                    assert((pre + orig.subrange(j + 1, orig.len() as int))[k] == orig.subrange(
                        j + 1,
                        orig.len() as int,
                    )[k - i]);
                }
            }
            assert(chunks_view(model.chunks@) =~= pre + orig.subrange(j + 1, orig.len() as int));
        } else {
            assert(chunks_view(model.chunks@) =~= pre.push(orig[j]) + orig.subrange(
                j + 1,
                orig.len() as int,
            ));
            i = i + 1;
        }
        proof {
            j = j + 1;
        }
    }
    proof {
        assert(without_tag(orig.subrange(0, j), tag as nat).len() + orig.subrange(
            j,
            orig.len() as int,
        ).len() == chunks_view(model.chunks@).len());
        assert(j == orig.len());
        assert(orig.subrange(0, j) =~= orig);
        assert(chunks_view(model.chunks@) =~= without_tag(orig, tag as nat));
    }
}

/// Removes every header chunk.
pub fn remove_ihdr(model: &mut PngModel) -> (r: String)
    ensures
        final(model).signature == old(model).signature,
        chunks_view(final(model).chunks@) == without_tag(chunks_view(old(model).chunks@), 0),
        r@ == "removed ihdr"@,
{
    remove_tag(model, 0);
    String::from_str("removed ihdr")
}

/// Removes every image data chunk.
pub fn remove_idat(model: &mut PngModel) -> (r: String)
    ensures
        final(model).signature == old(model).signature,
        chunks_view(final(model).chunks@) == without_tag(chunks_view(old(model).chunks@), 1),
        r@ == "removed idat"@,
{
    remove_tag(model, 1);
    String::from_str("removed idat")
}

/// Removes every end chunk.
pub fn remove_iend(model: &mut PngModel) -> (r: String)
    ensures
        final(model).signature == old(model).signature,
        chunks_view(final(model).chunks@) == without_tag(chunks_view(old(model).chunks@), 2),
        r@ == "removed iend"@,
{
    remove_tag(model, 2);
    String::from_str("removed iend")
}

/// A new value for header fields.
#[derive(Clone, Copy, Debug, PartialEq, Eq, Structural)]
pub enum IhdrEdit {
    Dims(u32, u32),
    Depth(u8),
    ColorType(u8),
    Compression(u8),
    Filter(u8),
    Interlace(u8),
}

pub open spec fn edit_ihdr(h: Ihdr, e: IhdrEdit) -> Ihdr {
    match e {
        IhdrEdit::Dims(w, ht) => Ihdr { width: w, height: ht, ..h },
        IhdrEdit::Depth(v) => Ihdr { depth: v, ..h },
        IhdrEdit::ColorType(v) => Ihdr { color_type: v, ..h },
        IhdrEdit::Compression(v) => Ihdr { compression_method: v, ..h },
        IhdrEdit::Filter(v) => Ihdr { filter_method: v, ..h },
        IhdrEdit::Interlace(v) => Ihdr { interlace_method: v, ..h },
    }
}

pub open spec fn edit_chunk(c: ChunkView, e: IhdrEdit) -> ChunkView {
    match c {
        ChunkView::Ihdr(h, crc) => ChunkView::Ihdr(edit_ihdr(h, e), crc),
        _ => c,
    }
}

pub open spec fn has_ihdr(cs: Seq<ChunkView>) -> bool {
    exists|k: int| 0 <= k < cs.len() && chunk_tag(#[trigger] cs[k]) == 0
}

/// The edge-case widths and heights.
pub open spec fn dim_choices() -> Seq<u32> {
    seq![
        0u32, 1, 2, 7, 8, 9, 15, 16, 17, 31, 32, 33, 63, 64, 65, 511, 512, 513, 131071, 131072,
        131073, 2147483646, 2147483647, 2147483648, 4294967294, 4294967295,
    ]
}

pub open spec fn depth_choices() -> Seq<u8> {
    seq![0u8, 1, 2, 4, 8, 16, 32, 64, 128]
}

pub open spec fn color_choices() -> Seq<u8> {
    seq![0u8, 1, 2, 3, 4, 6, 8, 32, 254, 255]
}

pub open spec fn interlace_choices() -> Seq<u8> {
    seq![0u8, 1, 2, 3, 255]
}

/// Whether `e` is a value the mutations draw.
pub open spec fn edit_allowed(e: IhdrEdit) -> bool {
    match e {
        IhdrEdit::Dims(w, h) => dim_choices().contains(w) && dim_choices().contains(h),
        IhdrEdit::Depth(v) => depth_choices().contains(v),
        IhdrEdit::ColorType(v) => color_choices().contains(v),
        IhdrEdit::Interlace(v) => interlace_choices().contains(v),
        _ => true,
    }
}

/// The log line of an edit, given whether a header chunk was found.
pub open spec fn edit_text(e: IhdrEdit, found: bool) -> Seq<char> {
    if !found {
        "could not find ihdr"@
    } else {
        match e {
            IhdrEdit::Dims(w, h) => "changed width/height to "@ + decimal(w as nat) + "/"@
                + decimal(h as nat),
            IhdrEdit::Depth(v) => "changed depth to "@ + decimal(v as nat),
            IhdrEdit::ColorType(v) => "changed color type to "@ + decimal(v as nat),
            IhdrEdit::Compression(v) => "changed compression method to "@ + decimal(v as nat),
            IhdrEdit::Filter(v) => "changed filter method to "@ + decimal(v as nat),
            IhdrEdit::Interlace(v) => "changed interlace method to "@ + decimal(v as nat),
        }
    }
}

/// Whether `after` is `before` with edit `e` applied to every header chunk.
pub open spec fn edited_by(before: PngModel, after: PngModel, e: IhdrEdit) -> bool {
    &&& after.signature == before.signature
    &&& chunks_view(after.chunks@) == chunks_view(before.chunks@).map_values(
        |c: ChunkView| edit_chunk(c, e),
    )
}

/// Applies `e` to every header chunk and reports whether there was one.
pub fn apply_ihdr_edit(model: &mut PngModel, e: IhdrEdit) -> (found: bool)
    ensures
        edited_by(*old(model), *final(model), e),
        found == has_ihdr(chunks_view(old(model).chunks@)),
{
    let n = model.chunks.len();
    let ghost orig = chunks_view(model.chunks@);
    let mut found = false;
    let mut k: usize = 0;
    while k < n
        invariant
            k <= n == model.chunks@.len() == orig.len(),
            model.signature == old(model).signature,
            orig == chunks_view(old(model).chunks@),
            forall|j: int| 0 <= j < k ==> (#[trigger] model.chunks@[j])@ == edit_chunk(orig[j], e),
            forall|j: int| k <= j < n ==> (#[trigger] model.chunks@[j])@ == orig[j],
            found == exists|j: int| 0 <= j < k && chunk_tag(#[trigger] orig[j]) == 0,
        decreases n - k,
    {
        assert(model.chunks@[k as int]@ == orig[k as int]);
        let replacement = match &model.chunks[k] {
            Chunk::Ihdr(h, crc) => {
                let nh = match e {
                    IhdrEdit::Dims(w, ht) => Ihdr { width: w, height: ht, ..*h },
                    IhdrEdit::Depth(v) => Ihdr { depth: v, ..*h },
                    IhdrEdit::ColorType(v) => Ihdr { color_type: v, ..*h },
                    IhdrEdit::Compression(v) => Ihdr { compression_method: v, ..*h },
                    IhdrEdit::Filter(v) => Ihdr { filter_method: v, ..*h },
                    IhdrEdit::Interlace(v) => Ihdr { interlace_method: v, ..*h },
                };
                Some(Chunk::Ihdr(nh, ChunkCrc { crc: crc.crc }))
            },
            _ => None,
        };
        match replacement {
            Some(c) => {
                model.chunks.set(k, c);
                found = true;
                assert(chunk_tag(orig[k as int]) == 0);
            },
            None => {},
        }
        k = k + 1;
    }
    assert(chunks_view(model.chunks@) =~= orig.map_values(|c: ChunkView| edit_chunk(c, e)));
    found
}

/// The log line of an edit.
pub fn describe_edit(e: IhdrEdit, found: bool) -> (r: String)
    ensures
        r@ == edit_text(e, found),
{
    if !found {
        return String::from_str("could not find ihdr");
    }
    match e {
        IhdrEdit::Dims(w, h) => {
            let mut s = text_with_number("changed width/height to ", w as u64);
            s.append("/");
            push_decimal(&mut s, h as u64);
            s
        },
        IhdrEdit::Depth(v) => text_with_number("changed depth to ", v as u64),
        IhdrEdit::ColorType(v) => text_with_number("changed color type to ", v as u64),
        IhdrEdit::Compression(v) => text_with_number("changed compression method to ", v as u64),
        IhdrEdit::Filter(v) => text_with_number("changed filter method to ", v as u64),
        IhdrEdit::Interlace(v) => text_with_number("changed interlace method to ", v as u64),
    }
}

fn pick_u32(rng: &mut SmallRng, choices: &Vec<u32>) -> (r: u32)
    requires
        choices@.len() > 0,
    ensures
        choices@.contains(r),
{
    let i = random_below(rng, choices.len());
    assert(choices@[i as int] == choices[i as int]);
    choices[i]
}

fn pick_u8(rng: &mut SmallRng, choices: &Vec<u8>) -> (r: u8)
    requires
        choices@.len() > 0,
    ensures
        choices@.contains(r),
{
    let i = random_below(rng, choices.len());
    assert(choices@[i as int] == choices[i as int]);
    choices[i]
}

fn edit_with(model: &mut PngModel, e: IhdrEdit) -> (r: String)
    ensures
        edited_by(*old(model), *final(model), e),
        r@ == edit_text(e, has_ihdr(chunks_view(old(model).chunks@))),
{
    let found = apply_ihdr_edit(model, e);
    describe_edit(e, found)
}

/// Sets the width and height of every header chunk to edge-case values.
pub fn change_png_dims(model: &mut PngModel, rng: &mut SmallRng) -> (r: String)
    ensures
        exists|e: IhdrEdit|
            e is Dims && edit_allowed(e) && edited_by(*old(model), *final(model), e) && r@
                == edit_text(e, has_ihdr(chunks_view(old(model).chunks@))),
{
    let choices: Vec<u32> = vec![
        0u32, 1, 2, 7, 8, 9, 15, 16, 17, 31, 32, 33, 63, 64, 65, 511, 512, 513, 131071, 131072,
        131073, 2147483646, 2147483647, 2147483648, 4294967294, 4294967295,
    ];
    assert(choices@ =~= dim_choices());
    let w = pick_u32(rng, &choices);
    let h = pick_u32(rng, &choices);
    let e = IhdrEdit::Dims(w, h);
    let r = edit_with(model, e);
    assert(e is Dims && edit_allowed(e));
    r
}

/// Sets the bit depth of every header chunk to an edge-case value.
pub fn change_depth(model: &mut PngModel, rng: &mut SmallRng) -> (r: String)
    ensures
        exists|e: IhdrEdit|
            e is Depth && edit_allowed(e) && edited_by(*old(model), *final(model), e) && r@
                == edit_text(e, has_ihdr(chunks_view(old(model).chunks@))),
{
    let choices: Vec<u8> = vec![0u8, 1, 2, 4, 8, 16, 32, 64, 128];
    assert(choices@ =~= depth_choices());
    let v = pick_u8(rng, &choices);
    let e = IhdrEdit::Depth(v);
    let r = edit_with(model, e);
    assert(e is Depth && edit_allowed(e));
    r
}

/// Sets the colour type of every header chunk to an edge-case value.
pub fn change_color_type(model: &mut PngModel, rng: &mut SmallRng) -> (r: String)
    ensures
        exists|e: IhdrEdit|
            e is ColorType && edit_allowed(e) && edited_by(*old(model), *final(model), e) && r@
                == edit_text(e, has_ihdr(chunks_view(old(model).chunks@))),
{
    let choices: Vec<u8> = vec![0u8, 1, 2, 3, 4, 6, 8, 32, 254, 255];
    assert(choices@ =~= color_choices());
    let v = pick_u8(rng, &choices);
    let e = IhdrEdit::ColorType(v);
    let r = edit_with(model, e);
    assert(e is ColorType && edit_allowed(e));
    r
}

/// Sets the compression method of every header chunk to a random byte.
pub fn change_compression_method(model: &mut PngModel, rng: &mut SmallRng) -> (r: String)
    ensures
        exists|e: IhdrEdit|
            e is Compression && edited_by(*old(model), *final(model), e) && r@ == edit_text(
                e,
                has_ihdr(chunks_view(old(model).chunks@)),
            ),
{
    let v = random_byte(rng);
    let e = IhdrEdit::Compression(v);
    let r = edit_with(model, e);
    assert(e is Compression && edit_allowed(e));
    r
}

/// Sets the filter method of every header chunk to a random byte.
pub fn change_filter_method(model: &mut PngModel, rng: &mut SmallRng) -> (r: String)
    ensures
        exists|e: IhdrEdit|
            e is Filter && edited_by(*old(model), *final(model), e) && r@ == edit_text(
                e,
                has_ihdr(chunks_view(old(model).chunks@)),
            ),
{
    let v = random_byte(rng);
    let e = IhdrEdit::Filter(v);
    let r = edit_with(model, e);
    assert(e is Filter && edit_allowed(e));
    r
}

/// Sets the interlace method of every header chunk to an edge-case value.
pub fn change_interlace_method(model: &mut PngModel, rng: &mut SmallRng) -> (r: String)
    ensures
        exists|e: IhdrEdit|
            e is Interlace && edit_allowed(e) && edited_by(*old(model), *final(model), e) && r@
                == edit_text(e, has_ihdr(chunks_view(old(model).chunks@))),
{
    let choices: Vec<u8> = vec![0u8, 1, 2, 3, 255];
    assert(choices@ =~= interlace_choices());
    let v = pick_u8(rng, &choices);
    let e = IhdrEdit::Interlace(v);
    let r = edit_with(model, e);
    assert(e is Interlace && edit_allowed(e));
    r
}

/// What one PNG mutation may do to a model with chunks: remove the chunks
/// of one of the three named kinds, or apply an allowed header edit.
pub open spec fn png_mutation_step(before: PngModel, after: PngModel) -> bool {
    ||| (after.signature == before.signature && exists|t: nat|
        t < 3 && chunks_view(after.chunks@) == without_tag(chunks_view(before.chunks@), t))
    ||| exists|e: IhdrEdit| edit_allowed(e) && edited_by(before, after, e)
}

impl Png {
    /// Applies one of nine randomly chosen mutations and describes it; a
    /// model without chunks is left as it is.
    pub fn mutate(rng: &mut SmallRng, model: &mut PngModel) -> (r: String)
        ensures
            old(model).chunks@.len() == 0 ==> *final(model) == *old(model) && r@ == Seq::<
                char,
            >::empty(),
            old(model).chunks@.len() > 0 ==> png_mutation_step(*old(model), *final(model)),
    {
        if model.chunks.len() == 0 {
            return String::new();
        }
        let ghost before = *model;
        let choice = random_below(rng, 9);
        let r;
        if choice < 3 {
            if choice == 0 {
                r = remove_ihdr(model);
            } else if choice == 1 {
                r = remove_idat(model);
            } else {
                r = remove_iend(model);
            }
            proof {
                let t = choice as nat;
                assert(t < 3 && chunks_view(model.chunks@) == without_tag(
                    chunks_view(before.chunks@),
                    t,
                ));
            }
        } else {
            if choice == 3 {
                r = change_png_dims(model, rng);
                proof {
                    let e = choose|e: IhdrEdit|
                        e is Dims && edit_allowed(e) && edited_by(before, *model, e) && r@ == edit_text(
                            e,
                            has_ihdr(chunks_view(before.chunks@)),
                        );
                    assert(edit_allowed(e) && edited_by(before, *model, e));
                }
            } else if choice == 4 {
                r = change_depth(model, rng);
                proof {
                    let e = choose|e: IhdrEdit|
                        e is Depth && edit_allowed(e) && edited_by(before, *model, e) && r@ == edit_text(
                            e,
                            has_ihdr(chunks_view(before.chunks@)),
                        );
                    assert(edit_allowed(e) && edited_by(before, *model, e));
                }
            } else if choice == 5 {
                r = change_color_type(model, rng);
                proof {
                    let e = choose|e: IhdrEdit|
                        e is ColorType && edit_allowed(e) && edited_by(before, *model, e) && r@ == edit_text(
                            e,
                            has_ihdr(chunks_view(before.chunks@)),
                        );
                    assert(edit_allowed(e) && edited_by(before, *model, e));
                }
            } else if choice == 6 {
                r = change_compression_method(model, rng);
                proof {
                    let e = choose|e: IhdrEdit|
                        e is Compression && edited_by(before, *model, e) && r@ == edit_text(
                            e,
                            has_ihdr(chunks_view(before.chunks@)),
                        );
                    assert(edit_allowed(e) && edited_by(before, *model, e));
                }
            } else if choice == 7 {
                r = change_filter_method(model, rng);
                proof {
                    let e = choose|e: IhdrEdit|
                        e is Filter && edited_by(before, *model, e) && r@ == edit_text(
                            e,
                            has_ihdr(chunks_view(before.chunks@)),
                        );
                    assert(edit_allowed(e) && edited_by(before, *model, e));
                }
            } else {
                r = change_interlace_method(model, rng);
                proof {
                    let e = choose|e: IhdrEdit|
                        e is Interlace && edit_allowed(e) && edited_by(before, *model, e) && r@ == edit_text(
                            e,
                            has_ihdr(chunks_view(before.chunks@)),
                        );
                    assert(edit_allowed(e) && edited_by(before, *model, e));
                }
            }
        }
        r
    }
}

} // verus!
