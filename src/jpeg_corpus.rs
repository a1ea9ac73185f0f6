//! The JPEG seed corpus: a 16x16 gradient, a hundred re-encodings of it with
//! random encoder settings, and six images of fixed sizes with random pixels.

use crate::format::{name_bytes, CorpusError, CorpusFile};
use crate::rng::{random_below, random_bool, random_byte, random_u16};
use crate::text::{decimal, push_decimal};
use rand::rngs::SmallRng;
use vstd::prelude::*;
use vstd::utf8::encode_utf8;
use vstd::string::StringExecFns;

verus! {

/// The colour interpretation handed to the variant encoder.
#[derive(Clone, Copy, Debug, PartialEq, Eq, Structural)]
pub enum EncodeColor {
    Luma,
    Rgb,
    Bgr,
    Ycbcr,
}

/// The settings of one re-encoding of the gradient.
#[derive(Clone, Copy, Debug, PartialEq, Eq, Structural)]
pub struct JpegVariant {
    pub color: EncodeColor,
    pub quality: u8,
    pub progressive: bool,
    pub density_x: u16,
    pub density_y: u16,
}

/// The bytes that image's JPEG encoder writes for an RGB8 image.
pub uninterp spec fn rgb_jpeg_of(pixels: Seq<u8>, width: u32, height: u32) -> Seq<u8>;

/// The bytes that jpeg-encoder writes for pixel data under a variant.
pub uninterp spec fn variant_jpeg_of(
    pixels: Seq<u8>,
    width: u16,
    height: u16,
    variant: JpegVariant,
) -> Seq<u8>;

/// The bytes begin with a start-of-image marker.
pub open spec fn starts_with_soi(s: Seq<u8>) -> bool {
    s.len() >= 2 && s[0] == 0xFF && s[1] == 0xD8
}

/// The bytes per pixel that jpeg-encoder reads for a colour interpretation.
pub open spec fn bytes_per_pixel(c: EncodeColor) -> nat {
    match c {
        EncodeColor::Luma => 1,
        _ => 3,
    }
}

/// Relies on image's `JpegEncoder::new` (quality 75, the encoder that saving
/// to a `.jpg` path uses) and `JpegEncoder::encode` with RGB8 data: `encode`
/// panics unless the buffer holds three bytes per pixel, fails only for a
/// side outside 1..=65535 or a writer error (a `Vec` never fails), and
/// writes the start-of-image marker first.
#[verifier::external_body]
fn encode_rgb_jpeg(pixels: &Vec<u8>, width: u32, height: u32) -> (r: Option<Vec<u8>>)
    requires
        pixels@.len() == 3 * width * height,
    ensures
        r is Some ==> r->Some_0@ == rgb_jpeg_of(pixels@, width, height),
        1 <= width <= 65535 && 1 <= height <= 65535 ==> r is Some,
        r is Some ==> starts_with_soi(r->Some_0@),
{
    let mut out: Vec<u8> = Vec::new();
    let res = image::codecs::jpeg::JpegEncoder::new(&mut out).encode(
        pixels,
        width,
        height,
        image::ExtendedColorType::Rgb8,
    );
    res.ok().map(|_| out)
}

/// Relies on jpeg-encoder's `Encoder::new` writing into a `Vec<u8>`,
/// `set_progressive`, `set_density` with a per-inch density, and `encode`:
/// it fails only for a zero side, data shorter than the image, or a writer
/// error (a `Vec` never fails), and writes the start-of-image marker first.
#[verifier::external_body]
fn encode_jpeg_variant(pixels: &Vec<u8>, width: u16, height: u16, variant: JpegVariant) -> (r:
    Option<Vec<u8>>)
    ensures
        r is Some ==> r->Some_0@ == variant_jpeg_of(pixels@, width, height, variant),
        width >= 1 && height >= 1 && pixels@.len() >= width * height * bytes_per_pixel(
            variant.color,
        ) ==> r is Some,
        r is Some ==> starts_with_soi(r->Some_0@),
{
    let color = match variant.color {
        EncodeColor::Luma => jpeg_encoder::ColorType::Luma,
        EncodeColor::Rgb => jpeg_encoder::ColorType::Rgb,
        EncodeColor::Bgr => jpeg_encoder::ColorType::Bgr,
        EncodeColor::Ycbcr => jpeg_encoder::ColorType::Ycbcr,
    };
    let mut out: Vec<u8> = Vec::new();
    let mut encoder = jpeg_encoder::Encoder::new(&mut out, variant.quality);
    encoder.set_progressive(variant.progressive);
    encoder.set_density(jpeg_encoder::Density::Inch { x: variant.density_x, y: variant.density_y });
    let res = encoder.encode(pixels, width, height, color);
    res.ok().map(|_| out)
}

/// Side of the square gradient image.
pub const GRADIENT_SIDE: u32 = 16;

/// Number of random re-encodings of the gradient.
pub const VARIANT_COUNT: usize = 100;

/// The RGB bytes of the gradient: pixel `(x, y)` is `(3x, 3y, 3(x + y))`,
/// rows top to bottom.
pub open spec fn gradient_pixels() -> Seq<u8> {
    Seq::new(
        768,
        |i: int|
            {
                let p = i / 3;
                let x = p % 16;
                let y = p / 16;
                if i % 3 == 0 {
                    (3 * x) as u8
                } else if i % 3 == 1 {
                    (3 * y) as u8
                } else {
                    (3 * (x + y)) as u8
                }
            },
    )
}

pub open spec fn color_name(c: EncodeColor) -> Seq<char> {
    match c {
        EncodeColor::Luma => "Luma"@,
        EncodeColor::Rgb => "Rgb"@,
        EncodeColor::Bgr => "Bgr"@,
        EncodeColor::Ycbcr => "Ycbcr"@,
    }
}

pub open spec fn bool_name(b: bool) -> Seq<char> {
    if b {
        "true"@
    } else {
        "false"@
    }
}

/// The file name of a re-encoding, which records its settings.
pub open spec fn variant_name(v: JpegVariant) -> Seq<char> {
    "color-type="@ + color_name(v.color) + "_quality="@ + decimal(v.quality as nat)
        + "_progressive="@ + bool_name(v.progressive) + "_density=Inch { x: "@ + decimal(
        v.density_x as nat,
    ) + ", y: "@ + decimal(v.density_y as nat) + " }.jpg"@
}

/// The file name of a fixed-size image.
pub open spec fn size_name(width: u32, height: u32) -> Seq<char> {
    "size-"@ + decimal(width as nat) + "x"@ + decimal(height as nat) + ".jpg"@
}

/// The six fixed image sizes.
pub open spec fn fixed_size(j: int) -> (u32, u32) {
    if j == 0 {
        (1, 1)
    } else if j == 1 {
        (2, 2)
    } else if j == 2 {
        (256, 256)
    } else if j == 3 {
        (1024, 768)
    } else if j == 4 {
        (1, 65535)
    } else {
        (65535, 1)
    }
}

/// Whether `f` is a re-encoding of the gradient under some variant of
/// quality below 100.
pub open spec fn is_variant_file(f: CorpusFile) -> bool {
    starts_with_soi(f.contents@) && exists|v: JpegVariant|
        v.quality < 100 && f.name@ == encode_utf8(variant_name(v)) && f.contents@ == variant_jpeg_of(
            gradient_pixels(),
            16,
            16,
            v,
        )
}

/// Whether `f` is an RGB image of the given size with some pixels.
pub open spec fn is_sized_file(f: CorpusFile, width: u32, height: u32) -> bool {
    starts_with_soi(f.contents@) && f.name@ == encode_utf8(size_name(width, height)) && exists|p: Seq<u8>|
        p.len() == 3 * width * height && f.contents@ == rgb_jpeg_of(p, width, height)
}

fn gradient() -> (r: Vec<u8>)
    ensures
        r@ == gradient_pixels(),
{
    let mut data: Vec<u8> = Vec::new();
    let mut y: u32 = 0;
    while y < 16
        invariant
            y <= 16,
            data@.len() == 48 * y,
            forall|i: int| 0 <= i < data@.len() ==> #[trigger] data@[i] == gradient_pixels()[i],
        decreases 16 - y,
    {
        let mut x: u32 = 0;
        while x < 16
            invariant
                y < 16,
                x <= 16,
                data@.len() == 48 * y + 3 * x,
                forall|i: int|
                    0 <= i < data@.len() ==> #[trigger] data@[i] == gradient_pixels()[i],
            decreases 16 - x,
        {
            let ghost base = data@.len() as int;
            data.push((3 * x) as u8);
            data.push((3 * y) as u8);
            data.push((3 * (x + y)) as u8);
            proof {
                assert(base == 3 * (16 * y + x));
                assert((base / 3) == 16 * y + x);
                assert((base + 1) / 3 == 16 * y + x);
                assert((base + 2) / 3 == 16 * y + x);
                assert((16 * y + x) % 16 == x as int) by (nonlinear_arith)
                    requires
                        x < 16,
                        y < 16,
                ;
                assert((16 * y + x) / 16 == y as int) by (nonlinear_arith)
                    requires
                        x < 16,
                        y < 16,
                ;
            }
            x = x + 1;
        }
        y = y + 1;
    }
    assert(data@ =~= gradient_pixels());
    data
}

fn random_pixels(rng: &mut SmallRng, width: u32, height: u32) -> (r: Vec<u8>)
    requires
        1 <= height,
        3 * width * height <= 1_000_000_000,
    ensures
        r@.len() == 3 * width * height,
{
    assert(3 * width <= 3 * width * height) by (nonlinear_arith)
        requires
            1 <= height,
    ;
    let w3: usize = 3 * (width as usize);
    assert(w3 * (height as int) == 3 * width * height) by (nonlinear_arith)
        requires
            w3 == 3 * width,
    ;
    let total: usize = w3 * (height as usize);
    let mut data: Vec<u8> = Vec::new();
    let mut k: usize = 0;
    while k < total
        invariant
            k <= total,
            total == 3 * width * height,
            data@.len() == k,
        decreases total - k,
    {
        data.push(random_byte(rng));
        k = k + 1;
    }
    data
}

fn color_label(c: EncodeColor) -> (r: &'static str)
    ensures
        r@ == color_name(c),
{
    match c {
        EncodeColor::Luma => "Luma",
        EncodeColor::Rgb => "Rgb",
        EncodeColor::Bgr => "Bgr",
        EncodeColor::Ycbcr => "Ycbcr",
    }
}

fn bool_label(b: bool) -> (r: &'static str)
    ensures
        r@ == bool_name(b),
{
    if b {
        "true"
    } else {
        "false"
    }
}

fn variant_file_name(v: JpegVariant) -> (r: String)
    ensures
        r@ == variant_name(v),
{
    let mut s = String::from_str("color-type=");
    s.append(color_label(v.color));
    s.append("_quality=");
    push_decimal(&mut s, v.quality as u64);
    s.append("_progressive=");
    s.append(bool_label(v.progressive));
    s.append("_density=Inch { x: ");
    push_decimal(&mut s, v.density_x as u64);
    s.append(", y: ");
    push_decimal(&mut s, v.density_y as u64);
    s.append(" }.jpg");
    s
}

fn size_file_name(width: u32, height: u32) -> (r: String)
    ensures
        r@ == size_name(width, height),
{
    let mut s = String::from_str("size-");
    push_decimal(&mut s, width as u64);
    s.append("x");
    push_decimal(&mut s, height as u64);
    s.append(".jpg");
    s
}

/// Draws the settings of one re-encoding: quality, progressive scan, colour
/// interpretation and per-inch density, in that order.
pub fn draw_variant(rng: &mut SmallRng) -> (r: JpegVariant)
    ensures
        r.quality < 100,
{
    let quality = random_below(rng, 100) as u8;
    let progressive = random_bool(rng);
    let c = random_below(rng, 4);
    let color = if c == 0 {
        EncodeColor::Luma
    } else if c == 1 {
        EncodeColor::Rgb
    } else if c == 2 {
        EncodeColor::Bgr
    } else {
        EncodeColor::Ycbcr
    };
    let density_x = random_u16(rng);
    let density_y = random_u16(rng);
    JpegVariant { color, quality, progressive, density_x, density_y }
}

fn sized_file(rng: &mut SmallRng, width: u32, height: u32) -> (r: Result<CorpusFile, CorpusError>)
    requires
        1 <= width <= 65535,
        1 <= height <= 65535,
        3 * width * height <= 1_000_000_000,
    ensures
        r is Ok,
        r is Ok ==> is_sized_file(r->Ok_0, width, height),
{
    let pixels = random_pixels(rng, width, height);
    match encode_rgb_jpeg(&pixels, width, height) {
        Some(contents) => Ok(CorpusFile { name: name_bytes(size_file_name(width, height).as_str()), contents }),
        None => Err(CorpusError::Encoding),
    }
}

/// What the JPEG seed corpus holds: `default.jpg` (the gradient), then the
/// hundred re-encodings, then the six fixed sizes, each a JPEG stream.
pub open spec fn jpeg_corpus_holds(v: Seq<CorpusFile>) -> bool {
    &&& v.len() == 1 + VARIANT_COUNT + 6
    &&& v[0].name@ == encode_utf8("default.jpg"@)
    &&& v[0].contents@ == rgb_jpeg_of(gradient_pixels(), 16, 16)
    &&& starts_with_soi(v[0].contents@)
    &&& forall|i: int| 1 <= i <= VARIANT_COUNT ==> is_variant_file(#[trigger] v[i])
    &&& forall|j: int|
        0 <= j < 6 ==> is_sized_file(
            #[trigger] v[1 + VARIANT_COUNT + j],
            fixed_size(j).0,
            fixed_size(j).1,
        )
}

/// Builds the JPEG seed corpus: `default.jpg`, then the hundred
/// re-encodings, then the six fixed sizes.
pub fn jpeg_corpus(rng: &mut SmallRng) -> (r: Result<Vec<CorpusFile>, CorpusError>)
    ensures
        r is Ok,
        r is Ok ==> jpeg_corpus_holds(r->Ok_0@),
{
    let data = gradient();
    let mut files: Vec<CorpusFile> = Vec::new();
    match encode_rgb_jpeg(&data, GRADIENT_SIDE, GRADIENT_SIDE) {
        Some(contents) => files.push(CorpusFile { name: name_bytes("default.jpg"), contents }),
        None => return Err(CorpusError::Encoding),
    }
    let mut k: usize = 0;
    while k < VARIANT_COUNT
        invariant
            k <= VARIANT_COUNT,
            data@ == gradient_pixels(),
            files@.len() == 1 + k,
            files@[0].name@ == encode_utf8("default.jpg"@),
            files@[0].contents@ == rgb_jpeg_of(gradient_pixels(), 16, 16),
            starts_with_soi(files@[0].contents@),
            forall|i: int| 1 <= i < 1 + k ==> is_variant_file(#[trigger] files@[i]),
        decreases VARIANT_COUNT - k,
    {
        let v = draw_variant(rng);
        let name = variant_file_name(v);
        match encode_jpeg_variant(&data, 16, 16, v) {
            Some(contents) => {
                let f = CorpusFile { name: name_bytes(name.as_str()), contents };
                assert(is_variant_file(f));
                files.push(f);
            },
            None => return Err(CorpusError::Encoding),
        }
        k = k + 1;
    }
    let mut j: usize = 0;
    while j < 6
        invariant
            j <= 6,
            files@.len() == 1 + VARIANT_COUNT + j,
            files@[0].name@ == encode_utf8("default.jpg"@),
            files@[0].contents@ == rgb_jpeg_of(gradient_pixels(), 16, 16),
            starts_with_soi(files@[0].contents@),
            forall|i: int| 1 <= i <= VARIANT_COUNT ==> is_variant_file(#[trigger] files@[i]),
            forall|i: int|
                0 <= i < j ==> is_sized_file(
                    #[trigger] files@[1 + VARIANT_COUNT + i],
                    fixed_size(i).0,
                    fixed_size(i).1,
                ),
        decreases 6 - j,
    {
        let made = if j == 0 {
            sized_file(rng, 1, 1)
        } else if j == 1 {
            sized_file(rng, 2, 2)
        } else if j == 2 {
            sized_file(rng, 256, 256)
        } else if j == 3 {
            sized_file(rng, 1024, 768)
        } else if j == 4 {
            sized_file(rng, 1, 65535)
        } else {
            sized_file(rng, 65535, 1)
        };
        match made {
            Ok(f) => files.push(f),
            Err(e) => return Err(e),
        }
        j = j + 1;
    }
    Ok(files)
}

} // verus!
