//! The image-codec boundary: encoding and decoding are done by the outside
//! image codecs; this module states their behaviour and converts between
//! RGBA byte streams and the packed pixels the rest of the pipeline uses.

use vstd::prelude::*;
use crate::format::ImageFormat;

verus! {

/// What the auto-detecting decoder yields for these bytes: dimensions and
/// RGBA bytes, or nothing when the bytes decode under no known format.
pub uninterp spec fn decoded_image_auto(bytes: Seq<u8>) -> Option<(u32, u32, Seq<u8>)>;

/// What the decoder yields for these bytes when forced to the given format.
pub uninterp spec fn decoded_image_as(bytes: Seq<u8>, format: ImageFormat) -> Option<
    (u32, u32, Seq<u8>),
>;

/// What decoding yields under an optional format override: with `Some` the
/// override alone decides, extension- or content-based detection plays no
/// part; with `None` auto-detection decides.
pub open spec fn decoded_image(bytes: Seq<u8>, format: Option<ImageFormat>) -> Option<
    (u32, u32, Seq<u8>),
> {
    match format {
        Some(f) => decoded_image_as(bytes, f),
        None => decoded_image_auto(bytes),
    }
}

/// What the encoder emits for an RGBA image of the given size, or nothing
/// when it refuses the input.
pub uninterp spec fn encoded_image(
    format: ImageFormat,
    width: u32,
    height: u32,
    rgba: Seq<u8>,
) -> Option<Seq<u8>>;

/// Format override: decoding under an explicit format is decided by that
/// format alone; what auto-detection would have chosen plays no part.
pub proof fn lemma_format_override(bytes: Seq<u8>, f: ImageFormat)
    ensures
        decoded_image(bytes, Some(f)) == decoded_image_as(bytes, f),
{
}

/// Why an encode attempt failed.
pub enum EncodeFailure {
    /// The codec does not support this format / pixel-layout combination.
    Unsupported(String),
    /// Any other encoder failure.
    Other(String),
}

/// Relies on image::load_from_memory: decoding with format auto-detection
/// is a function of the bytes alone, and `DynamicImage::to_rgba8` yields a
/// `width * height * 4` RGBA byte buffer. Auto-detection goes by the magic
/// bytes and the crate's built-in format table; this also relies on the
/// process registering no custom codec hooks with the image crate (the
/// hook registries start empty and nothing in this crate or its host glue
/// touches them).
#[verifier::external_body]
fn decode_auto(bytes: &Vec<u8>) -> (r: Result<(u32, u32, Vec<u8>), String>)
    ensures
        match r {
            Ok((w, h, d)) => decoded_image_auto(bytes@) == Some((w, h, d@)) && d@.len() == w * h
                * 4,
            Err(_) => decoded_image_auto(bytes@) is None,
        },
{
    match image::load_from_memory(bytes.as_slice()) {
        Ok(img) => {
            let rgba = img.to_rgba8();
            let (w, h) = rgba.dimensions();
            Ok((w, h, rgba.into_raw()))
        },
        Err(e) => Err(format!("{e}")),
    }
}

/// Relies on image::load_from_memory_with_format: decoding under a forced
/// format is a function of the bytes and the format alone, and
/// `DynamicImage::to_rgba8` yields a `width * height * 4` RGBA byte buffer.
#[verifier::external_body]
fn decode_as(bytes: &Vec<u8>, format: ImageFormat) -> (r: Result<(u32, u32, Vec<u8>), String>)
    ensures
        match r {
            Ok((w, h, d)) => decoded_image_as(bytes@, format) == Some((w, h, d@)) && d@.len() == w
                * h * 4,
            Err(_) => decoded_image_as(bytes@, format) is None,
        },
{
    let f = match format {
        ImageFormat::Png => image::ImageFormat::Png,
        ImageFormat::Jpeg => image::ImageFormat::Jpeg,
        ImageFormat::Bmp => image::ImageFormat::Bmp,
    };
    match image::load_from_memory_with_format(bytes.as_slice(), f) {
        Ok(img) => {
            let rgba = img.to_rgba8();
            let (w, h) = rgba.dimensions();
            Ok((w, h, rgba.into_raw()))
        },
        Err(e) => Err(format!("{e}")),
    }
}

/// Decodes an encoded image, honouring an explicit format override.
///
/// An explicit format bypasses auto-detection entirely.
pub fn decode_image(bytes: &Vec<u8>, format: Option<ImageFormat>) -> (r: Result<
    (u32, u32, Vec<u8>),
    String,
>)
    ensures
        match r {
            Ok((w, h, d)) => decoded_image(bytes@, format) == Some((w, h, d@)) && d@.len() == w * h
                * 4,
            Err(_) => decoded_image(bytes@, format) is None,
        },
{
    match format {
        Some(f) => decode_as(bytes, f),
        None => decode_auto(bytes),
    }
}

/// Relies on DynamicImage::write_to: encoding is a function of the format,
/// the dimensions and the bytes alone (the encoders and their colour
/// conversions use fixed tables), and it converts the RGBA pixels to a
/// layout the encoder supports, dropping alpha where the format has none.
/// The documented buffer length `width * height * 4` is required: it is
/// what `RgbaImage::from_raw` accepts.
#[verifier::external_body]
pub(crate) fn encode_rgba(format: ImageFormat, width: u32, height: u32, rgba: &Vec<u8>) -> (r: Result<
    Vec<u8>,
    EncodeFailure,
>)
    requires
        rgba@.len() == width * height * 4,
    ensures
        match r {
            Ok(v) => encoded_image(format, width, height, rgba@) == Some(v@),
            Err(_) => encoded_image(format, width, height, rgba@) is None,
        },
{
    let f = match format {
        ImageFormat::Png => image::ImageFormat::Png,
        ImageFormat::Jpeg => image::ImageFormat::Jpeg,
        ImageFormat::Bmp => image::ImageFormat::Bmp,
    };
    let img = match image::RgbaImage::from_raw(width, height, rgba.clone()) {
        Some(buffer) => image::DynamicImage::ImageRgba8(buffer),
        None => { return Err(EncodeFailure::Other("buffer does not fit the dimensions".to_string())); },
    };
    let mut cur = std::io::Cursor::new(Vec::new());
    match img.write_to(&mut cur, f) {
        Ok(()) => Ok(cur.into_inner()),
        Err(image::ImageError::Unsupported(e)) => Err(EncodeFailure::Unsupported(format!("{e}"))),
        Err(e) => Err(EncodeFailure::Other(format!("{e}"))),
    }
}

/// Byte `k` (little-endian, red first) of a packed RGBA pixel.
pub open spec fn pixel_byte(p: u32, k: int) -> u8 {
    if k == 0 {
        (p & 0xff) as u8
    } else if k == 1 {
        ((p >> 8) & 0xff) as u8
    } else if k == 2 {
        ((p >> 16) & 0xff) as u8
    } else {
        ((p >> 24) & 0xff) as u8
    }
}

/// The packed RGBA pixel with the given channel bytes.
pub open spec fn pixel_of_bytes(r: u8, g: u8, b: u8, a: u8) -> u32 {
    (r as u32) | ((g as u32) << 8) | ((b as u32) << 16) | ((a as u32) << 24)
}

/// The packed pixels of an RGBA byte stream.
pub open spec fn pixels_of_bytes(b: Seq<u8>) -> Seq<u32> {
    Seq::new((b.len() / 4) as nat, |i: int| pixel_of_bytes(b[4 * i], b[4 * i + 1], b[4 * i + 2], b[4 * i + 3]))
}

/// The RGBA byte stream of a packed pixel sequence.
pub open spec fn bytes_of_pixels(p: Seq<u32>) -> Seq<u8> {
    Seq::new((p.len() * 4) as nat, |i: int| pixel_byte(p[i / 4], i % 4))
}

/// Reassembling a pixel from its four channel bytes gives the pixel back.
proof fn lemma_pixel_byte_round_trip(p: u32)
    ensures
        pixel_of_bytes(pixel_byte(p, 0), pixel_byte(p, 1), pixel_byte(p, 2), pixel_byte(p, 3))
            == p,
{
    assert(((p & 0xff) as u8 as u32) | ((((p >> 8) & 0xff) as u8 as u32) << 8) | ((((p >> 16)
        & 0xff) as u8 as u32) << 16) | ((((p >> 24) & 0xff) as u8 as u32) << 24) == p)
        by (bit_vector);
}

/// The byte stream of a pixel sequence decodes back to the same pixels.
pub proof fn lemma_pixels_bytes_round_trip(p: Seq<u32>)
    ensures
        pixels_of_bytes(bytes_of_pixels(p)) =~= p,
{
    let b = bytes_of_pixels(p);
    assert(b.len() == p.len() * 4);
    assert(b.len() / 4 == p.len());
    assert forall|i: int| 0 <= i < p.len() implies pixels_of_bytes(b)[i] == p[i] by {
        assert((4 * i) / 4 == i && (4 * i) % 4 == 0);
        assert((4 * i + 1) / 4 == i && (4 * i + 1) % 4 == 1);
        assert((4 * i + 2) / 4 == i && (4 * i + 2) % 4 == 2);
        assert((4 * i + 3) / 4 == i && (4 * i + 3) % 4 == 3);
        assert(b[4 * i] == pixel_byte(p[i], 0));
        assert(b[4 * i + 1] == pixel_byte(p[i], 1));
        assert(b[4 * i + 2] == pixel_byte(p[i], 2));
        assert(b[4 * i + 3] == pixel_byte(p[i], 3));
        lemma_pixel_byte_round_trip(p[i]);
    }
}

/// Packs an RGBA byte stream, four bytes per pixel, into pixel values.
pub fn bytes_to_pixels(bytes: &Vec<u8>) -> (r: Vec<u32>)
    requires
        bytes@.len() % 4 == 0,
    ensures
        r@ =~= pixels_of_bytes(bytes@),
        r@.len() == bytes@.len() / 4,
{
    let blen = bytes.len();
    let n = blen / 4;
    let mut out: Vec<u32> = Vec::new();
    let mut i: usize = 0;
    while i < n
        invariant
            i <= n,
            blen == bytes@.len(),
            n == bytes@.len() / 4,
            bytes@.len() % 4 == 0,
            out@.len() == i,
            forall|j: int| 0 <= j < i ==> out@[j] == pixels_of_bytes(bytes@)[j],
        decreases n - i,
    {
        proof {
            assert(bytes@.len() == 4 * n);
            assert(4 * i + 3 < bytes@.len());
        }
        let r = bytes[4 * i];
        let g = bytes[4 * i + 1];
        let b = bytes[4 * i + 2];
        let a = bytes[4 * i + 3];
        let v: u32 = (r as u32) | ((g as u32) << 8) | ((b as u32) << 16) | ((a as u32) << 24);
        out.push(v);
        i += 1;
    }
    proof {
        assert(out@ =~= pixels_of_bytes(bytes@));
    }
    out
}

/// Unpacks pixel values into an RGBA byte stream, four bytes per pixel.
pub fn pixels_to_bytes(pixels: &Vec<u32>) -> (r: Vec<u8>)
    requires
        pixels@.len() * 4 <= usize::MAX,
    ensures
        r@ =~= bytes_of_pixels(pixels@),
        r@.len() == pixels@.len() * 4,
{
    let n = pixels.len();
    let mut out: Vec<u8> = Vec::new();
    let mut i: usize = 0;
    while i < n
        invariant
            i <= n,
            n == pixels@.len(),
            pixels@.len() * 4 <= usize::MAX,
            out@.len() == 4 * i,
            forall|j: int| 0 <= j < 4 * i ==> out@[j] == bytes_of_pixels(pixels@)[j],
        decreases n - i,
    {
        let p = pixels[i];
        out.push((p & 0xff) as u8);
        out.push(((p >> 8) & 0xff) as u8);
        out.push(((p >> 16) & 0xff) as u8);
        out.push(((p >> 24) & 0xff) as u8);
        proof {
            assert forall|j: int| 0 <= j < 4 * (i + 1) implies out@[j] == bytes_of_pixels(
                pixels@,
            )[j] by {
                if j >= 4 * i {
                    assert(j / 4 == i && (j == 4 * i || j == 4 * i + 1 || j == 4 * i + 2 || j == 4
                        * i + 3));
                }
            }
        }
        i += 1;
    }
    proof {
        assert(out@ =~= bytes_of_pixels(pixels@));
    }
    out
}

} // verus!
