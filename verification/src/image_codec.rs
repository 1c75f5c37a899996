//! Still-image work handed to outside crates: resizing and JPEG encoding
//! (`image`) and Base64 text (`base64`).
use vstd::prelude::*;

verus! {

/// Pixels of a `width × height` RGB image resized to
/// `new_width × new_height` with the triangle (bilinear) filter of
/// `image::imageops::resize`.
pub uninterp spec fn triangle_resized(rgb: Seq<u8>, width: u32, height: u32, new_width: u32, new_height: u32) -> Seq<u8>;

/// Pixels of a `width × height` RGBA image resized to
/// `new_width × new_height` with the triangle (bilinear) filter of
/// `image::imageops::resize`.
pub uninterp spec fn triangle_resized_rgba(rgba: Seq<u8>, width: u32, height: u32, new_width: u32, new_height: u32) -> Seq<u8>;

/// The JPEG file `image`'s `JpegEncoder` writes for a `width × height` RGB
/// image at `quality`.
pub uninterp spec fn jpeg_encoded(rgb: Seq<u8>, width: u32, height: u32, quality: u8) -> Seq<u8>;

/// Trusted: wraps `image::imageops::resize` with `FilterType::Triangle` on
/// the RGB image whose pixels are `rgb` (built with `RgbImage::from_raw`,
/// which accepts exactly `width * height * 3` bytes). The result has
/// `new_width * new_height` RGB pixels, named `triangle_resized`; an empty
/// source gives a black image of the new size.
#[verifier::external_body]
pub(crate) fn resize_rgb_triangle(rgb: Vec<u8>, width: u32, height: u32, new_width: u32, new_height: u32) -> (r:
    Vec<u8>)
    requires
        rgb@.len() == width * height * 3,
        new_width * new_height * 3 <= usize::MAX,
    ensures
        r@ == triangle_resized(rgb@, width, height, new_width, new_height),
        r@.len() == new_width * new_height * 3,
{
    let img = image::RgbImage::from_raw(width, height, rgb).unwrap();
    image::imageops::resize(&img, new_width, new_height, image::imageops::FilterType::Triangle).into_raw()
}

/// Trusted: wraps `image::imageops::resize` with `FilterType::Triangle` on
/// the RGBA image whose pixels are `rgba` (built with `RgbaImage::from_raw`,
/// which accepts exactly `width * height * 4` bytes). The result has
/// `new_width * new_height` RGBA pixels, named `triangle_resized_rgba`.
/// The resize allocates an intermediate `width × new_height` image of four
/// `f32` channels and the `new_width × new_height` result, and panics when
/// either allocation exceeds `isize::MAX` bytes, so those sizes are bounded
/// here.
#[verifier::external_body]
pub(crate) fn resize_rgba_triangle(rgba: Vec<u8>, width: u32, height: u32, new_width: u32, new_height: u32) -> (r:
    Vec<u8>)
    requires
        rgba@.len() == width * height * 4,
        width * new_height * 16 <= isize::MAX,
        new_width * new_height * 4 <= isize::MAX,
    ensures
        r@ == triangle_resized_rgba(rgba@, width, height, new_width, new_height),
        r@.len() == new_width * new_height * 4,
{
    let img = image::RgbaImage::from_raw(width, height, rgba).unwrap();
    image::imageops::resize(&img, new_width, new_height, image::imageops::FilterType::Triangle).into_raw()
}

/// Trusted: wraps `JpegEncoder::new_with_quality(..).encode(.., Rgb8)`
/// writing into a vector. The encoder asserts the buffer holds exactly
/// `width * height * 3` bytes and refuses sizes outside `1..=65535` on
/// either side; otherwise it writes the bytes named `jpeg_encoded`.
#[verifier::external_body]
pub(crate) fn encode_jpeg_rgb(rgb: &[u8], width: u32, height: u32, quality: u8) -> (r: Option<Vec<u8>>)
    requires
        rgb@.len() == width * height * 3,
    ensures
        r is Some <==> (1 <= width <= 65535 && 1 <= height <= 65535),
        r matches Some(b) ==> b@ == jpeg_encoded(rgb@, width, height, quality),
{
    let mut out: Vec<u8> = Vec::new();
    let mut encoder = image::codecs::jpeg::JpegEncoder::new_with_quality(&mut out, quality);
    let done = encoder.encode(rgb, width, height, image::ExtendedColorType::Rgb8);
    drop(encoder);
    match done {
        Ok(()) => Some(out),
        Err(_) => None,
    }
}

/// The standard Base64 alphabet.
pub open spec fn base64_digit(v: int) -> char {
    if v < 26 {
        (65 + v) as char
    } else if v < 52 {
        (97 + v - 26) as char
    } else if v < 62 {
        (48 + v - 52) as char
    } else if v == 62 {
        '+'
    } else {
        '/'
    }
}

/// Standard Base64 with `=` padding (RFC 4648, section 4): each group of
/// three bytes becomes four digits of six bits each, a final group of one
/// or two bytes is padded with `=`.
pub open spec fn base64_std(b: Seq<u8>) -> Seq<char>
    decreases b.len(),
{
    if b.len() == 0 {
        Seq::empty()
    } else {
        let b0 = b[0] as int;
        let b1 = if b.len() > 1 { b[1] as int } else { 0 };
        let b2 = if b.len() > 2 { b[2] as int } else { 0 };
        if b.len() == 1 {
            seq![base64_digit(b0 / 4), base64_digit((b0 % 4) * 16), '=', '=']
        } else if b.len() == 2 {
            seq![
                base64_digit(b0 / 4),
                base64_digit((b0 % 4) * 16 + b1 / 16),
                base64_digit((b1 % 16) * 4),
                '=',
            ]
        } else {
            seq![
                base64_digit(b0 / 4),
                base64_digit((b0 % 4) * 16 + b1 / 16),
                base64_digit((b1 % 16) * 4 + b2 / 64),
                base64_digit(b2 % 64),
            ] + base64_std(b.subrange(3, b.len() as int))
        }
    }
}

/// Trusted: wraps `base64::engine::general_purpose::STANDARD.encode`, the
/// standard alphabet with padding, stated as `base64_std`.
#[verifier::external_body]
pub(crate) fn base64_encode(bytes: &[u8]) -> (r: String)
    ensures
        r@ == base64_std(bytes@),
{
    base64::Engine::encode(&base64::engine::general_purpose::STANDARD, bytes)
}

} // verus!
